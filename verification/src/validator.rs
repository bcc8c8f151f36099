//! The manifest validation scaffolding: diagnostics, the rule list
//! built from configuration, and the error/warning partition.
//!
//! The rule engine proper is a collaborator of the cache subsystem,
//! consumed through the contract `check(manifest) -> diagnostics`.
//! The manifest model here carries the fields that the in-scope
//! compatibility-length rule reads; the remaining rules examine
//! manifest content and files outside this model and contribute no
//! diagnostics here.

use vstd::prelude::*;
use vstd::string::{StrSliceExecFns, StringExecFns};

use crate::config::{resolve_spec, LintConfig};
use crate::text::{dec_digits, u64_to_string};

verus! {

/// The manifest frontmatter fields read by the rules in scope.
#[derive(Debug)]
pub struct Frontmatter {
    /// The free-text compatibility note, if any.
    pub compatibility: Option<String>,
}

/// A skill manifest, as the validator sees it.
#[derive(Debug)]
pub struct Manifest {
    /// Path of the manifest file, for diagnostics.
    pub path: String,
    /// Its frontmatter.
    pub frontmatter: Frontmatter,
}

/// A diagnostic code: `E…` codes are errors, `W…` codes warnings.
#[derive(Debug, Clone, Copy, PartialEq, Eq, Hash, Structural)]
pub enum DiagnosticCode {
    /// Invalid name format.
    E001,
    /// Name too long.
    E002,
    /// Name mismatch with directory.
    E003,
    /// Missing description.
    E004,
    /// Description too long.
    E005,
    /// Compatibility too long.
    E006,
    /// Invalid YAML.
    E007,
    /// Missing manifest file.
    E008,
    /// Referenced file not found.
    E009,
    /// Body exceeds maximum lines.
    W001,
    /// Script not executable.
    W002,
    /// Script missing shebang.
    W003,
    /// Empty optional directory.
    W004,
}

/// Whether a code is an error code.
pub open spec fn is_error_code(c: DiagnosticCode) -> bool {
    match c {
        DiagnosticCode::E001 | DiagnosticCode::E002 | DiagnosticCode::E003 | DiagnosticCode::E004
            | DiagnosticCode::E005 | DiagnosticCode::E006 | DiagnosticCode::E007
            | DiagnosticCode::E008 | DiagnosticCode::E009 => true,
        _ => false,
    }
}

/// The label of a code.
pub open spec fn code_label(c: DiagnosticCode) -> Seq<char> {
    match c {
        DiagnosticCode::E001 => "E001"@,
        DiagnosticCode::E002 => "E002"@,
        DiagnosticCode::E003 => "E003"@,
        DiagnosticCode::E004 => "E004"@,
        DiagnosticCode::E005 => "E005"@,
        DiagnosticCode::E006 => "E006"@,
        DiagnosticCode::E007 => "E007"@,
        DiagnosticCode::E008 => "E008"@,
        DiagnosticCode::E009 => "E009"@,
        DiagnosticCode::W001 => "W001"@,
        DiagnosticCode::W002 => "W002"@,
        DiagnosticCode::W003 => "W003"@,
        DiagnosticCode::W004 => "W004"@,
    }
}

impl DiagnosticCode {
    /// Whether this code marks an error rather than a warning.
    pub fn is_error(&self) -> (r: bool)
        ensures
            r == is_error_code(*self),
    {
        matches!(
            self,
            DiagnosticCode::E001 | DiagnosticCode::E002 | DiagnosticCode::E003
                | DiagnosticCode::E004 | DiagnosticCode::E005 | DiagnosticCode::E006
                | DiagnosticCode::E007 | DiagnosticCode::E008 | DiagnosticCode::E009
        )
    }

    /// The code's label, per [`code_label`].
    pub fn code_str(&self) -> (r: &'static str)
        ensures
            r@ == code_label(*self),
    {
        match self {
            DiagnosticCode::E001 => "E001",
            DiagnosticCode::E002 => "E002",
            DiagnosticCode::E003 => "E003",
            DiagnosticCode::E004 => "E004",
            DiagnosticCode::E005 => "E005",
            DiagnosticCode::E006 => "E006",
            DiagnosticCode::E007 => "E007",
            DiagnosticCode::E008 => "E008",
            DiagnosticCode::E009 => "E009",
            DiagnosticCode::W001 => "W001",
            DiagnosticCode::W002 => "W002",
            DiagnosticCode::W003 => "W003",
            DiagnosticCode::W004 => "W004",
        }
    }
}

/// One finding of the validator.
#[derive(Debug)]
pub struct Diagnostic {
    /// Path of the offending file.
    pub path: String,
    /// Line of the finding, when known.
    pub line: Option<usize>,
    /// Column of the finding, when known.
    pub column: Option<usize>,
    /// The finding, in words.
    pub message: String,
    /// Its code.
    pub code: DiagnosticCode,
    /// A hint on how to fix it, when one is known.
    pub fix_hint: Option<String>,
}

/// The validator's findings, split into errors and warnings.
#[derive(Debug)]
pub struct ValidationResult {
    /// Findings whose code is an error code.
    pub errors: Vec<Diagnostic>,
    /// Findings whose code is a warning code.
    pub warnings: Vec<Diagnostic>,
}

impl ValidationResult {
    /// Whether validation passed: no errors (warnings allowed).
    pub fn is_ok(&self) -> (r: bool)
        ensures
            r == (self.errors@.len() == 0),
    {
        self.errors.len() == 0
    }

    /// Whether validation passed strictly: no errors and no warnings.
    pub fn is_ok_strict(&self) -> (r: bool)
        ensures
            r == (self.errors@.len() == 0 && self.warnings@.len() == 0),
    {
        self.errors.len() == 0 && self.warnings.len() == 0
    }

    /// Appends another result's findings to this one, keeping order.
    pub fn merge(&mut self, other: ValidationResult)
        ensures
            final(self).errors@ == old(self).errors@ + other.errors@,
            final(self).warnings@ == old(self).warnings@ + other.warnings@,
    {
        let mut o = other;
        self.errors.append(&mut o.errors);
        self.warnings.append(&mut o.warnings);
    }
}

impl Default for ValidationResult {
    fn default() -> (r: Self)
        ensures
            r.errors@.len() == 0,
            r.warnings@.len() == 0,
    {
        ValidationResult { errors: Vec::new(), warnings: Vec::new() }
    }
}

/// Whether the compatibility-length rule with limit `max` fires on
/// `m`: the manifest has a compatibility note longer than `max`.
pub open spec fn compat_fires(m: Manifest, max: nat) -> bool {
    match m.frontmatter.compatibility {
        Some(c) => c@.len() > max,
        None => false,
    }
}

/// The message of a compatibility-length finding.
pub open spec fn compat_msg(n: nat, max: nat) -> Seq<char> {
    "Compatibility too long ("@ + dec_digits(n) + " chars, max "@ + dec_digits(max) + ")"@
}

/// Whether `d` is exactly the finding that the compatibility-length
/// rule with limit `max` reports on `m`.
pub open spec fn is_compat_diag(d: Diagnostic, m: Manifest, max: nat) -> bool {
    &&& d.code == DiagnosticCode::E006
    &&& d.path@ == m.path@
    &&& d.line is None
    &&& d.column is None
    &&& d.fix_hint is None
    &&& d.message@ == compat_msg(
        match m.frontmatter.compatibility {
            Some(c) => c@.len(),
            None => 0,
        },
        max,
    )
}

/// The rule limiting the length of the compatibility note.
#[derive(Debug, Clone, Copy, PartialEq, Eq, Structural)]
pub struct CompatibilityLengthRule {
    /// The longest accepted compatibility note.
    pub max_length: usize,
}

impl CompatibilityLengthRule {
    /// A rule with this limit.
    pub fn new(max_length: usize) -> (r: Self)
        ensures
            r.max_length == max_length,
    {
        CompatibilityLengthRule { max_length }
    }

    /// The rule's name.
    pub fn name(&self) -> (r: &'static str)
        ensures
            r@ == "compatibility-length"@,
    {
        "compatibility-length"
    }

    /// Checks a manifest: one `E006` finding when the compatibility
    /// note exceeds the limit, none otherwise.
    pub fn check(&self, manifest: &Manifest) -> (r: Vec<Diagnostic>)
        ensures
            compat_fires(*manifest, self.max_length as nat) ==> r@.len() == 1 && is_compat_diag(
                r@[0],
                *manifest,
                self.max_length as nat,
            ),
            !compat_fires(*manifest, self.max_length as nat) ==> r@.len() == 0,
    {
        let compat = match &manifest.frontmatter.compatibility {
            None => {
                return Vec::new();
            },
            Some(c) => c,
        };
        let clen = compat.as_str().unicode_len();
        if clen <= self.max_length {
            return Vec::new();
        }
        let mut msg = String::from_str("Compatibility too long (");
        msg.append(u64_to_string(clen as u64).as_str());
        msg.append(" chars, max ");
        msg.append(u64_to_string(self.max_length as u64).as_str());
        msg.append(")");
        proof {
            assert(msg@ =~= compat_msg(clen as nat, self.max_length as nat));
        }
        let d = Diagnostic {
            path: manifest.path.clone(),
            line: None,
            column: None,
            message: msg,
            code: DiagnosticCode::E006,
            fix_hint: None,
        };
        let mut v: Vec<Diagnostic> = Vec::new();
        v.push(d);
        v
    }
}

/// One configured rule of the validator.
#[derive(Debug, Clone, Copy, PartialEq, Eq, Structural)]
pub enum RuleKind {
    /// The name must have the accepted format.
    NameFormat,
    /// The name must not exceed this length.
    NameLength(usize),
    /// The name must match the directory name.
    NameDirectory,
    /// A description is required.
    DescriptionRequired,
    /// The description must not exceed this length.
    DescriptionLength(usize),
    /// The compatibility note must not exceed this length.
    CompatibilityLength(usize),
    /// Referenced files must exist.
    ReferencesExist,
    /// The body must not exceed this many lines.
    BodyLength(usize),
    /// Scripts must be executable.
    ScriptExecutable,
    /// Scripts must start with a shebang.
    ScriptShebang,
}

/// The rule list that a configuration enables, in its fixed order:
/// each enabled rule appended in turn.
pub open spec fn configured_rules(c: LintConfig) -> Seq<RuleKind> {
    let s = Seq::<RuleKind>::empty();
    let s = if c.rules.name_format {
        s.push(RuleKind::NameFormat)
    } else {
        s
    };
    let s = match resolve_spec(c.rules.name_length, 64) {
        Some(n) => s.push(RuleKind::NameLength(n)),
        None => s,
    };
    let s = if c.rules.name_directory {
        s.push(RuleKind::NameDirectory)
    } else {
        s
    };
    let s = if c.rules.description_required {
        s.push(RuleKind::DescriptionRequired)
    } else {
        s
    };
    let s = match resolve_spec(c.rules.description_length, 1024) {
        Some(n) => s.push(RuleKind::DescriptionLength(n)),
        None => s,
    };
    let s = match resolve_spec(c.rules.compatibility_length, 500) {
        Some(n) => s.push(RuleKind::CompatibilityLength(n)),
        None => s,
    };
    let s = if c.rules.references_exist {
        s.push(RuleKind::ReferencesExist)
    } else {
        s
    };
    let s = match resolve_spec(c.rules.body_length, 500) {
        Some(n) => s.push(RuleKind::BodyLength(n)),
        None => s,
    };
    let s = if c.rules.script_executable {
        s.push(RuleKind::ScriptExecutable)
    } else {
        s
    };
    let s = if c.rules.script_shebang {
        s.push(RuleKind::ScriptShebang)
    } else {
        s
    };
    s
}

/// The limits of the compatibility-length rules that fire on `m`,
/// in rule order.
pub open spec fn fired_compat_maxes(rules: Seq<RuleKind>, m: Manifest) -> Seq<nat>
    decreases rules.len(),
{
    if rules.len() == 0 {
        Seq::<nat>::empty()
    } else {
        fired_compat_maxes(rules.drop_last(), m) + (match rules.last() {
            RuleKind::CompatibilityLength(x) => if compat_fires(m, x as nat) {
                seq![x as nat]
            } else {
                Seq::<nat>::empty()
            },
            _ => Seq::<nat>::empty(),
        })
    }
}

fn check_rule(rule: &RuleKind, manifest: &Manifest) -> (r: Vec<Diagnostic>)
    ensures
        match *rule {
            RuleKind::CompatibilityLength(x) => {
                &&& compat_fires(*manifest, x as nat) ==> r@.len() == 1 && is_compat_diag(
                    r@[0],
                    *manifest,
                    x as nat,
                )
                &&& !compat_fires(*manifest, x as nat) ==> r@.len() == 0
            },
            _ => r@.len() == 0,
        },
{
    match rule {
        RuleKind::CompatibilityLength(x) => CompatibilityLengthRule::new(*x).check(manifest),
        _ => Vec::new(),
    }
}

/// The validator: the configured rules, run in order over a manifest.
#[derive(Debug)]
pub struct Validator {
    /// The enabled rules, in their fixed order.
    pub rules: Vec<RuleKind>,
}

impl Validator {
    /// Builds the rule list that `config` enables, in the fixed
    /// order of [`configured_rules`].
    pub fn new(config: &LintConfig) -> (r: Validator)
        ensures
            r.rules@ == configured_rules(*config),
    {
        let ghost c = *config;
        let mut rules: Vec<RuleKind> = Vec::new();
        let ghost mut expected: Seq<RuleKind> = Seq::<RuleKind>::empty();

        if config.rules.name_format {
            rules.push(RuleKind::NameFormat);
        }
        proof {
            expected = if c.rules.name_format {
                expected.push(RuleKind::NameFormat)
            } else {
                expected
            };
            assert(rules@ == expected);
        }

        match config.rules.name_length.resolve(64) {
            Some(max) => rules.push(RuleKind::NameLength(max)),
            None => (),
        }
        proof {
            expected = match resolve_spec(c.rules.name_length, 64) {
                Some(n) => expected.push(RuleKind::NameLength(n)),
                None => expected,
            };
            assert(rules@ == expected);
        }

        if config.rules.name_directory {
            rules.push(RuleKind::NameDirectory);
        }
        proof {
            expected = if c.rules.name_directory {
                expected.push(RuleKind::NameDirectory)
            } else {
                expected
            };
            assert(rules@ == expected);
        }

        if config.rules.description_required {
            rules.push(RuleKind::DescriptionRequired);
        }
        proof {
            expected = if c.rules.description_required {
                expected.push(RuleKind::DescriptionRequired)
            } else {
                expected
            };
            assert(rules@ == expected);
        }

        match config.rules.description_length.resolve(1024) {
            Some(max) => rules.push(RuleKind::DescriptionLength(max)),
            None => (),
        }
        proof {
            expected = match resolve_spec(c.rules.description_length, 1024) {
                Some(n) => expected.push(RuleKind::DescriptionLength(n)),
                None => expected,
            };
            assert(rules@ == expected);
        }

        match config.rules.compatibility_length.resolve(500) {
            Some(max) => rules.push(RuleKind::CompatibilityLength(max)),
            None => (),
        }
        proof {
            expected = match resolve_spec(c.rules.compatibility_length, 500) {
                Some(n) => expected.push(RuleKind::CompatibilityLength(n)),
                None => expected,
            };
            assert(rules@ == expected);
        }

        if config.rules.references_exist {
            rules.push(RuleKind::ReferencesExist);
        }
        proof {
            expected = if c.rules.references_exist {
                expected.push(RuleKind::ReferencesExist)
            } else {
                expected
            };
            assert(rules@ == expected);
        }

        match config.rules.body_length.resolve(500) {
            Some(max) => rules.push(RuleKind::BodyLength(max)),
            None => (),
        }
        proof {
            expected = match resolve_spec(c.rules.body_length, 500) {
                Some(n) => expected.push(RuleKind::BodyLength(n)),
                None => expected,
            };
            assert(rules@ == expected);
        }

        if config.rules.script_executable {
            rules.push(RuleKind::ScriptExecutable);
        }
        proof {
            expected = if c.rules.script_executable {
                expected.push(RuleKind::ScriptExecutable)
            } else {
                expected
            };
            assert(rules@ == expected);
        }

        if config.rules.script_shebang {
            rules.push(RuleKind::ScriptShebang);
        }
        proof {
            expected = if c.rules.script_shebang {
                expected.push(RuleKind::ScriptShebang)
            } else {
                expected
            };
            assert(rules@ == expected);
            assert(expected == configured_rules(c));
        }
        Validator { rules }
    }

    /// Runs every rule over the manifest, partitioning the findings
    /// by their code into errors and warnings.  With the manifest
    /// model here, the findings are exactly those of the enabled
    /// compatibility-length rules that fire, in rule order, and all
    /// are errors.
    pub fn validate(&self, manifest: &Manifest) -> (r: ValidationResult)
        ensures
            r.warnings@.len() == 0,
            r.errors@.len() == fired_compat_maxes(self.rules@, *manifest).len(),
            forall|k: int|
                0 <= k < r.errors@.len() ==> is_compat_diag(
                    r.errors@[k],
                    *manifest,
                    fired_compat_maxes(self.rules@, *manifest)[k],
                ),
    {
        let mut result = ValidationResult::default();
        let mut i: usize = 0;
        proof {
            assert(self.rules@.take(0) =~= Seq::<RuleKind>::empty());
        }
        while i < self.rules.len()
            invariant
                i <= self.rules@.len(),
                result.warnings@.len() == 0,
                result.errors@.len() == fired_compat_maxes(
                    self.rules@.take(i as int),
                    *manifest,
                ).len(),
                forall|k: int|
                    0 <= k < result.errors@.len() ==> is_compat_diag(
                        result.errors@[k],
                        *manifest,
                        fired_compat_maxes(self.rules@.take(i as int), *manifest)[k],
                    ),
            decreases self.rules@.len() - i,
        {
            proof {
                assert(self.rules@.take(i as int + 1).drop_last() =~= self.rules@.take(i as int));
                assert(self.rules@.take(i as int + 1).last() == self.rules@[i as int]);
            }
            let mut diags = check_rule(&self.rules[i], manifest);
            if diags.len() > 0 {
                let d = diags.remove(0);
                if d.code.is_error() {
                    result.errors.push(d);
                } else {
                    result.warnings.push(d);
                }
            }
            proof {
                assert(fired_compat_maxes(self.rules@.take(i as int + 1), *manifest)
                    == fired_compat_maxes(self.rules@.take(i as int), *manifest) + (
                match self.rules@[i as int] {
                    RuleKind::CompatibilityLength(x) => if compat_fires(*manifest, x as nat) {
                        seq![x as nat]
                    } else {
                        Seq::<nat>::empty()
                    },
                    _ => Seq::<nat>::empty(),
                }));
            }
            i += 1;
        }
        proof {
            assert(self.rules@.take(self.rules@.len() as int) =~= self.rules@);
        }
        result
    }
}

impl Default for Validator {
    fn default() -> (r: Self)
        ensures
            r.rules@ == configured_rules(crate::config::lint_config_default()),
    {
        Validator::new(&LintConfig::default())
    }
}

} // verus!
