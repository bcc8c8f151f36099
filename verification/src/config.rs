//! Configuration values for linting, formatting and scaffolding.
//!
//! Loading these from a configuration file is the caller's business;
//! the types, their defaults and threshold resolution live here.

use vstd::prelude::*;
use vstd::string::StringExecFns;

verus! {

/// A configurable threshold: the rule's default value, disabled, or
/// a specific value.
#[derive(Debug, Clone, Copy, PartialEq, Eq, Structural)]
pub enum Threshold {
    /// Use the default value for this rule.
    Default,
    /// The rule is disabled.
    Disabled,
    /// The rule is enabled with this value.
    Value(usize),
}

/// The resolution of a threshold against a rule's default value.
pub open spec fn resolve_spec(t: Threshold, fallback: usize) -> Option<usize> {
    match t {
        Threshold::Default => Some(fallback),
        Threshold::Disabled => None,
        Threshold::Value(n) => Some(n),
    }
}

impl Threshold {
    /// Resolves the threshold given the rule's default value.
    pub fn resolve(self, default: usize) -> (r: Option<usize>)
        ensures
            r == resolve_spec(self, default),
    {
        match self {
            Threshold::Default => Some(default),
            Threshold::Disabled => None,
            Threshold::Value(n) => Some(n),
        }
    }
}

impl Default for Threshold {
    fn default() -> (r: Self)
        ensures
            r == Threshold::Default,
    {
        Threshold::Default
    }
}

/// The default rule set: every rule on, every threshold at its
/// default.
pub open spec fn rules_config_default() -> RulesConfig {
    RulesConfig {
        name_format: true,
        name_length: Threshold::Default,
        name_directory: true,
        description_required: true,
        description_length: Threshold::Default,
        compatibility_length: Threshold::Default,
        references_exist: true,
        body_length: Threshold::Default,
        script_executable: true,
        script_shebang: true,
    }
}

/// Per-rule switches and thresholds for the linter.
#[derive(Debug, Clone, Copy, PartialEq, Eq, Structural)]
pub struct RulesConfig {
    pub name_format: bool,
    pub name_length: Threshold,
    pub name_directory: bool,
    pub description_required: bool,
    pub description_length: Threshold,
    pub compatibility_length: Threshold,
    pub references_exist: bool,
    pub body_length: Threshold,
    pub script_executable: bool,
    pub script_shebang: bool,
}

impl Default for RulesConfig {
    fn default() -> (r: Self)
        ensures
            r == rules_config_default(),
    {
        RulesConfig {
            name_format: true,
            name_length: Threshold::Default,
            name_directory: true,
            description_required: true,
            description_length: Threshold::Default,
            compatibility_length: Threshold::Default,
            references_exist: true,
            body_length: Threshold::Default,
            script_executable: true,
            script_shebang: true,
        }
    }
}

/// The default linter configuration: not strict, default rules.
pub open spec fn lint_config_default() -> LintConfig {
    LintConfig { strict: false, rules: rules_config_default() }
}

/// Linter configuration: strictness and the rule set.
#[derive(Debug, Clone, Copy, PartialEq, Eq, Structural)]
pub struct LintConfig {
    pub strict: bool,
    pub rules: RulesConfig,
}

impl Default for LintConfig {
    fn default() -> (r: Self)
        ensures
            r.strict == false,
            r.rules == rules_config_default(),
    {
        LintConfig { strict: false, rules: RulesConfig::default() }
    }
}

/// Formatter configuration.
#[derive(Debug, Clone, Copy, PartialEq, Eq, Structural)]
pub struct FmtConfig {
    pub sort_frontmatter: bool,
    pub indent_size: usize,
    pub format_tables: bool,
}

impl Default for FmtConfig {
    fn default() -> (r: Self)
        ensures
            r == (FmtConfig { sort_frontmatter: true, indent_size: 2, format_tables: true }),
    {
        FmtConfig { sort_frontmatter: true, indent_size: 2, format_tables: true }
    }
}

/// Scaffolding configuration for new skills.
#[derive(Debug)]
pub struct NewConfig {
    pub default_license: Option<String>,
    pub default_template: String,
    pub default_lang: String,
}

impl Default for NewConfig {
    fn default() -> (r: Self)
        ensures
            r.default_license is None,
            r.default_template@ == "hello-world"@,
            r.default_lang@ == "python"@,
    {
        NewConfig {
            default_license: None,
            default_template: String::from_str("hello-world"),
            default_lang: String::from_str("python"),
        }
    }
}

/// The whole configuration.
#[derive(Debug)]
pub struct Config {
    pub lint: LintConfig,
    pub fmt: FmtConfig,
    pub new: NewConfig,
}

impl Default for Config {
    fn default() -> (r: Self)
        ensures
            r.lint.strict == false,
            r.lint.rules == rules_config_default(),
            r.fmt == (FmtConfig { sort_frontmatter: true, indent_size: 2, format_tables: true }),
            r.new.default_license is None,
            r.new.default_template@ == "hello-world"@,
            r.new.default_lang@ == "python"@,
    {
        Config { lint: LintConfig::default(), fmt: FmtConfig::default(), new: NewConfig::default() }
    }
}

} // verus!
