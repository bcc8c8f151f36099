use skilo::config::{Config, FmtConfig, LintConfig, NewConfig, RulesConfig, Threshold};
use skilo::validator::{
    CompatibilityLengthRule, DiagnosticCode, Frontmatter, Manifest, RuleKind, ValidationResult,
    Validator,
};

fn manifest(compatibility: Option<&str>) -> Manifest {
    Manifest {
        path: "/skills/web/SKILL.md".to_string(),
        frontmatter: Frontmatter { compatibility: compatibility.map(|s| s.to_string()) },
    }
}

#[test]
fn test_threshold_resolve() {
    assert_eq!(Threshold::Default.resolve(64), Some(64));
    assert_eq!(Threshold::Disabled.resolve(64), None);
    assert_eq!(Threshold::Value(10).resolve(64), Some(10));
    assert_eq!(Threshold::default(), Threshold::Default);
}

#[test]
fn test_config_defaults() {
    let c = Config::default();
    assert!(!c.lint.strict);
    assert!(c.lint.rules.name_format);
    assert_eq!(c.lint.rules.name_length, Threshold::Default);
    assert!(c.lint.rules.script_shebang);
    assert_eq!(c.fmt, FmtConfig { sort_frontmatter: true, indent_size: 2, format_tables: true });
    let n = NewConfig::default();
    assert_eq!(n.default_license, None);
    assert_eq!(n.default_template, "hello-world");
    assert_eq!(n.default_lang, "python");
}

#[test]
fn test_validator_new_default_rules() {
    let v = Validator::new(&LintConfig::default());
    assert_eq!(
        v.rules,
        vec![
            RuleKind::NameFormat,
            RuleKind::NameLength(64),
            RuleKind::NameDirectory,
            RuleKind::DescriptionRequired,
            RuleKind::DescriptionLength(1024),
            RuleKind::CompatibilityLength(500),
            RuleKind::ReferencesExist,
            RuleKind::BodyLength(500),
            RuleKind::ScriptExecutable,
            RuleKind::ScriptShebang,
        ]
    );
}

#[test]
fn test_validator_new_disabled_rules() {
    let mut rules = RulesConfig::default();
    rules.name_format = false;
    rules.compatibility_length = Threshold::Disabled;
    rules.body_length = Threshold::Value(100);
    let v = Validator::new(&LintConfig { strict: false, rules });
    assert_eq!(
        v.rules,
        vec![
            RuleKind::NameLength(64),
            RuleKind::NameDirectory,
            RuleKind::DescriptionRequired,
            RuleKind::DescriptionLength(1024),
            RuleKind::ReferencesExist,
            RuleKind::BodyLength(100),
            RuleKind::ScriptExecutable,
            RuleKind::ScriptShebang,
        ]
    );
}

#[test]
fn test_compatibility_rule_fires() {
    let rule = CompatibilityLengthRule::new(10);
    let note = "x".repeat(46);
    let diags = rule.check(&manifest(Some(&note)));
    assert_eq!(diags.len(), 1);
    assert_eq!(diags[0].code, DiagnosticCode::E006);
    assert_eq!(diags[0].path, "/skills/web/SKILL.md");
    assert_eq!(diags[0].message, "Compatibility too long (46 chars, max 10)");
    assert_eq!(diags[0].line, None);
    assert_eq!(diags[0].column, None);
    assert_eq!(diags[0].fix_hint, None);
    assert_eq!(rule.name(), "compatibility-length");
}

#[test]
fn test_compatibility_rule_passes() {
    let rule = CompatibilityLengthRule::new(500);
    assert_eq!(rule.check(&manifest(Some("short"))).len(), 0);
    assert_eq!(rule.check(&manifest(None)).len(), 0);
    // exactly at the limit is accepted
    let rule = CompatibilityLengthRule::new(5);
    assert_eq!(rule.check(&manifest(Some("12345"))).len(), 0);
}

#[test]
fn test_validate_partitions_errors() {
    let v = Validator::new(&LintConfig::default());
    let long_note = "x".repeat(501);
    let r = v.validate(&manifest(Some(&long_note)));
    assert_eq!(r.errors.len(), 1);
    assert_eq!(r.warnings.len(), 0);
    assert_eq!(r.errors[0].code, DiagnosticCode::E006);
    assert!(!r.is_ok());
    assert!(!r.is_ok_strict());

    let ok = v.validate(&manifest(Some("works everywhere")));
    assert!(ok.is_ok());
    assert!(ok.is_ok_strict());
}

#[test]
fn test_validation_result_merge() {
    let v = Validator::new(&LintConfig::default());
    let long_note = "x".repeat(501);
    let mut a = v.validate(&manifest(Some(&long_note)));
    let b = v.validate(&manifest(Some(&long_note)));
    a.merge(b);
    assert_eq!(a.errors.len(), 2);
    assert_eq!(a.warnings.len(), 0);
    let mut empty = ValidationResult::default();
    assert!(empty.is_ok());
    empty.merge(a);
    assert_eq!(empty.errors.len(), 2);
}

#[test]
fn test_diagnostic_codes() {
    assert!(DiagnosticCode::E001.is_error());
    assert!(DiagnosticCode::E006.is_error());
    assert!(DiagnosticCode::E009.is_error());
    assert!(!DiagnosticCode::W001.is_error());
    assert!(!DiagnosticCode::W004.is_error());
    assert_eq!(DiagnosticCode::E006.code_str(), "E006");
    assert_eq!(DiagnosticCode::W003.code_str(), "W003");
}
