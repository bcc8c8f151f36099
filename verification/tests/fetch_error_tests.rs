use skilo::error::SkillzError;
use skilo::fetch::{
    choose_credential, classify_clone_error, resolve_root, shallow_depth, validate_root,
    CredentialChoice, FetchError, GitSource,
};

fn source(url: &str, branch: Option<&str>, tag: Option<&str>, subdir: Option<&str>) -> GitSource {
    GitSource {
        url: url.to_string(),
        branch: branch.map(|s| s.to_string()),
        tag: tag.map(|s| s.to_string()),
        subdir: subdir.map(|s| s.to_string()),
    }
}

#[test]
fn test_reference_prefers_branch() {
    let s = source("https://h/o/r", Some("main"), Some("v1"), None);
    assert_eq!(s.reference(), Some("main".to_string()));
    let s = source("https://h/o/r", None, Some("v1"), None);
    assert_eq!(s.reference(), Some("v1".to_string()));
    let s = source("https://h/o/r", None, None, None);
    assert_eq!(s.reference(), None);
}

#[test]
fn test_shallow_depth_policy() {
    assert_eq!(shallow_depth(&None), Some(1));
    assert_eq!(shallow_depth(&Some("main".to_string())), None);
}

#[test]
fn test_credential_chain() {
    let c = choose_credential(true, true, true, Some("git".to_string()));
    assert!(matches!(c, CredentialChoice::SshAgent { ref username } if username == "git"));
    let c = choose_credential(true, true, true, None);
    assert!(matches!(c, CredentialChoice::Helper));
    let c = choose_credential(false, true, true, Some("git".to_string()));
    assert!(matches!(c, CredentialChoice::Helper));
    let c = choose_credential(false, false, true, None);
    assert!(matches!(c, CredentialChoice::Anonymous));
    let c = choose_credential(false, false, false, None);
    assert!(matches!(c, CredentialChoice::Unavailable));
}

#[test]
fn test_classify_not_found_is_repo_not_found() {
    let e = classify_clone_error(
        "https://github.com/nonexistent-owner-xyz/nonexistent-repo-xyz.git",
        "unexpected http status code: 404".to_string(),
        true,
    );
    match e {
        FetchError::RepoNotFound { url } => {
            assert_eq!(url, "https://github.com/nonexistent-owner-xyz/nonexistent-repo-xyz.git");
        },
        other => panic!("expected RepoNotFound, got {:?}", other),
    }
}

#[test]
fn test_classify_network_errors() {
    let e = classify_clone_error("u", "Could not resolve host: github.com".to_string(), false);
    assert!(matches!(e, FetchError::Network { .. }));
    let e = classify_clone_error("u", "the network is unreachable".to_string(), false);
    assert!(matches!(e, FetchError::Network { .. }));
    let e = classify_clone_error("u", "connection refused".to_string(), true);
    assert!(matches!(e, FetchError::Network { .. }));
}

#[test]
fn test_classify_other_errors_are_git() {
    let e = classify_clone_error("u", "authentication required".to_string(), false);
    match e {
        FetchError::Git { message } => assert_eq!(message, "authentication required"),
        other => panic!("expected Git, got {:?}", other),
    }
}

#[test]
fn test_resolve_root() {
    assert_eq!(resolve_root("/tmp/clone-xyz", &None), "/tmp/clone-xyz");
    assert_eq!(
        resolve_root("/tmp/clone-xyz", &Some("docs".to_string())),
        "/tmp/clone-xyz/docs"
    );
}

#[test]
fn test_validate_root_missing_subdir() {
    let r = validate_root("https://h/o/r", &Some("docs".to_string()), false);
    match r {
        Err(FetchError::InvalidSource { url, message }) => {
            assert_eq!(url, "https://h/o/r");
            assert_eq!(message, "Subdirectory 'docs' not found in repository");
        },
        other => panic!("expected InvalidSource, got {:?}", other),
    }
    assert!(validate_root("https://h/o/r", &Some("docs".to_string()), true).is_ok());
    assert!(validate_root("https://h/o/r", &None, true).is_ok());
}

#[test]
fn test_error_messages() {
    let e = SkillzError::SkillExists { name: "web".to_string(), path: "/s/web".to_string() };
    assert_eq!(e.message(), "Skill 'web' already exists at /s/web");
    assert_eq!(e.code_str(), "skilo::skill_exists");

    let e = SkillzError::InvalidName("Bad_Name".to_string());
    assert_eq!(
        e.message(),
        "Invalid skill name 'Bad_Name': must be 1-64 lowercase alphanumeric chars with single hyphens"
    );

    let e = SkillzError::NoSkillsFound { path: "/empty".to_string() };
    assert_eq!(e.message(), "No skills found in /empty");

    let e = SkillzError::Config("no home directory".to_string());
    assert_eq!(e.message(), "Configuration error: no home directory");

    let e = SkillzError::ValidationFailed(3);
    assert_eq!(e.message(), "Validation failed with 3 error(s)");
    assert_eq!(e.code_str(), "skilo::validation_failed");

    let e = SkillzError::FormatCheckFailed(1);
    assert_eq!(e.message(), "Format check failed: 1 file(s) need formatting");

    let e = SkillzError::Manifest("missing name".to_string());
    assert_eq!(e.message(), "Manifest error: missing name");

    let e = SkillzError::Io("permission denied".to_string());
    assert_eq!(e.message(), "IO error: permission denied");
    assert_eq!(e.code_str(), "skilo::io");
}
