use skilo::cache::{
    checkout_name, checkouts_dir, db_dir, db_name, format_size, offline_flag_enabled,
    parse_owner_repo,
};
use skilo::display::{format_age, truncate_description};

#[test]
fn test_parse_owner_repo_https() {
    let (owner, repo) = parse_owner_repo("https://github.com/anthropics/skills.git").unwrap();
    assert_eq!(owner, "anthropics");
    assert_eq!(repo, "skills");
}

#[test]
fn test_parse_owner_repo_ssh() {
    let (owner, repo) = parse_owner_repo("git@github.com:anthropics/skills.git").unwrap();
    assert_eq!(owner, "anthropics");
    assert_eq!(repo, "skills");
}

#[test]
fn test_db_name() {
    assert_eq!(db_name("anthropics", "skills"), "anthropics-skills");
}

#[test]
fn test_checkout_name() {
    assert_eq!(
        checkout_name("anthropics", "skills", "abc1234def"),
        "anthropics-skills-abc1234"
    );
}

#[test]
fn test_format_size() {
    assert_eq!(format_size(500), "500 B");
    assert_eq!(format_size(1024), "1.0 KB");
    assert_eq!(format_size(1024 * 1024), "1.0 MB");
    assert_eq!(format_size(1024 * 1024 * 1024), "1.0 GB");
}

#[test]
fn test_format_size_rounding() {
    assert_eq!(format_size(1536), "1.5 KB");
    assert_eq!(format_size(0), "0 B");
    assert_eq!(format_size(1023), "1023 B");
    assert_eq!(format_size(10 * 1024 * 1024 + 512 * 1024), "10.5 MB");
}

#[test]
fn test_checkout_name_short_rev() {
    assert_eq!(checkout_name("anthropics", "skills", "ab"), "anthropics-skills-ab");
}

#[test]
fn test_parse_owner_repo_no_git_suffix() {
    let (owner, repo) = parse_owner_repo("https://github.com/anthropics/skills").unwrap();
    assert_eq!(owner, "anthropics");
    assert_eq!(repo, "skills");
}

#[test]
fn test_parse_owner_repo_extra_path() {
    let (owner, repo) = parse_owner_repo("https://host.example/owner/repo/sub/dir").unwrap();
    assert_eq!(owner, "owner");
    assert_eq!(repo, "repo");
}

#[test]
fn test_parse_owner_repo_ssh_other_user() {
    let (owner, repo) = parse_owner_repo("alice@code.example:team/tool.git").unwrap();
    assert_eq!(owner, "team");
    assert_eq!(repo, "tool");
}

#[test]
fn test_parse_owner_repo_rejects_other_shapes() {
    assert!(parse_owner_repo("not a url").is_none());
    assert!(parse_owner_repo("host.example:owner/repo").is_none());
    assert!(parse_owner_repo("https://host.example/only-owner").is_none());
    assert!(parse_owner_repo("git@host.example:no-slash").is_none());
    assert!(parse_owner_repo("").is_none());
}

#[test]
fn test_cache_dirs() {
    assert_eq!(db_dir("/home/u/.skilo/git"), "/home/u/.skilo/git/db");
    assert_eq!(checkouts_dir("/home/u/.skilo/git"), "/home/u/.skilo/git/checkouts");
}

#[test]
fn test_offline_flag() {
    assert!(offline_flag_enabled("1"));
    assert!(offline_flag_enabled("true"));
    assert!(offline_flag_enabled("TRUE"));
    assert!(offline_flag_enabled("True"));
    assert!(!offline_flag_enabled("0"));
    assert!(!offline_flag_enabled("yes"));
    assert!(!offline_flag_enabled(""));
}

#[test]
fn test_format_age() {
    assert_eq!(format_age(None), "");
    assert_eq!(format_age(Some(30)), "(just now)");
    assert_eq!(format_age(Some(90)), "(1 minute ago)");
    assert_eq!(format_age(Some(120)), "(2 minutes ago)");
    assert_eq!(format_age(Some(5 * 3600)), "(5 hours ago)");
    assert_eq!(format_age(Some(3 * 86400)), "(3 days ago)");
    assert_eq!(format_age(Some(7 * 86400)), "(1 week ago)");
    assert_eq!(format_age(Some(20 * 86400)), "(2 weeks ago)");
}

#[test]
fn test_truncate_description() {
    assert_eq!(truncate_description("", 50), "(no description)");
    assert_eq!(truncate_description("Short note", 50), "Short note");
    assert_eq!(truncate_description("First sentence. Second sentence.", 50), "First sentence");
    assert_eq!(truncate_description("abcdefghij", 8), "abcde...");
}
