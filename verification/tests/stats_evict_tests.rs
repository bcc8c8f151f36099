use skilo::evict::{clean_all_report, eviction_report, select_old_checkouts, should_evict};
use skilo::stats::{CacheStats, CachedCheckout, CachedRepo};

fn repo(name: &str, size: u64) -> CachedRepo {
    CachedRepo { name: name.to_string(), path: format!("/cache/db/{}", name), size }
}

fn checkout(name: &str, size: u64, modified: Option<u64>) -> CachedCheckout {
    CachedCheckout {
        name: name.to_string(),
        path: format!("/cache/checkouts/{}", name),
        size,
        modified,
    }
}

#[test]
fn test_collect_empty_cache() {
    let stats = CacheStats::collect(Vec::new(), Vec::new());
    assert_eq!(stats.repos.len(), 0);
    assert_eq!(stats.checkouts.len(), 0);
    assert_eq!(stats.db_size, 0);
    assert_eq!(stats.checkouts_size, 0);
    assert_eq!(stats.total_size(), 0);
}

#[test]
fn test_collect_sorts_and_sums() {
    let repos = vec![repo("zeta-z", 300), repo("alpha-a", 100), repo("mid-m", 200)];
    let checkouts = vec![
        checkout("b-r-2222222", 20, Some(1000)),
        checkout("a-r-1111111", 10, Some(2000)),
    ];
    let stats = CacheStats::collect(repos, checkouts);
    assert_eq!(stats.repos.len(), 3);
    assert_eq!(stats.repos[0].name, "alpha-a");
    assert_eq!(stats.repos[1].name, "mid-m");
    assert_eq!(stats.repos[2].name, "zeta-z");
    assert_eq!(stats.db_size, 600);
    assert_eq!(stats.checkouts.len(), 2);
    assert_eq!(stats.checkouts[0].name, "a-r-1111111");
    assert_eq!(stats.checkouts[1].name, "b-r-2222222");
    assert_eq!(stats.checkouts_size, 30);
    assert_eq!(stats.total_size(), 630);
}

#[test]
fn test_should_evict() {
    let now: u64 = 100 * 86400;
    // age 40 days, limit 30 days: evict
    assert!(should_evict(&Some(60 * 86400), now, 30));
    // age 10 days, limit 30 days: keep
    assert!(!should_evict(&Some(90 * 86400), now, 30));
    // age exactly 30 days: not strictly older, keep
    assert!(!should_evict(&Some(70 * 86400), now, 30));
    // unknown modification time: keep
    assert!(!should_evict(&None, now, 30));
    // modified in the future: keep
    assert!(!should_evict(&Some(now + 5), now, 30));
}

#[test]
fn test_select_old_checkouts_exact() {
    let now: u64 = 100 * 86400;
    let entries = vec![
        checkout("fresh-r-1111111", 10, Some(95 * 86400)),
        checkout("stale-r-2222222", 20, Some(50 * 86400)),
        checkout("unknown-r-3333333", 30, None),
        checkout("old-r-4444444", 40, Some(1)),
    ];
    let idx = select_old_checkouts(&entries, now, 30);
    assert_eq!(idx, vec![1, 3]);
}

#[test]
fn test_eviction_report_counts_successes_only() {
    let sizes = vec![20u64, 40u64];
    let flags = vec![true, false];
    let (removed, freed) = eviction_report(&sizes, &flags);
    assert_eq!(removed, 1);
    assert_eq!(freed, 20);

    let all = vec![true, true];
    let (removed_all, freed_all) = eviction_report(&sizes, &all);
    assert_eq!(removed_all, 2);
    assert_eq!(freed_all, 60);

    let (removed_none, freed_none) = eviction_report(&Vec::new(), &Vec::new());
    assert_eq!(removed_none, 0);
    assert_eq!(freed_none, 0);
}

#[test]
fn test_clean_all_report_counts_everything() {
    let repo_sizes = vec![100u64, 200u64];
    let repo_flags = vec![true, true];
    let checkout_sizes = vec![10u64, 20u64, 30u64];
    let checkout_flags = vec![true, true, true];
    let (repos_removed, checkouts_removed, freed) =
        clean_all_report(&repo_sizes, &repo_flags, &checkout_sizes, &checkout_flags);
    assert_eq!(repos_removed, 2);
    assert_eq!(checkouts_removed, 3);
    assert_eq!(freed, 360);
}
