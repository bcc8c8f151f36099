//! Eviction planning and accounting for cache entries.
//!
//! Which entries to remove is decided here; the removals themselves
//! are filesystem work done by the caller, which then reports back one
//! success flag per attempt (a failed removal is skipped, never
//! fatal).  The report functions turn those flags into the removed
//! count and the bytes freed.

use vstd::prelude::*;

use crate::stats::{sat64, sat_add, CachedCheckout};

verus! {

/// Whether a checkout entry is old enough to evict: its modification
/// time is known, not in the future, and its age strictly exceeds
/// `max_age_days` days.
pub open spec fn evict_qualifies(modified: Option<u64>, now: u64, max_age_days: u32) -> bool {
    match modified {
        Some(m) => m <= now && now - m > max_age_days * 86400,
        None => false,
    }
}

/// Decides age-based eviction for one entry, per [`evict_qualifies`].
pub fn should_evict(modified: &Option<u64>, now: u64, max_age_days: u32) -> (r: bool)
    ensures
        r == evict_qualifies(*modified, now, max_age_days),
{
    match modified {
        Some(m) => {
            if *m > now {
                false
            } else {
                now - *m > (max_age_days as u64) * 86400
            }
        },
        None => false,
    }
}

/// Selects the checkout entries to evict: exactly those whose age
/// strictly exceeds `max_age_days` days.  Returns their indices in
/// `entries`, in ascending order.
pub fn select_old_checkouts(entries: &Vec<CachedCheckout>, now: u64, max_age_days: u32) -> (idx:
    Vec<usize>)
    ensures
        forall|k: int| 0 <= k < idx@.len() ==> idx@[k] < entries@.len(),
        forall|k1: int, k2: int| 0 <= k1 < k2 < idx@.len() ==> idx@[k1] < idx@[k2],
        forall|k: int|
            0 <= k < idx@.len() ==> evict_qualifies(
                entries@[idx@[k] as int].modified,
                now,
                max_age_days,
            ),
        forall|j: int|
            0 <= j < entries@.len() && evict_qualifies(entries@[j].modified, now, max_age_days)
                ==> exists|k: int| 0 <= k < idx@.len() && idx@[k] == j,
{
    let mut idx: Vec<usize> = Vec::new();
    let mut j: usize = 0;
    while j < entries.len()
        invariant
            j <= entries@.len(),
            forall|k: int| 0 <= k < idx@.len() ==> idx@[k] < j,
            forall|k1: int, k2: int| 0 <= k1 < k2 < idx@.len() ==> idx@[k1] < idx@[k2],
            forall|k: int|
                0 <= k < idx@.len() ==> evict_qualifies(
                    entries@[idx@[k] as int].modified,
                    now,
                    max_age_days,
                ),
            forall|t: int|
                0 <= t < j && evict_qualifies(entries@[t].modified, now, max_age_days)
                    ==> exists|k: int| 0 <= k < idx@.len() && idx@[k] == t,
        decreases entries@.len() - j,
    {
        if should_evict(&entries[j].modified, now, max_age_days) {
            let ghost old_idx = idx@;
            idx.push(j);
            proof {
                assert forall|t: int|
                    0 <= t < j + 1 && evict_qualifies(
                        entries@[t].modified,
                        now,
                        max_age_days,
                    ) implies exists|k: int| 0 <= k < idx@.len() && idx@[k] == t by {
                    if t < j {
                        let k = choose|k: int| 0 <= k < old_idx.len() && old_idx[k] == t;
                        assert(idx@[k] == t);
                    } else {
                        assert(idx@[old_idx.len() as int] == j as usize);
                    }
                }
            }
        }
        j += 1;
    }
    idx
}

/// The number of set flags.
pub open spec fn flagged_count(f: Seq<bool>) -> int
    decreases f.len(),
{
    if f.len() == 0 {
        0
    } else {
        flagged_count(f.drop_last()) + if f.last() {
            1int
        } else {
            0int
        }
    }
}

/// The sum of the sizes whose flag is set.
pub open spec fn flagged_sum(sizes: Seq<u64>, f: Seq<bool>) -> int
    decreases f.len(),
{
    if f.len() == 0 {
        0
    } else {
        flagged_sum(sizes.drop_last(), f.drop_last()) + if f.last() {
            sizes.last() as int
        } else {
            0int
        }
    }
}

/// The sum of all sizes.
pub open spec fn sizes_sum(sizes: Seq<u64>) -> int
    decreases sizes.len(),
{
    if sizes.len() == 0 {
        0
    } else {
        sizes_sum(sizes.drop_last()) + sizes.last()
    }
}

/// Turns per-entry removal outcomes into the eviction report: how
/// many removals succeeded and how many bytes they freed (saturating
/// at `u64::MAX`).  `sizes[k]` is the size of the entry whose removal
/// was attempted `k`-th; `flags[k]` says whether that removal
/// succeeded.
pub fn eviction_report(sizes: &Vec<u64>, flags: &Vec<bool>) -> (r: (usize, u64))
    requires
        sizes@.len() == flags@.len(),
    ensures
        r.0 == flagged_count(flags@),
        r.1 as int == sat64(flagged_sum(sizes@, flags@)),
{
    let mut removed: usize = 0;
    let mut freed: u64 = 0;
    let mut k: usize = 0;
    proof {
        assert(flags@.take(0) =~= Seq::<bool>::empty());
    }
    while k < flags.len()
        invariant
            k <= flags@.len(),
            sizes@.len() == flags@.len(),
            removed <= k,
            removed == flagged_count(flags@.take(k as int)),
            freed as int == sat64(flagged_sum(sizes@.take(k as int), flags@.take(k as int))),
        decreases flags@.len() - k,
    {
        proof {
            assert(flags@.take(k as int + 1).drop_last() =~= flags@.take(k as int));
            assert(sizes@.take(k as int + 1).drop_last() =~= sizes@.take(k as int));
            assert(flags@.take(k as int + 1).last() == flags@[k as int]);
            assert(sizes@.take(k as int + 1).last() == sizes@[k as int]);
        }
        if flags[k] {
            removed += 1;
            freed = sat_add(freed, sizes[k]);
        }
        k += 1;
    }
    proof {
        assert(flags@.take(flags@.len() as int) =~= flags@);
        assert(sizes@.take(sizes@.len() as int) =~= sizes@);
    }
    (removed, freed)
}

/// Turns per-entry removal outcomes of a full eviction into its
/// report: mirrors removed, checkouts removed, and the bytes both
/// together freed (saturating at `u64::MAX`).
pub fn clean_all_report(
    repo_sizes: &Vec<u64>,
    repo_flags: &Vec<bool>,
    checkout_sizes: &Vec<u64>,
    checkout_flags: &Vec<bool>,
) -> (r: (usize, usize, u64))
    requires
        repo_sizes@.len() == repo_flags@.len(),
        checkout_sizes@.len() == checkout_flags@.len(),
    ensures
        r.0 == flagged_count(repo_flags@),
        r.1 == flagged_count(checkout_flags@),
        r.2 as int == sat64(
            sat64(flagged_sum(checkout_sizes@, checkout_flags@)) + sat64(
                flagged_sum(repo_sizes@, repo_flags@),
            ),
        ),
{
    let (checkouts_removed, checkouts_freed) = eviction_report(checkout_sizes, checkout_flags);
    let (repos_removed, repos_freed) = eviction_report(repo_sizes, repo_flags);
    let freed = sat_add(checkouts_freed, repos_freed);
    (repos_removed, checkouts_removed, freed)
}

/// When every removal succeeds, the report counts every entry and
/// sums exactly their sizes: an eviction pass over `n` entries
/// reports `n` removed and their total bytes freed.
pub proof fn lemma_full_removal_counts_all(sizes: Seq<u64>, flags: Seq<bool>)
    requires
        sizes.len() == flags.len(),
        forall|k: int| 0 <= k < flags.len() ==> flags[k],
    ensures
        flagged_count(flags) == flags.len(),
        flagged_sum(sizes, flags) == sizes_sum(sizes),
    decreases flags.len(),
{
    if flags.len() > 0 {
        lemma_full_removal_counts_all(sizes.drop_last(), flags.drop_last());
    }
}

} // verus!
