//! Cache statistics: the snapshot of mirror and checkout entries with
//! their sizes, sorted by name for deterministic display.
//!
//! Enumerating the cache directories and measuring entry sizes is
//! filesystem work done by the caller; the snapshot is assembled here
//! from the entries it hands in.

use vstd::prelude::*;

use crate::text::{lemma_lex_le_total, lemma_lex_le_trans, lex_le, str_le};

verus! {

broadcast use vstd::seq_lib::group_to_multiset_ensures;

/// A mirror entry found under `db/`.
#[derive(Debug, Clone)]
pub struct CachedRepo {
    /// Entry name, in `owner-repo` form.
    pub name: String,
    /// Path of the bare repository.
    pub path: String,
    /// Recursive size in bytes.
    pub size: u64,
}

/// A checkout entry found under `checkouts/`.
#[derive(Debug, Clone)]
pub struct CachedCheckout {
    /// Entry name, in `owner-repo-shortrev` form.
    pub name: String,
    /// Path of the checkout.
    pub path: String,
    /// Recursive size in bytes.
    pub size: u64,
    /// Modification time, as seconds since the epoch, when known.
    pub modified: Option<u64>,
}

/// The sum of the `size` fields of a sequence of mirror entries.
pub open spec fn repo_sizes_sum(s: Seq<CachedRepo>) -> int
    decreases s.len(),
{
    if s.len() == 0 {
        0
    } else {
        repo_sizes_sum(s.drop_last()) + s.last().size
    }
}

/// The sum of the `size` fields of a sequence of checkout entries.
pub open spec fn checkout_sizes_sum(s: Seq<CachedCheckout>) -> int
    decreases s.len(),
{
    if s.len() == 0 {
        0
    } else {
        checkout_sizes_sum(s.drop_last()) + s.last().size
    }
}

/// `x` clamped to the range of `u64`.
pub open spec fn sat64(x: int) -> int {
    if x > 0xffff_ffff_ffff_ffff {
        0xffff_ffff_ffff_ffff
    } else {
        x
    }
}

/// Adds with saturation at `u64::MAX`.
pub fn sat_add(a: u64, b: u64) -> (r: u64)
    ensures
        r as int == sat64(a + b),
{
    if b > u64::MAX - a {
        u64::MAX
    } else {
        a + b
    }
}

/// Mirror entries in ascending name order.
pub open spec fn repos_sorted(s: Seq<CachedRepo>) -> bool {
    forall|i: int, j: int| 0 <= i < j < s.len() ==> lex_le(s[i].name@, s[j].name@)
}

/// Checkout entries in ascending name order.
pub open spec fn checkouts_sorted(s: Seq<CachedCheckout>) -> bool {
    forall|i: int, j: int| 0 <= i < j < s.len() ==> lex_le(s[i].name@, s[j].name@)
}

fn sort_repos(v: Vec<CachedRepo>) -> (r: Vec<CachedRepo>)
    ensures
        repos_sorted(r@),
        r@.to_multiset() == v@.to_multiset(),
{
    let mut src = v;
    let mut out: Vec<CachedRepo> = Vec::new();
    loop
        invariant
            out@.to_multiset().add(src@.to_multiset()) == v@.to_multiset(),
            repos_sorted(out@),
            forall|i: int, j: int|
                0 <= i < out@.len() && 0 <= j < src@.len() ==> lex_le(
                    out@[i].name@,
                    src@[j].name@,
                ),
        decreases src@.len(),
    {
        if src.len() == 0 {
            proof {
                assert(out@.to_multiset() =~= v@.to_multiset());
            }
            return out;
        }
        let mut m: usize = 0;
        let mut k: usize = 1;
        proof {
            lemma_lex_le_total(src@[0].name@, src@[0].name@);
        }
        while k < src.len()
            invariant
                m < k,
                k <= src@.len(),
                forall|t: int| 0 <= t < k ==> lex_le(src@[m as int].name@, src@[t].name@),
            decreases src@.len() - k,
        {
            if str_le(src[k].name.as_str(), src[m].name.as_str()) {
                proof {
                    assert forall|t: int| 0 <= t < k + 1 implies lex_le(
                        src@[k as int].name@,
                        src@[t].name@,
                    ) by {
                        lemma_lex_le_total(src@[k as int].name@, src@[k as int].name@);
                        if t < k {
                            lemma_lex_le_trans(src@[k as int].name@, src@[m as int].name@,
                                src@[t].name@);
                        }
                    }
                }
                m = k;
            } else {
                proof {
                    lemma_lex_le_total(src@[k as int].name@, src@[m as int].name@);
                }
            }
            k += 1;
        }
        let ghost pre = src@;
        let x = src.remove(m);
        proof {
            assert(out@.push(x).to_multiset().add(src@.to_multiset()) =~= v@.to_multiset());
            assert forall|i: int, j: int|
                0 <= i < out@.push(x).len() && 0 <= j < src@.len() implies lex_le(
                out@.push(x)[i].name@,
                src@[j].name@,
            ) by {
                let e = if j < m { pre[j] } else { pre[j + 1] };
                assert(src@[j] == e);
                if i < out@.len() {
                    assert(lex_le(out@[i].name@, e.name@));
                } else {
                    assert(lex_le(x.name@, e.name@));
                }
            }
            assert(repos_sorted(out@.push(x)));
        }
        out.push(x);
    }
}

fn sort_checkouts(v: Vec<CachedCheckout>) -> (r: Vec<CachedCheckout>)
    ensures
        checkouts_sorted(r@),
        r@.to_multiset() == v@.to_multiset(),
{
    let mut src = v;
    let mut out: Vec<CachedCheckout> = Vec::new();
    loop
        invariant
            out@.to_multiset().add(src@.to_multiset()) == v@.to_multiset(),
            checkouts_sorted(out@),
            forall|i: int, j: int|
                0 <= i < out@.len() && 0 <= j < src@.len() ==> lex_le(
                    out@[i].name@,
                    src@[j].name@,
                ),
        decreases src@.len(),
    {
        if src.len() == 0 {
            proof {
                assert(out@.to_multiset() =~= v@.to_multiset());
            }
            return out;
        }
        let mut m: usize = 0;
        let mut k: usize = 1;
        proof {
            lemma_lex_le_total(src@[0].name@, src@[0].name@);
        }
        while k < src.len()
            invariant
                m < k,
                k <= src@.len(),
                forall|t: int| 0 <= t < k ==> lex_le(src@[m as int].name@, src@[t].name@),
            decreases src@.len() - k,
        {
            if str_le(src[k].name.as_str(), src[m].name.as_str()) {
                proof {
                    assert forall|t: int| 0 <= t < k + 1 implies lex_le(
                        src@[k as int].name@,
                        src@[t].name@,
                    ) by {
                        lemma_lex_le_total(src@[k as int].name@, src@[k as int].name@);
                        if t < k {
                            lemma_lex_le_trans(src@[k as int].name@, src@[m as int].name@,
                                src@[t].name@);
                        }
                    }
                }
                m = k;
            } else {
                proof {
                    lemma_lex_le_total(src@[k as int].name@, src@[m as int].name@);
                }
            }
            k += 1;
        }
        let ghost pre = src@;
        let x = src.remove(m);
        proof {
            assert(out@.push(x).to_multiset().add(src@.to_multiset()) =~= v@.to_multiset());
            assert forall|i: int, j: int|
                0 <= i < out@.push(x).len() && 0 <= j < src@.len() implies lex_le(
                out@.push(x)[i].name@,
                src@[j].name@,
            ) by {
                let e = if j < m { pre[j] } else { pre[j + 1] };
                assert(src@[j] == e);
                if i < out@.len() {
                    assert(lex_le(out@[i].name@, e.name@));
                } else {
                    assert(lex_le(x.name@, e.name@));
                }
            }
            assert(checkouts_sorted(out@.push(x)));
        }
        out.push(x);
    }
}

fn sum_repo_sizes(v: &Vec<CachedRepo>) -> (r: u64)
    ensures
        r as int == sat64(repo_sizes_sum(v@)),
{
    let mut acc: u64 = 0;
    let mut i: usize = 0;
    proof {
        assert(v@.take(0) =~= Seq::<CachedRepo>::empty());
    }
    while i < v.len()
        invariant
            i <= v@.len(),
            acc as int == sat64(repo_sizes_sum(v@.take(i as int))),
        decreases v@.len() - i,
    {
        proof {
            assert(v@.take(i as int + 1).drop_last() =~= v@.take(i as int));
            assert(v@.take(i as int + 1).last() == v@[i as int]);
        }
        acc = sat_add(acc, v[i].size);
        i += 1;
    }
    proof {
        assert(v@.take(v@.len() as int) =~= v@);
    }
    acc
}

fn sum_checkout_sizes(v: &Vec<CachedCheckout>) -> (r: u64)
    ensures
        r as int == sat64(checkout_sizes_sum(v@)),
{
    let mut acc: u64 = 0;
    let mut i: usize = 0;
    proof {
        assert(v@.take(0) =~= Seq::<CachedCheckout>::empty());
    }
    while i < v.len()
        invariant
            i <= v@.len(),
            acc as int == sat64(checkout_sizes_sum(v@.take(i as int))),
        decreases v@.len() - i,
    {
        proof {
            assert(v@.take(i as int + 1).drop_last() =~= v@.take(i as int));
            assert(v@.take(i as int + 1).last() == v@[i as int]);
        }
        acc = sat_add(acc, v[i].size);
        i += 1;
    }
    proof {
        assert(v@.take(v@.len() as int) =~= v@);
    }
    acc
}

/// A snapshot of the cache: mirror and checkout entries, each list
/// sorted by name, with per-section total sizes.
#[derive(Debug)]
pub struct CacheStats {
    /// Mirror entries under `db/`, sorted by name.
    pub repos: Vec<CachedRepo>,
    /// Checkout entries under `checkouts/`, sorted by name.
    pub checkouts: Vec<CachedCheckout>,
    /// Total size of `db/` in bytes, saturating at `u64::MAX`.
    pub db_size: u64,
    /// Total size of `checkouts/` in bytes, saturating at `u64::MAX`.
    pub checkouts_size: u64,
}

impl CacheStats {
    /// Assembles the snapshot from the entries enumerated under the
    /// two cache directories: sorts each list by name and sums the
    /// sizes.  Empty input lists (an empty or absent cache) give an
    /// empty snapshot with zero totals.
    pub fn collect(repos: Vec<CachedRepo>, checkouts: Vec<CachedCheckout>) -> (r: CacheStats)
        ensures
            repos_sorted(r.repos@),
            r.repos@.to_multiset() == repos@.to_multiset(),
            r.repos@.len() == repos@.len(),
            checkouts_sorted(r.checkouts@),
            r.checkouts@.to_multiset() == checkouts@.to_multiset(),
            r.checkouts@.len() == checkouts@.len(),
            r.db_size as int == sat64(repo_sizes_sum(repos@)),
            r.checkouts_size as int == sat64(checkout_sizes_sum(checkouts@)),
    {
        let db_size = sum_repo_sizes(&repos);
        let checkouts_size = sum_checkout_sizes(&checkouts);
        let ghost repos0 = repos@;
        let ghost checkouts0 = checkouts@;
        let sorted_repos = sort_repos(repos);
        let sorted_checkouts = sort_checkouts(checkouts);
        proof {
            assert(sorted_repos@.to_multiset().len() == sorted_repos@.len());
            assert(repos0.to_multiset().len() == repos0.len());
            assert(sorted_checkouts@.to_multiset().len() == sorted_checkouts@.len());
            assert(checkouts0.to_multiset().len() == checkouts0.len());
        }
        CacheStats { repos: sorted_repos, checkouts: sorted_checkouts, db_size, checkouts_size }
    }

    /// The total cache size: both sections together, saturating at
    /// `u64::MAX`.
    pub fn total_size(&self) -> (r: u64)
        ensures
            r as int == sat64(self.db_size + self.checkouts_size),
    {
        sat_add(self.db_size, self.checkouts_size)
    }
}

} // verus!
