//! Verified text utilities: decimal rendering, lexicographic ordering,
//! character and substring search, and splitting.

use vstd::prelude::*;
use vstd::string::{StrSliceExecFns, StringExecFns};

verus! {

/// The decimal digit character for `d` (0 through 9).
pub open spec fn digit_char(d: nat) -> char {
    if d == 0 {
        '0'
    } else if d == 1 {
        '1'
    } else if d == 2 {
        '2'
    } else if d == 3 {
        '3'
    } else if d == 4 {
        '4'
    } else if d == 5 {
        '5'
    } else if d == 6 {
        '6'
    } else if d == 7 {
        '7'
    } else if d == 8 {
        '8'
    } else {
        '9'
    }
}

/// The decimal representation of `n`, most significant digit first,
/// with no leading zeros (a single `'0'` for zero).
pub open spec fn dec_digits(n: nat) -> Seq<char>
    decreases n,
{
    if n < 10 {
        seq![digit_char(n)]
    } else {
        dec_digits(n / 10).push(digit_char(n % 10))
    }
}

/// The one-character string for the decimal digit `d`.
pub fn digit_str(d: u64) -> (r: &'static str)
    requires
        d < 10,
    ensures
        r@ == seq![digit_char(d as nat)],
{
    let r: &'static str = if d == 0 {
        "0"
    } else if d == 1 {
        "1"
    } else if d == 2 {
        "2"
    } else if d == 3 {
        "3"
    } else if d == 4 {
        "4"
    } else if d == 5 {
        "5"
    } else if d == 6 {
        "6"
    } else if d == 7 {
        "7"
    } else if d == 8 {
        "8"
    } else {
        "9"
    };
    proof {
        reveal_strlit("0");
        reveal_strlit("1");
        reveal_strlit("2");
        reveal_strlit("3");
        reveal_strlit("4");
        reveal_strlit("5");
        reveal_strlit("6");
        reveal_strlit("7");
        reveal_strlit("8");
        reveal_strlit("9");
        assert(r@ =~= seq![digit_char(d as nat)]);
    }
    r
}

/// Renders `n` in decimal.
pub fn u64_to_string(n: u64) -> (s: String)
    ensures
        s@ == dec_digits(n as nat),
    decreases n,
{
    if n < 10 {
        String::from_str(digit_str(n))
    } else {
        let mut s = u64_to_string(n / 10);
        s.append(digit_str(n % 10));
        proof {
            assert(s@ =~= dec_digits(n as nat));
        }
        s
    }
}

/// Lexicographic "less than or equal" on character sequences, ordering
/// characters by code point; a proper prefix comes first.
pub open spec fn lex_le(a: Seq<char>, b: Seq<char>) -> bool
    decreases a.len(),
{
    if a.len() == 0 {
        true
    } else if b.len() == 0 {
        false
    } else if a[0] == b[0] {
        lex_le(a.drop_first(), b.drop_first())
    } else {
        (a[0] as int) < (b[0] as int)
    }
}

proof fn lemma_lex_le_skip(a: Seq<char>, b: Seq<char>, i: int)
    requires
        0 <= i < a.len(),
        i < b.len(),
        a[i] == b[i],
    ensures
        lex_le(a.skip(i), b.skip(i)) == lex_le(a.skip(i + 1), b.skip(i + 1)),
{
    let sa = a.skip(i);
    let sb = b.skip(i);
    assert(sa[0] == a[i]);
    assert(sb[0] == b[i]);
    assert(sa.drop_first() =~= a.skip(i + 1));
    assert(sb.drop_first() =~= b.skip(i + 1));
}

/// `lex_le` is total: any two sequences compare one way or the other.
pub proof fn lemma_lex_le_total(a: Seq<char>, b: Seq<char>)
    ensures
        lex_le(a, b) || lex_le(b, a),
    decreases a.len(),
{
    if a.len() == 0 {
    } else if b.len() == 0 {
    } else if a[0] == b[0] {
        lemma_lex_le_total(a.drop_first(), b.drop_first());
    }
}

/// `lex_le` is transitive.
pub proof fn lemma_lex_le_trans(a: Seq<char>, b: Seq<char>, c: Seq<char>)
    requires
        lex_le(a, b),
        lex_le(b, c),
    ensures
        lex_le(a, c),
    decreases a.len(),
{
    if a.len() == 0 {
    } else if b.len() == 0 {
    } else if c.len() == 0 {
    } else if a[0] == b[0] && b[0] == c[0] {
        lemma_lex_le_trans(a.drop_first(), b.drop_first(), c.drop_first());
    }
}

/// Compares two strings in the order of `lex_le`.
pub fn str_le(a: &str, b: &str) -> (r: bool)
    ensures
        r == lex_le(a@, b@),
{
    let alen = a.unicode_len();
    let blen = b.unicode_len();
    let mut i: usize = 0;
    proof {
        assert(a@.skip(0) =~= a@);
        assert(b@.skip(0) =~= b@);
    }
    loop
        invariant
            i <= alen,
            i <= blen,
            alen == a@.len(),
            blen == b@.len(),
            lex_le(a@, b@) == lex_le(a@.skip(i as int), b@.skip(i as int)),
        decreases alen - i,
    {
        if i >= alen {
            proof {
                assert(a@.skip(i as int) =~= Seq::<char>::empty());
            }
            return true;
        }
        if i >= blen {
            proof {
                assert(b@.skip(i as int) =~= Seq::<char>::empty());
                assert(a@.skip(i as int).len() > 0);
            }
            return false;
        }
        let ca = a.get_char(i);
        let cb = b.get_char(i);
        if ca != cb {
            proof {
                assert(a@.skip(i as int)[0] == ca);
                assert(b@.skip(i as int)[0] == cb);
            }
            return (ca as u32) < (cb as u32);
        }
        proof {
            lemma_lex_le_skip(a@, b@, i as int);
        }
        i += 1;
    }
}

/// The index of the first occurrence of `c` in `s`, or `s.len()` when
/// `c` does not occur.
pub open spec fn idx_of(s: Seq<char>, c: char) -> nat
    decreases s.len(),
{
    if s.len() == 0 {
        0
    } else if s[0] == c {
        0
    } else {
        1 + idx_of(s.drop_first(), c)
    }
}

pub proof fn lemma_idx_of(s: Seq<char>, c: char)
    ensures
        idx_of(s, c) <= s.len(),
        idx_of(s, c) < s.len() ==> s[idx_of(s, c) as int] == c,
        forall|j: int| 0 <= j < idx_of(s, c) ==> s[j] != c,
    decreases s.len(),
{
    if s.len() == 0 {
    } else if s[0] == c {
    } else {
        lemma_idx_of(s.drop_first(), c);
        assert forall|j: int| 0 <= j < idx_of(s, c) implies s[j] != c by {
            if j >= 1 {
                assert(s.drop_first()[j - 1] == s[j]);
            }
        }
    }
}

pub proof fn lemma_idx_of_is(s: Seq<char>, c: char, k: int)
    requires
        0 <= k <= s.len(),
        forall|j: int| 0 <= j < k ==> s[j] != c,
        k < s.len() ==> s[k] == c,
    ensures
        idx_of(s, c) == k,
    decreases s.len(),
{
    if s.len() == 0 {
    } else if k == 0 {
    } else {
        assert(s[0] != c);
        assert forall|j: int| 0 <= j < k - 1 implies s.drop_first()[j] != c by {
            assert(s.drop_first()[j] == s[j + 1]);
        }
        if k - 1 < s.drop_first().len() {
            assert(s.drop_first()[k - 1] == s[k]);
        }
        lemma_idx_of_is(s.drop_first(), c, k - 1);
    }
}

/// Finds the first occurrence of `c` in `s` at or after `from`;
/// returns the length of `s` when there is none.
pub fn find_char(s: &str, from: usize, c: char) -> (r: usize)
    requires
        from <= s@.len(),
    ensures
        from <= r <= s@.len(),
        r - from == idx_of(s@.skip(from as int), c),
        r < s@.len() ==> s@[r as int] == c,
        forall|j: int| from <= j < r ==> s@[j] != c,
{
    let len = s.unicode_len();
    let mut i: usize = from;
    while i < len
        invariant
            from <= i <= len,
            len == s@.len(),
            forall|j: int| from <= j < i ==> s@[j] != c,
        decreases len - i,
    {
        if s.get_char(i) == c {
            proof {
                let u = s@.skip(from as int);
                assert forall|j: int| 0 <= j < i - from implies u[j] != c by {
                    assert(u[j] == s@[from + j]);
                }
                assert(u[i - from] == s@[i as int]);
                lemma_idx_of_is(u, c, i - from);
            }
            return i;
        }
        i += 1;
    }
    proof {
        let u = s@.skip(from as int);
        assert forall|j: int| 0 <= j < i - from implies u[j] != c by {
            assert(u[j] == s@[from + j]);
        }
        lemma_idx_of_is(u, c, i - from);
    }
    i
}

/// Holds when `n` occurs in `h` starting at index `i`.
pub open spec fn sub_at(h: Seq<char>, n: Seq<char>, i: int) -> bool {
    0 <= i && i + n.len() <= h.len() && h.subrange(i, i + n.len() as int) == n
}

/// The index of the first occurrence of `n` in `h`, or `h.len()` when
/// `n` does not occur.
pub open spec fn idx_of_sub(h: Seq<char>, n: Seq<char>) -> nat
    decreases h.len(),
{
    if h.len() < n.len() {
        h.len()
    } else if h.subrange(0, n.len() as int) == n {
        0
    } else if h.len() == 0 {
        0
    } else {
        1 + idx_of_sub(h.drop_first(), n)
    }
}

pub proof fn lemma_idx_of_sub(h: Seq<char>, n: Seq<char>)
    requires
        n.len() >= 1,
    ensures
        idx_of_sub(h, n) <= h.len(),
        idx_of_sub(h, n) + n.len() <= h.len() ==> sub_at(h, n, idx_of_sub(h, n) as int),
        idx_of_sub(h, n) + n.len() > h.len() ==> idx_of_sub(h, n) == h.len(),
        forall|j: int| 0 <= j < idx_of_sub(h, n) ==> !sub_at(h, n, j),
    decreases h.len(),
{
    if h.len() < n.len() {
        assert forall|j: int| 0 <= j < idx_of_sub(h, n) implies !sub_at(h, n, j) by {}
    } else if h.subrange(0, n.len() as int) == n {
    } else {
        assert(h.len() > 0);
        lemma_idx_of_sub(h.drop_first(), n);
        let d = h.drop_first();
        assert forall|j: int| 0 <= j < idx_of_sub(h, n) implies !sub_at(h, n, j) by {
            if j == 0 {
                assert(h.subrange(0, n.len() as int) != n);
            } else {
                assert(!sub_at(d, n, j - 1));
                if sub_at(h, n, j) {
                    assert(h.subrange(j, j + n.len() as int) =~= d.subrange(
                        j - 1,
                        j - 1 + n.len() as int,
                    ));
                    assert(sub_at(d, n, j - 1));
                }
            }
        }
        let k = idx_of_sub(d, n);
        if k + n.len() <= d.len() {
            assert(sub_at(d, n, k as int));
            assert(d.subrange(k as int, k + n.len() as int) =~= h.subrange(
                k as int + 1,
                k + 1 + n.len() as int,
            ));
            assert(sub_at(h, n, idx_of_sub(h, n) as int));
        }
    }
}

pub proof fn lemma_idx_of_sub_is(h: Seq<char>, n: Seq<char>, i: int)
    requires
        n.len() >= 1,
        0 <= i <= h.len(),
        forall|j: int| 0 <= j < i ==> !sub_at(h, n, j),
        sub_at(h, n, i) || (i == h.len() && forall|j: int| !sub_at(h, n, j)),
    ensures
        idx_of_sub(h, n) == i,
{
    lemma_idx_of_sub(h, n);
    let k = idx_of_sub(h, n);
    if k < i {
        assert(k < h.len());
        assert(k + n.len() <= h.len() ==> sub_at(h, n, k as int));
        if k + n.len() > h.len() {
            assert(k == h.len());
        }
        assert(sub_at(h, n, k as int));
        assert(false);
    } else if i < k {
        assert(!sub_at(h, n, i));
        assert(i == h.len());
        assert(false);
    }
}

fn match_at(h: &str, n: &str, i: usize, hlen: usize, nlen: usize) -> (r: bool)
    requires
        hlen == h@.len(),
        nlen == n@.len(),
        i + nlen <= hlen,
    ensures
        r == sub_at(h@, n@, i as int),
{
    let mut k: usize = 0;
    loop
        invariant
            k <= nlen,
            hlen == h@.len(),
            nlen == n@.len(),
            i + nlen <= hlen,
            forall|t: int| 0 <= t < k ==> h@[i + t] == n@[t],
        decreases nlen - k,
    {
        if k >= nlen {
            proof {
                assert(h@.subrange(i as int, i + nlen as int) =~= n@);
            }
            return true;
        }
        if h.get_char(i + k) != n.get_char(k) {
            proof {
                if sub_at(h@, n@, i as int) {
                    assert(h@.subrange(i as int, i + n@.len() as int)[k as int] == h@[i + k]);
                }
            }
            return false;
        }
        k += 1;
    }
}

/// Finds the first occurrence of `n` in `h`.
pub fn find_sub(h: &str, n: &str) -> (r: Option<usize>)
    requires
        n@.len() >= 1,
    ensures
        match r {
            Some(i) => i == idx_of_sub(h@, n@) && sub_at(h@, n@, i as int),
            None => idx_of_sub(h@, n@) == h@.len() && (forall|j: int| !sub_at(h@, n@, j)),
        },
{
    let hlen = h.unicode_len();
    let nlen = n.unicode_len();
    if nlen > hlen {
        proof {
            assert forall|j: int| !sub_at(h@, n@, j) by {}
            lemma_idx_of_sub_is(h@, n@, hlen as int);
        }
        return None;
    }
    let mut i: usize = 0;
    while i <= hlen - nlen
        invariant
            i <= hlen,
            nlen <= hlen,
            hlen == h@.len(),
            nlen == n@.len(),
            nlen >= 1,
            forall|j: int| 0 <= j < i ==> !sub_at(h@, n@, j),
        decreases hlen - i,
    {
        if match_at(h, n, i, hlen, nlen) {
            proof {
                lemma_idx_of_sub_is(h@, n@, i as int);
            }
            return Some(i);
        }
        i += 1;
    }
    proof {
        assert forall|j: int| !sub_at(h@, n@, j) by {
            if 0 <= j < i {
            } else if j >= i {
                assert(j + n@.len() > h@.len());
            }
        }
        lemma_idx_of_sub_is(h@, n@, hlen as int);
    }
    None
}

/// Whether `n` occurs anywhere in `h`.
pub fn str_contains(h: &str, n: &str) -> (r: bool)
    requires
        n@.len() >= 1,
    ensures
        r == exists|j: int| sub_at(h@, n@, j),
{
    match find_sub(h, n) {
        Some(i) => {
            proof {
                assert(sub_at(h@, n@, i as int));
            }
            true
        },
        None => false,
    }
}

/// Whether `s` ends with `suffix`.
pub fn ends_with_str(s: &str, suffix: &str) -> (r: bool)
    ensures
        r == (s@.len() >= suffix@.len() && s@.subrange(
            s@.len() - suffix@.len(),
            s@.len() as int,
        ) == suffix@),
{
    let slen = s.unicode_len();
    let xlen = suffix.unicode_len();
    if slen < xlen {
        return false;
    }
    let base = slen - xlen;
    let mut k: usize = 0;
    loop
        invariant
            k <= xlen,
            slen == s@.len(),
            xlen == suffix@.len(),
            base == slen - xlen,
            forall|t: int| 0 <= t < k ==> s@[base + t] == suffix@[t],
        decreases xlen - k,
    {
        if k >= xlen {
            proof {
                assert(s@.subrange(s@.len() - suffix@.len(), s@.len() as int) =~= suffix@);
            }
            return true;
        }
        if s.get_char(base + k) != suffix.get_char(k) {
            proof {
                if s@.subrange(s@.len() - suffix@.len(), s@.len() as int) == suffix@ {
                    assert(s@.subrange(s@.len() - suffix@.len(), s@.len() as int)[k as int]
                        == s@[base + k]);
                }
            }
            return false;
        }
        k += 1;
    }
}

/// Whether two string slices hold the same characters.
pub fn str_eq(a: &str, b: &str) -> (r: bool)
    ensures
        r == (a@ == b@),
{
    let alen = a.unicode_len();
    let blen = b.unicode_len();
    if alen != blen {
        return false;
    }
    let mut k: usize = 0;
    loop
        invariant
            k <= alen,
            alen == a@.len(),
            blen == b@.len(),
            alen == blen,
            forall|t: int| 0 <= t < k ==> a@[t] == b@[t],
        decreases alen - k,
    {
        if k >= alen {
            proof {
                assert(a@ =~= b@);
            }
            return true;
        }
        if a.get_char(k) != b.get_char(k) {
            return false;
        }
        k += 1;
    }
}

/// The code point of `c`, with ASCII upper-case letters folded to
/// lower case.
pub open spec fn lower_code(c: char) -> int {
    if 65 <= c as int && c as int <= 90 {
        c as int + 32
    } else {
        c as int
    }
}

/// Equality of character sequences up to ASCII case.
pub open spec fn eq_ignore_case(a: Seq<char>, b: Seq<char>) -> bool {
    a.len() == b.len() && forall|i: int| 0 <= i < a.len() ==> lower_code(a[i]) == lower_code(b[i])
}

/// Whether two string slices are equal up to ASCII case.
pub fn eq_ignore_ascii(a: &str, b: &str) -> (r: bool)
    ensures
        r == eq_ignore_case(a@, b@),
{
    let alen = a.unicode_len();
    let blen = b.unicode_len();
    if alen != blen {
        return false;
    }
    let mut k: usize = 0;
    loop
        invariant
            k <= alen,
            alen == a@.len(),
            blen == b@.len(),
            alen == blen,
            forall|t: int| 0 <= t < k ==> lower_code(a@[t]) == lower_code(b@[t]),
        decreases alen - k,
    {
        if k >= alen {
            return true;
        }
        let ca = a.get_char(k) as u32;
        let cb = b.get_char(k) as u32;
        let la = if 65 <= ca && ca <= 90 {
            ca + 32
        } else {
            ca
        };
        let lb = if 65 <= cb && cb <= 90 {
            cb + 32
        } else {
            cb
        };
        if la != lb {
            return false;
        }
        k += 1;
    }
}

/// The splitting of `s` on the separator `c`: the pieces between
/// occurrences of `c`, in order, empty pieces included.
pub open spec fn split_on(s: Seq<char>, c: char) -> Seq<Seq<char>>
    decreases s.len(),
{
    let i = idx_of(s, c);
    if i >= s.len() {
        seq![s]
    } else {
        seq![s.subrange(0, i as int)] + split_on(s.subrange(i as int + 1, s.len() as int), c)
    }
}

pub proof fn lemma_split_on_len(s: Seq<char>, c: char)
    ensures
        split_on(s, c).len() >= 1,
        idx_of(s, c) < s.len() ==> split_on(s, c).len() >= 2,
    decreases s.len(),
{
    lemma_idx_of(s, c);
    let i = idx_of(s, c);
    if i < s.len() {
        lemma_split_on_len(s.subrange(i as int + 1, s.len() as int), c);
    }
}

/// A sequence without the separator splits into itself alone.
pub proof fn lemma_split_on_no_sep(s: Seq<char>, c: char)
    requires
        forall|j: int| 0 <= j < s.len() ==> s[j] != c,
    ensures
        split_on(s, c) == seq![s],
{
    lemma_idx_of_is(s, c, s.len() as int);
}

/// Splitting distributes over one leading separator-free piece.
pub proof fn lemma_split_on_concat(a: Seq<char>, b: Seq<char>, c: char)
    requires
        forall|j: int| 0 <= j < a.len() ==> a[j] != c,
    ensures
        split_on(a + seq![c] + b, c) == seq![a] + split_on(b, c),
{
    let s = a + seq![c] + b;
    assert forall|j: int| 0 <= j < a.len() implies s[j] != c by {
        assert(s[j] == a[j]);
    }
    assert(s[a.len() as int] == c);
    lemma_idx_of_is(s, c, a.len() as int);
    assert(s.subrange(0, a.len() as int) =~= a);
    assert(s.subrange(a.len() as int + 1, s.len() as int) =~= b);
}

/// Splits `s` on the separator `c`.
pub fn split_str(s: &str, c: char) -> (parts: Vec<String>)
    ensures
        parts@.map_values(|p: String| p@) == split_on(s@, c),
{
    let len = s.unicode_len();
    let mut parts: Vec<String> = Vec::new();
    let mut pos: usize = 0;
    proof {
        assert(s@.skip(0) =~= s@);
        assert(parts@.map_values(|p: String| p@) =~= Seq::<Seq<char>>::empty());
        assert(Seq::<Seq<char>>::empty() + split_on(s@, c) =~= split_on(s@, c));
    }
    loop
        invariant
            pos <= len,
            len == s@.len(),
            split_on(s@, c) == parts@.map_values(|p: String| p@) + split_on(
                s@.skip(pos as int),
                c,
            ),
        decreases len - pos,
    {
        let i = find_char(s, pos, c);
        let piece = String::from_str(s.substring_char(pos, i));
        proof {
            let u = s@.skip(pos as int);
            lemma_idx_of(u, c);
            assert(idx_of(u, c) == i - pos);
            assert(u.subrange(0, i - pos) =~= s@.subrange(pos as int, i as int));
            if i < len {
                assert(u.subrange(i - pos + 1, u.len() as int) =~= s@.skip(i + 1));
                assert(split_on(u, c) == seq![piece@] + split_on(s@.skip(i + 1), c));
            } else {
                assert(u =~= s@.subrange(pos as int, i as int));
                assert(split_on(u, c) == seq![piece@]);
            }
        }
        let ghost old_parts = parts@;
        parts.push(piece);
        proof {
            assert(parts@.map_values(|p: String| p@) =~= old_parts.map_values(|p: String| p@)
                + seq![piece@]);
        }
        if i >= len {
            proof {
                assert(split_on(s@, c) =~= parts@.map_values(|p: String| p@));
            }
            return parts;
        }
        pos = i + 1;
    }
}

} // verus!

