//! Cache directory naming and source-URL parsing.
//!
//! The cache keeps bare repository mirrors under a `db/` subdirectory
//! and working-tree checkouts under `checkouts/`, both below a git
//! cache directory that the caller resolves (from its environment or a
//! default home-relative location) and passes in as a plain string.

use vstd::prelude::*;
use vstd::string::{StrSliceExecFns, StringExecFns};

use crate::text::{
    dec_digits, digit_char, digit_str, ends_with_str, eq_ignore_case, eq_ignore_ascii, find_char,
    find_sub, idx_of, idx_of_sub, lemma_idx_of, lemma_idx_of_is, lemma_idx_of_sub_is,
    lemma_split_on_concat, lemma_split_on_len, lemma_split_on_no_sep, split_on, split_str,
    str_eq, sub_at, u64_to_string,
};

verus! {

/// The bare repositories directory under the git cache directory.
pub fn db_dir(git_dir: &str) -> (r: String)
    ensures
        r@ == git_dir@ + "/db"@,
{
    let mut s = String::from_str(git_dir);
    s.append("/db");
    s
}

/// The checkouts directory under the git cache directory.
pub fn checkouts_dir(git_dir: &str) -> (r: String)
    ensures
        r@ == git_dir@ + "/checkouts"@,
{
    let mut s = String::from_str(git_dir);
    s.append("/checkouts");
    s
}

/// The mirror entry name for a repository: `owner-repo`.
pub fn db_name(owner: &str, repo: &str) -> (r: String)
    ensures
        r@ == owner@ + "-"@ + repo@,
{
    let mut s = String::from_str(owner);
    s.append("-");
    s.append(repo);
    s
}

/// The leading part of `rev` used in checkout names: its first seven
/// characters, or all of it when it is shorter.
pub open spec fn short_rev(rev: Seq<char>) -> Seq<char> {
    if rev.len() < 7 {
        rev
    } else {
        rev.subrange(0, 7)
    }
}

/// The checkout entry name for a repository at a revision:
/// `owner-repo-<short revision>`.
pub fn checkout_name(owner: &str, repo: &str, rev: &str) -> (r: String)
    ensures
        r@ == owner@ + "-"@ + repo@ + "-"@ + short_rev(rev@),
{
    let rlen = rev.unicode_len();
    let cut = if rlen < 7 {
        rlen
    } else {
        7
    };
    let short = rev.substring_char(0, cut);
    proof {
        assert(short@ =~= short_rev(rev@));
    }
    let mut s = String::from_str(owner);
    s.append("-");
    s.append(repo);
    s.append("-");
    s.append(short);
    s
}

/// Whether an offline-mode flag value enables offline behaviour:
/// the exact string `1`, or `true` in any ASCII case.
pub fn offline_flag_enabled(value: &str) -> (r: bool)
    ensures
        r == (value@ == "1"@ || eq_ignore_case(value@, "true"@)),
{
    str_eq(value, "1") || eq_ignore_ascii(value, "true")
}

/// `s` with every trailing `.git` suffix removed.
pub open spec fn strip_git_suffix(s: Seq<char>) -> Seq<char>
    decreases s.len(),
{
    if s.len() >= 4 && s.subrange(s.len() - 4, s.len() as int) == ".git"@ {
        strip_git_suffix(s.subrange(0, s.len() - 4))
    } else {
        s
    }
}

fn strip_git(url: &str) -> (r: String)
    ensures
        r@ == strip_git_suffix(url@),
{
    let mut s = String::from_str(url);
    loop
        invariant
            strip_git_suffix(url@) == strip_git_suffix(s@),
        decreases s@.len(),
    {
        proof {
            reveal_strlit(".git");
        }
        if ends_with_str(s.as_str(), ".git") {
            let len = s.as_str().unicode_len();
            let shorter = String::from_str(s.as_str().substring_char(0, len - 4));
            proof {
                assert(shorter@ =~= s@.subrange(0, s@.len() - 4));
            }
            s = shorter;
        } else {
            return s;
        }
    }
}

/// The owner and repository parsed out of a source URL, if it has one
/// of the two accepted shapes, after stripping a trailing `.git`:
///
/// * SSH style, `user@host:owner/repo`: there is a `@` before the
///   first `:`; the part between the first and second `:` is split on
///   `/` and must give at least two segments, the first two of which
///   are owner and repository.
/// * URL style, `scheme://host/owner/repo`: the part after the first
///   `://` is split on `/` and must give at least three segments
///   (host, owner, repository); the second and third are taken.
pub open spec fn parse_spec(url: Seq<char>) -> Option<(Seq<char>, Seq<char>)> {
    let u = strip_git_suffix(url);
    if idx_of(u, '@') < idx_of(u, ':') && idx_of(u, ':') < u.len() {
        let path = split_on(u, ':')[1];
        let parts = split_on(path, '/');
        if parts.len() >= 2 {
            Some((parts[0], parts[1]))
        } else {
            None
        }
    } else {
        let n = "://"@;
        let i = idx_of_sub(u, n);
        if i + n.len() <= u.len() {
            let parts = split_on(u.subrange(i as int + n.len() as int, u.len() as int), '/');
            if parts.len() >= 3 {
                Some((parts[1], parts[2]))
            } else {
                None
            }
        } else {
            None
        }
    }
}

/// Parses the owner and repository out of a source URL, per
/// [`parse_spec`].  An unrecognised shape gives `None`, which callers
/// must handle; it is not an error.
pub fn parse_owner_repo(url: &str) -> (r: Option<(String, String)>)
    ensures
        r is Some ==> parse_spec(url@) == Some((r->Some_0.0@, r->Some_0.1@)),
        r is None ==> parse_spec(url@) is None,
{
    let stripped = strip_git(url);
    let u = stripped.as_str();
    let ulen = u.unicode_len();
    let at = find_char(u, 0, '@');
    let colon = find_char(u, 0, ':');
    proof {
        assert(u@.skip(0) =~= u@);
    }
    if at < colon && colon < ulen {
        let cparts = split_str(u, ':');
        proof {
            lemma_idx_of(u@, ':');
            crate::text::lemma_split_on_len(u@, ':');
            assert(split_on(u@, ':').len() >= 2);
            assert(cparts@.map_values(|p: String| p@).len() == cparts@.len());
            assert(cparts@.map_values(|p: String| p@)[1] == cparts@[1]@);
        }
        let path = cparts[1].as_str();
        let parts = split_str(path, '/');
        proof {
            assert(parts@.map_values(|p: String| p@).len() == parts@.len());
        }
        if parts.len() >= 2 {
            proof {
                assert(parts@.map_values(|p: String| p@)[0] == parts@[0]@);
                assert(parts@.map_values(|p: String| p@)[1] == parts@[1]@);
            }
            Some((parts[0].clone(), parts[1].clone()))
        } else {
            None
        }
    } else {
        proof {
            reveal_strlit("://");
        }
        match find_sub(u, "://") {
            Some(i) => {
                let rest = u.substring_char(i + 3, ulen);
                proof {
                    assert(rest@ =~= u@.subrange(i as int + "://"@.len() as int, u@.len() as int));
                }
                let parts = split_str(rest, '/');
                proof {
                    assert(parts@.map_values(|p: String| p@).len() == parts@.len());
                }
                if parts.len() >= 3 {
                    proof {
                        assert(parts@.map_values(|p: String| p@)[1] == parts@[1]@);
                        assert(parts@.map_values(|p: String| p@)[2] == parts@[2]@);
                    }
                    Some((parts[1].clone(), parts[2].clone()))
                } else {
                    None
                }
            },
            None => None,
        }
    }
}

proof fn lemma_strip_identity_slash_tail(prefix: Seq<char>, repo: Seq<char>)
    requires
        prefix.len() >= 1,
        prefix[prefix.len() - 1] == '/',
        !(repo.len() >= 4 && repo.subrange(repo.len() - 4, repo.len() as int) == ".git"@),
    ensures
        strip_git_suffix(prefix + repo) == prefix + repo,
{
    reveal_strlit(".git");
    let s = prefix + repo;
    if s.len() >= 4 && s.subrange(s.len() - 4, s.len() as int) == ".git"@ {
        if repo.len() >= 4 {
            assert(s.subrange(s.len() - 4, s.len() as int) =~= repo.subrange(
                repo.len() - 4,
                repo.len() as int,
            ));
            assert(false);
        } else {
            let pos = prefix.len() - 1;
            let k = pos - (s.len() - 4);
            assert(0 <= k < 4);
            assert(s[pos as int] == '/');
            assert(s.subrange(s.len() - 4, s.len() as int)[k] == s[pos as int]);
            assert(".git"@[k] != '/');
            assert(false);
        }
    }
}

proof fn lemma_strip_git_once(base: Seq<char>)
    ensures
        strip_git_suffix(base + ".git"@) == strip_git_suffix(base),
{
    reveal_strlit(".git");
    let s = base + ".git"@;
    assert(s.subrange(s.len() - 4, s.len() as int) =~= ".git"@);
    assert(s.subrange(0, s.len() - 4) =~= base);
}

/// For every URL-style source `https://host/owner/repo`, with or
/// without a trailing `.git`, parsing yields exactly the owner and
/// the repository, whenever host, owner and repository are free of
/// `/` and the repository name does not itself end in `.git`.
pub proof fn lemma_parse_url_style(host: Seq<char>, owner: Seq<char>, repo: Seq<char>)
    requires
        forall|j: int| 0 <= j < host.len() ==> host[j] != '/',
        forall|j: int| 0 <= j < owner.len() ==> owner[j] != '/',
        forall|j: int| 0 <= j < repo.len() ==> repo[j] != '/',
        !(repo.len() >= 4 && repo.subrange(repo.len() - 4, repo.len() as int) == ".git"@),
    ensures
        parse_spec("https://"@ + host + "/"@ + owner + "/"@ + repo) == Some((owner, repo)),
        parse_spec("https://"@ + host + "/"@ + owner + "/"@ + repo + ".git"@) == Some(
            (owner, repo),
        ),
{
    reveal_strlit("https://");
    reveal_strlit("/");
    reveal_strlit("://");
    reveal_strlit(".git");
    let url = "https://"@ + host + "/"@ + owner + "/"@ + repo;
    let tail = host + seq!['/'] + (owner + seq!['/'] + repo);

    // Stripping `.git` leaves the URL itself in both cases.
    let prefix = "https://"@ + host + "/"@ + owner + "/"@;
    assert(prefix + repo =~= url);
    assert(prefix[prefix.len() - 1] == '/');
    lemma_strip_identity_slash_tail(prefix, repo);
    lemma_strip_git_once(url);
    assert(strip_git_suffix(url) == url);

    // The first `:` is the one in `https://`, and no `@` precedes it.
    assert forall|j: int| 0 <= j < 5 implies url[j] != ':' by {
        assert(url[j] == "https://"@[j]);
    }
    assert(url[5] == "https://"@[5]);
    lemma_idx_of_is(url, ':', 5);
    lemma_idx_of(url, '@');
    if idx_of(url, '@') < 5 {
        assert(url[idx_of(url, '@') as int] == "https://"@[idx_of(url, '@') as int]);
        assert(false);
    }

    // The first `://` starts at index 5.
    let n = "://"@;
    assert(url.subrange(5, 8) =~= n);
    assert forall|j: int| 0 <= j < 5 implies !sub_at(url, n, j) by {
        if sub_at(url, n, j) {
            assert(url.subrange(j, j + n.len() as int)[0] == url[j]);
            assert(url[j] == "https://"@[j]);
        }
    }
    lemma_idx_of_sub_is(url, n, 5);

    // The part after `://` splits into host, owner and repository.
    assert(url.subrange(5 + n.len() as int, url.len() as int) =~= tail);
    lemma_split_on_concat(host, owner + seq!['/'] + repo, '/');
    lemma_split_on_concat(owner, repo, '/');
    lemma_split_on_no_sep(repo, '/');
    let parts = split_on(tail, '/');
    assert(parts =~= seq![host] + (seq![owner] + seq![repo]));
    assert(parts.len() == 3);
    assert(parts[1] == owner);
    assert(parts[2] == repo);
    assert(parse_spec(url) == Some((owner, repo)));

    let url2 = url + ".git"@;
    assert(strip_git_suffix(url2) == url);
    assert(parse_spec(url2) == Some((owner, repo)));
}

/// For every SSH-style source `user@host:owner/repo`, with or without
/// a trailing `.git`, parsing yields exactly the owner and the
/// repository, whenever user and host are free of `:`, owner and
/// repository are free of `:` and `/`, and the repository name does
/// not itself end in `.git`.
pub proof fn lemma_parse_ssh_style(user: Seq<char>, host: Seq<char>, owner: Seq<char>, repo: Seq<char>)
    requires
        forall|j: int| 0 <= j < user.len() ==> user[j] != ':',
        forall|j: int| 0 <= j < host.len() ==> host[j] != ':',
        forall|j: int| 0 <= j < owner.len() ==> owner[j] != ':' && owner[j] != '/',
        forall|j: int| 0 <= j < repo.len() ==> repo[j] != ':' && repo[j] != '/',
        !(repo.len() >= 4 && repo.subrange(repo.len() - 4, repo.len() as int) == ".git"@),
    ensures
        parse_spec(user + "@"@ + host + ":"@ + owner + "/"@ + repo) == Some((owner, repo)),
        parse_spec(user + "@"@ + host + ":"@ + owner + "/"@ + repo + ".git"@) == Some(
            (owner, repo),
        ),
{
    reveal_strlit("@");
    reveal_strlit(":");
    reveal_strlit("/");
    reveal_strlit(".git");
    let url = user + "@"@ + host + ":"@ + owner + "/"@ + repo;
    let bpart = user + seq!['@'] + host;
    let cpart = owner + seq!['/'] + repo;

    // Stripping `.git` leaves the URL itself in both cases.
    let prefix = user + "@"@ + host + ":"@ + owner + "/"@;
    assert(prefix + repo =~= url);
    assert(prefix[prefix.len() - 1] == '/');
    lemma_strip_identity_slash_tail(prefix, repo);
    lemma_strip_git_once(url);
    assert(strip_git_suffix(url) == url);

    // The first `:` is the separator after the host, and the `@`
    // after the user name precedes it.
    let p = user.len() + 1 + host.len();
    assert forall|j: int| 0 <= j < p implies url[j] != ':' by {
        if j < user.len() {
            assert(url[j] == user[j]);
        } else if j == user.len() {
            assert(url[j] == "@"@[0]);
        } else {
            assert(url[j] == host[j - user.len() - 1]);
        }
    }
    assert(url[p as int] == ":"@[0]);
    lemma_idx_of_is(url, ':', p as int);
    lemma_idx_of(url, '@');
    assert(url[user.len() as int] == '@');
    if idx_of(url, '@') > user.len() {
        assert(false);
    }
    assert(idx_of(url, '@') < idx_of(url, ':') && idx_of(url, ':') < url.len());

    // Splitting on `:` isolates `owner/repo`, which splits on `/`.
    assert(url =~= bpart + seq![':'] + cpart);
    assert forall|j: int| 0 <= j < bpart.len() implies bpart[j] != ':' by {
        if j < user.len() {
            assert(bpart[j] == user[j]);
        } else if j == user.len() {
            assert(bpart[j] == '@');
        } else {
            assert(bpart[j] == host[j - user.len() - 1]);
        }
    }
    lemma_split_on_concat(bpart, cpart, ':');
    assert forall|j: int| 0 <= j < cpart.len() implies cpart[j] != ':' by {
        if j < owner.len() {
            assert(cpart[j] == owner[j]);
        } else if j == owner.len() {
            assert(cpart[j] == '/');
        } else {
            assert(cpart[j] == repo[j - owner.len() - 1]);
        }
    }
    lemma_split_on_no_sep(cpart, ':');
    let cparts = split_on(url, ':');
    assert(cparts =~= seq![bpart] + seq![cpart]);
    assert(cparts[1] == cpart);

    lemma_split_on_concat(owner, repo, '/');
    lemma_split_on_no_sep(repo, '/');
    let parts = split_on(cpart, '/');
    assert(parts =~= seq![owner] + seq![repo]);
    assert(parts.len() == 2);
    assert(parts[0] == owner);
    assert(parts[1] == repo);
    assert(parse_spec(url) == Some((owner, repo)));

    let url2 = url + ".git"@;
    assert(strip_git_suffix(url2) == url);
    assert(parse_spec(url2) == Some((owner, repo)));
}

/// The whole and tenths parts of `b / u`, rounded half up to one
/// decimal place.
pub open spec fn scaled_tenths(b: nat, u: nat) -> (nat, nat)
    recommends
        u >= 2,
{
    let f = ((b % u) * 10 + u / 2) / u;
    if f == 10 {
        ((b / u + 1) as nat, 0)
    } else {
        (b / u, f)
    }
}

/// `whole.tenth` as characters.
pub open spec fn scaled_str(b: nat, u: nat) -> Seq<char>
    recommends
        u >= 2,
{
    dec_digits(scaled_tenths(b, u).0) + "."@ + seq![digit_char(scaled_tenths(b, u).1)]
}

/// The human-readable rendering of a byte count: plain bytes below
/// 1024, then binary-scaled KB, MB and GB with one decimal place,
/// rounded half up.
pub open spec fn format_size_spec(bytes: u64) -> Seq<char> {
    if bytes < 1024 {
        dec_digits(bytes as nat) + " B"@
    } else if bytes < 1048576 {
        scaled_str(bytes as nat, 1024) + " KB"@
    } else if bytes < 1073741824 {
        scaled_str(bytes as nat, 1048576) + " MB"@
    } else {
        scaled_str(bytes as nat, 1073741824) + " GB"@
    }
}

fn scaled_string(bytes: u64, unit: u64) -> (r: String)
    requires
        unit == 1024 || unit == 1048576 || unit == 1073741824,
    ensures
        r@ == scaled_str(bytes as nat, unit as nat),
{
    let mut whole = bytes / unit;
    let rem = bytes % unit;
    let mut tenth = (rem * 10 + unit / 2) / unit;
    proof {
        let b = bytes as int;
        let un = unit as int;
        let re = rem as int;
        let t = tenth as int;
        let w = whole as int;
        assert(t <= 10) by (nonlinear_arith)
            requires
                t == (re * 10 + un / 2) / un,
                0 <= re < un,
                un >= 2,
        ;
        assert(w < 0xffff_ffff_ffff_ffff) by (nonlinear_arith)
            requires
                w == b / un,
                un >= 1024,
                0 <= b <= 0xffff_ffff_ffff_ffff,
        ;
    }
    if tenth == 10 {
        whole = whole + 1;
        tenth = 0;
    }
    let mut s = u64_to_string(whole);
    s.append(".");
    s.append(digit_str(tenth));
    proof {
        assert(s@ =~= scaled_str(bytes as nat, unit as nat));
    }
    s
}

/// Renders a byte count per [`format_size_spec`].
pub fn format_size(bytes: u64) -> (r: String)
    ensures
        r@ == format_size_spec(bytes),
{
    if bytes < 1024 {
        let mut s = u64_to_string(bytes);
        s.append(" B");
        s
    } else if bytes < 1048576 {
        let mut s = scaled_string(bytes, 1024);
        s.append(" KB");
        s
    } else if bytes < 1073741824 {
        let mut s = scaled_string(bytes, 1048576);
        s.append(" MB");
        s
    } else {
        let mut s = scaled_string(bytes, 1073741824);
        s.append(" GB");
        s
    }
}

} // verus!
