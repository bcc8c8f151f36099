//! Human-readable rendering helpers for console listings.

use vstd::prelude::*;
use vstd::string::{StrSliceExecFns, StringExecFns};

use crate::text::{dec_digits, find_sub, idx_of_sub, u64_to_string};

verus! {

/// The plural suffix for a count: empty for one, `s` otherwise.
pub open spec fn plural(n: nat) -> Seq<char> {
    if n == 1 {
        Seq::<char>::empty()
    } else {
        "s"@
    }
}

/// The rendering of a checkout's age: the largest whole unit among
/// weeks, days, hours and minutes, as `(N <unit>s ago)`; under a
/// minute, `(just now)`; empty when the age is unknown.
pub open spec fn format_age_spec(age: Option<u64>) -> Seq<char> {
    match age {
        None => Seq::<char>::empty(),
        Some(secs) => {
            let mins = secs as nat / 60;
            let hours = mins / 60;
            let days = hours / 24;
            let weeks = days / 7;
            if weeks > 0 {
                "("@ + dec_digits(weeks) + " week"@ + plural(weeks) + " ago)"@
            } else if days > 0 {
                "("@ + dec_digits(days) + " day"@ + plural(days) + " ago)"@
            } else if hours > 0 {
                "("@ + dec_digits(hours) + " hour"@ + plural(hours) + " ago)"@
            } else if mins > 0 {
                "("@ + dec_digits(mins) + " minute"@ + plural(mins) + " ago)"@
            } else {
                "(just now)"@
            }
        },
    }
}

/// Renders a checkout's age per [`format_age_spec`].  The age in
/// seconds is the caller's clock observation; `None` stands for an
/// unknown or future modification time.
pub fn format_age(age: Option<u64>) -> (r: String)
    ensures
        r@ == format_age_spec(age),
{
    let secs = match age {
        None => {
            return String::new();
        },
        Some(s) => s,
    };
    let mins = secs / 60;
    let hours = mins / 60;
    let days = hours / 24;
    let weeks = days / 7;
    let (n, unit): (u64, &'static str) = if weeks > 0 {
        (weeks, " week")
    } else if days > 0 {
        (days, " day")
    } else if hours > 0 {
        (hours, " hour")
    } else if mins > 0 {
        (mins, " minute")
    } else {
        let r = String::from_str("(just now)");
        return r;
    };
    let mut s = String::from_str("(");
    s.append(u64_to_string(n).as_str());
    s.append(unit);
    if n != 1 {
        s.append("s");
    }
    s.append(" ago)");
    proof {
        assert(s@ =~= format_age_spec(age));
    }
    s
}

/// The first sentence of a description: everything before the first
/// `. `, or the whole text when it has none.
pub open spec fn first_sentence(s: Seq<char>) -> Seq<char> {
    let i = idx_of_sub(s, ". "@);
    if i + ". "@.len() <= s.len() {
        s.subrange(0, i as int)
    } else {
        s
    }
}

/// The listing form of a skill description: a placeholder when it is
/// empty; otherwise its first sentence, cut to `max_len` characters
/// with a trailing ellipsis when longer.
pub open spec fn truncate_description_spec(s: Seq<char>, max_len: nat) -> Seq<char> {
    if s.len() == 0 {
        "(no description)"@
    } else {
        let f = first_sentence(s);
        if f.len() <= max_len {
            f
        } else {
            f.subrange(
                0,
                (if max_len >= 3 {
                    (max_len - 3) as nat
                } else {
                    0nat
                }) as int,
            ) + "..."@
        }
    }
}

/// Renders a description for a listing per
/// [`truncate_description_spec`].
pub fn truncate_description(s: &str, max_len: usize) -> (r: String)
    ensures
        r@ == truncate_description_spec(s@, max_len as nat),
{
    proof {
        reveal_strlit(". ");
    }
    let slen = s.unicode_len();
    if slen == 0 {
        return String::from_str("(no description)");
    }
    let cut_end = match find_sub(s, ". ") {
        Some(i) => i,
        None => slen,
    };
    let first = s.substring_char(0, cut_end);
    proof {
        if idx_of_sub(s@, ". "@) + 2 <= s@.len() {
            assert(first@ =~= first_sentence(s@));
        } else {
            assert(first@ =~= s@);
        }
    }
    let flen = first.unicode_len();
    if flen <= max_len {
        String::from_str(first)
    } else {
        let cut = if max_len >= 3 {
            max_len - 3
        } else {
            0
        };
        let mut r = String::from_str(first.substring_char(0, cut));
        r.append("...");
        r
    }
}

} // verus!
