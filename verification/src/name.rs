//! The payee-name extractor: the first double-quoted phrase following the
//! word `autos`, skipping the boilerplate phrases `ut-supra` and
//! `ut -supra`.

use vstd::prelude::*;
use crate::chars::spec_sentinel;
use crate::chars::sentinel_chars;
use crate::text::chars_to_string;
use crate::text::check_match_at;
use crate::text::copy_range;
use crate::text::find_char;
use crate::text::find_char_exec;
use crate::text::lemma_find_char_props;
use crate::text::matches_at;
use crate::text::skip_ws;
use crate::text::skip_ws_exec;
use crate::text::str_chars;
use crate::text::vec_eq;

verus! {

/// The quoted phrase captured by an occurrence of `autos` at `j`: at least
/// one whitespace character, an opening quote, then everything up to the
/// next quote, which must arrive before any newline.
pub open spec fn name_capture_at(t: Seq<char>, j: int) -> Option<Seq<char>> {
    if matches_at(t, "autos"@, j, false) {
        let q1 = skip_ws(t, j + "autos"@.len());
        if q1 > j + "autos"@.len() && q1 < t.len() && t[q1] == '"' {
            match find_char(t, '"', q1 + 1) {
                Some(q2) => {
                    let no_break = match find_char(t, '\n', q1 + 1) {
                        Some(nl) => nl > q2,
                        None => true,
                    };
                    if no_break {
                        Some(t.subrange(q1 + 1, q2))
                    } else {
                        None
                    }
                },
                None => None,
            }
        } else {
            None
        }
    } else {
        None
    }
}

/// Captures that are discarded rather than returned as names: the
/// boilerplate phrases, and the empty phrase, which would otherwise leave
/// the name field empty where every field must carry a value.
pub open spec fn excluded_name(cap: Seq<char>) -> bool {
    cap == "ut-supra"@ || cap == "ut -supra"@ || cap.len() == 0
}

/// The first capture at or after `from` that is not excluded.
pub open spec fn spec_find_name(t: Seq<char>, from: int) -> Option<Seq<char>>
    decreases t.len() - from,
{
    if !(0 <= from && from < t.len()) {
        None
    } else {
        match name_capture_at(t, from) {
            Some(cap) => if excluded_name(cap) {
                spec_find_name(t, from + 1)
            } else {
                Some(cap)
            },
            None => spec_find_name(t, from + 1),
        }
    }
}

/// A miss means that at every position at or after `from`, either nothing
/// is captured or the capture is excluded (boilerplate or empty).
pub proof fn lemma_find_name_none(t: Seq<char>, from: int)
    requires
        0 <= from,
        spec_find_name(t, from) is None,
    ensures
        forall|j: int|
            from <= j ==> (match #[trigger] name_capture_at(t, j) {
                Some(cap) => excluded_name(cap),
                None => true,
            }),
    decreases t.len() - from,
{
    if 0 <= from && from + 8 <= t.len() {
        lemma_find_name_none(t, from + 1);
    } else {
        assert forall|j: int|
            from <= j implies (match #[trigger] name_capture_at(t, j) {
            Some(cap) => excluded_name(cap),
            None => true,
        }) by {
            if name_capture_at(t, j) is Some {
                reveal_strlit("autos");
                crate::text::lemma_skip_ws_bounds(t, j + 5);
                crate::text::lemma_find_char_props(t, '"', skip_ws(t, j + 5) + 1);
            }
        }
    }
}

/// The name of a page: its first non-excluded quoted phrase after `autos`,
/// or the positional sentinel when there is none.
pub open spec fn spec_extract_name(t: Seq<char>, p: nat) -> Seq<char> {
    match spec_find_name(t, 0) {
        Some(c) => c,
        None => spec_sentinel(p),
    }
}

/// A found name is non-empty: empty captures are skipped as misses.
pub proof fn lemma_find_name_nonempty(t: Seq<char>, from: int)
    ensures
        match spec_find_name(t, from) {
            Some(cap) => cap.len() > 0,
            None => true,
        },
    decreases t.len() - from,
{
    if 0 <= from && from < t.len() {
        match name_capture_at(t, from) {
            Some(cap) => {
                if excluded_name(cap) {
                    lemma_find_name_nonempty(t, from + 1);
                }
            },
            None => {
                lemma_find_name_nonempty(t, from + 1);
            },
        }
    }
}

/// The name of a page is never empty: a real capture is non-empty, and a
/// miss yields the positional sentinel.
pub proof fn lemma_name_nonempty(t: Seq<char>, p: nat)
    ensures
        spec_extract_name(t, p).len() > 0,
{
    lemma_find_name_nonempty(t, 0);
    crate::chars::lemma_dec_digits_nonempty((p + 1) as nat);
}

fn name_capture_at_exec(t: &Vec<char>, j: usize, autos: &Vec<char>) -> (r: Option<(usize, usize)>)
    requires
        autos@ == "autos"@,
    ensures
        match r {
            Some(q) => {
                &&& q.0 <= q.1 <= t.len()
                &&& name_capture_at(t@, j as int) == Some(t@.subrange(q.0 as int, q.1 as int))
            },
            None => name_capture_at(t@, j as int) is None,
        },
{
    proof {
        reveal_strlit("autos");
    }
    if !check_match_at(t, autos, j, false) {
        return None;
    }
    let n = t.len();
    proof {
        assert(matches_at(t@, "autos"@, j as int, false));
        assert(j + 5 <= n);
    }
    let q1 = skip_ws_exec(t, j + 5);
    if q1 > j + 5 && q1 < t.len() && t[q1] == '"' {
        proof {
            lemma_find_char_props(t@, '"', q1 + 1);
            lemma_find_char_props(t@, '\n', q1 + 1);
        }
        match find_char_exec(t, '"', q1 + 1) {
            Some(q2) => {
                let no_break = match find_char_exec(t, '\n', q1 + 1) {
                    Some(nl) => nl > q2,
                    None => true,
                };
                if no_break {
                    Some((q1 + 1, q2))
                } else {
                    None
                }
            },
            None => None,
        }
    } else {
        None
    }
}

pub fn extract_name_chars(t: &Vec<char>, p: usize) -> (out: Vec<char>)
    requires
        p < usize::MAX,
    ensures
        out@ == spec_extract_name(t@, p as nat),
{
    let autos = str_chars("autos");
    let ut1 = str_chars("ut-supra");
    let ut2 = str_chars("ut -supra");
    let mut j: usize = 0;
    while j < t.len()
        invariant
            j <= t.len(),
            autos@ == "autos"@,
            ut1@ == "ut-supra"@,
            ut2@ == "ut -supra"@,
            spec_find_name(t@, 0) == spec_find_name(t@, j as int),
        decreases t.len() - j,
    {
        match name_capture_at_exec(t, j, &autos) {
            Some((lo, hi)) => {
                let cap = copy_range(t, lo, hi);
                if !(cap.len() == 0 || vec_eq(&cap, &ut1) || vec_eq(&cap, &ut2)) {
                    return cap;
                }
            },
            None => {},
        }
        j += 1;
    }
    sentinel_chars(p)
}

/// Extracts the payee name of a page of sanitized text, or the positional
/// sentinel `p + 1` when no quoted phrase follows `autos`.
pub fn extract_name(text: &str, p: usize) -> (out: String)
    requires
        p < usize::MAX,
    ensures
        out@ == spec_extract_name(text@, p as nat),
{
    let v = str_chars(text);
    let r = extract_name_chars(&v, p);
    chars_to_string(&r)
}

} // verus!
