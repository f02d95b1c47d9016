//! The payment-id extractor: check numbers (`CH`), treasury transfer ids
//! (`ITB`) and internal transfer ids (`MEP`), recognized on a copy of the
//! page text stripped of dots, dashes and spaces.

use vstd::prelude::*;
use crate::chars::is_digit_char;
use crate::chars::spec_sentinel;
use crate::chars::sentinel_chars;
use crate::chars::check_digit;
use crate::text::chars_to_string;
use crate::text::check_match_at;
use crate::text::contains_pat;
use crate::text::contains_pat_exec;
use crate::text::copy_range;
use crate::text::digit_run_len;
use crate::text::digit_run_len_exec;
use crate::text::lemma_digit_run_bounds;
use crate::text::matches_at;
use crate::text::push_all;
use crate::text::remove_chars;
use crate::text::spec_remove;
use crate::text::str_chars;

verus! {

/// Leftmost position at or after `from` where `prefix` occurs immediately
/// followed by at least one ASCII digit, paired with the length of the full
/// digit run after the prefix.
pub open spec fn find_prefix_digits(t: Seq<char>, prefix: Seq<char>, from: int) -> Option<
    (int, int),
>
    decreases t.len() - from,
{
    if !(0 <= from && from + prefix.len() + 1 <= t.len()) {
        None
    } else if matches_at(t, prefix, from, false) && is_digit_char(t[from + prefix.len()]) {
        Some((from, digit_run_len(t, from + prefix.len())))
    } else {
        find_prefix_digits(t, prefix, from + 1)
    }
}

pub proof fn lemma_find_prefix_digits_props(t: Seq<char>, prefix: Seq<char>, from: int)
    requires
        0 <= from,
    ensures
        match find_prefix_digits(t, prefix, from) {
            Some(jd) => {
                &&& from <= jd.0
                &&& matches_at(t, prefix, jd.0, false)
                &&& jd.1 >= 1
                &&& jd.0 + prefix.len() + jd.1 <= t.len()
                &&& forall|k: int|
                    jd.0 + prefix.len() <= k < jd.0 + prefix.len() + jd.1 ==> is_digit_char(t[k])
            },
            None => forall|j: int|
                from <= j ==> !(matches_at(t, prefix, j, false) && j + prefix.len() < t.len()
                    && is_digit_char(#[trigger] t[j + prefix.len()])),
        },
    decreases t.len() - from,
{
    if 0 <= from && from + prefix.len() + 1 <= t.len() {
        if matches_at(t, prefix, from, false) && is_digit_char(t[from + prefix.len()]) {
            lemma_digit_run_bounds(t, from + prefix.len() as int);
            lemma_digit_run_bounds(t, from + prefix.len() + 1);
        } else {
            lemma_find_prefix_digits_props(t, prefix, from + 1);
        }
    }
}

pub fn find_prefix_digits_exec(t: &Vec<char>, prefix: &Vec<char>) -> (r: Option<(usize, usize)>)
    requires
        prefix.len() >= 1,
    ensures
        match r {
            Some(jd) => find_prefix_digits(t@, prefix@, 0) == Some((jd.0 as int, jd.1 as int)),
            None => find_prefix_digits(t@, prefix@, 0) is None,
        },
{
    if t.len() <= prefix.len() {
        return None;
    }
    let last = t.len() - prefix.len() - 1;
    let mut j: usize = 0;
    while j <= last
        invariant
            j <= last + 1,
            last == t.len() - prefix.len() - 1,
            prefix.len() + 1 <= t.len(),
            find_prefix_digits(t@, prefix@, 0) == find_prefix_digits(t@, prefix@, j as int),
        decreases last + 1 - j,
    {
        if check_match_at(t, prefix, j, false) && check_digit(t[j + prefix.len()]) {
            let d = digit_run_len_exec(t, j + prefix.len());
            return Some((j, d));
        }
        j += 1;
    }
    None
}

/// The `CH` check-number result of the first cheque marker whose digit run
/// has at least eight digits: `"CH "` followed by the first eight digits.
pub open spec fn cheque_alt_result(s: Seq<char>) -> Option<Seq<char>> {
    match find_prefix_digits(s, "ChequeN\u{b0}"@, 0) {
        Some(jd) => if jd.1 >= 8 {
            Some(
                "CH "@ + s.subrange(
                    jd.0 + "ChequeN\u{b0}"@.len(),
                    jd.0 + "ChequeN\u{b0}"@.len() + 8,
                ),
            )
        } else {
            None
        },
        None => None,
    }
}

pub open spec fn cheque_result(s: Seq<char>) -> Option<Seq<char>> {
    match find_prefix_digits(s, "ChequeNro"@, 0) {
        Some(jd) => if jd.1 >= 8 {
            Some(
                "CH "@ + s.subrange(jd.0 + "ChequeNro"@.len(), jd.0 + "ChequeNro"@.len() + 8),
            )
        } else {
            cheque_alt_result(s)
        },
        None => cheque_alt_result(s),
    }
}

/// The `ITB` result: the full digit run after the first `ITBN\u{ba}:` marker.
pub open spec fn itb_result(s: Seq<char>) -> Option<Seq<char>> {
    match find_prefix_digits(s, "ITBN\u{ba}:"@, 0) {
        Some(jd) => Some(
            "ITB "@ + s.subrange(jd.0 + "ITBN\u{ba}:"@.len(), jd.0 + "ITBN\u{ba}:"@.len() + jd.1),
        ),
        None => None,
    }
}

/// The internal-transfer result: the digit run after the first `INTERNO:`
/// marker with its last four digits (a suffix code) dropped, labelled `MEP`
/// when the unstripped text carries the `M.E.P.` marker and `ITB` otherwise.
pub open spec fn interno_result(s: Seq<char>, t: Seq<char>) -> Option<Seq<char>> {
    match find_prefix_digits(s, "INTERNO:"@, 0) {
        Some(jd) => if jd.1 > 4 {
            let digits = s.subrange(
                jd.0 + "INTERNO:"@.len(),
                jd.0 + "INTERNO:"@.len() + jd.1 - 4,
            );
            if contains_pat(t, "M.E.P."@) {
                Some("MEP "@ + digits)
            } else {
                Some("ITB "@ + digits)
            }
        } else {
            None
        },
        None => None,
    }
}

/// The payment id of a page: recognized on the text stripped of dots,
/// dashes and spaces, trying cheque markers, then the treasury marker, then
/// the internal marker, and falling back to the positional sentinel.
pub open spec fn spec_extract_payment(t: Seq<char>, p: nat) -> Seq<char> {
    let s = spec_remove(t, ".- "@);
    match cheque_result(s) {
        Some(r) => r,
        None => match itb_result(s) {
            Some(r) => r,
            None => match interno_result(s, t) {
                Some(r) => r,
                None => spec_sentinel(p),
            },
        },
    }
}

/// The payment id of a page is never empty: every recognized marker yields
/// a labelled digit group, and a miss yields the positional sentinel.
pub proof fn lemma_payment_nonempty(t: Seq<char>, p: nat)
    ensures
        spec_extract_payment(t, p).len() > 0,
{
    let s = spec_remove(t, ".- "@);
    lemma_find_prefix_digits_props(s, "ChequeNro"@, 0);
    lemma_find_prefix_digits_props(s, "ChequeN\u{b0}"@, 0);
    lemma_find_prefix_digits_props(s, "ITBN\u{ba}:"@, 0);
    lemma_find_prefix_digits_props(s, "INTERNO:"@, 0);
    reveal_strlit("CH ");
    reveal_strlit("ITB ");
    reveal_strlit("MEP ");
    crate::chars::lemma_dec_digits_nonempty((p + 1) as nat);
}

fn labelled_digits(label: &str, s: &Vec<char>, lo: usize, hi: usize) -> (out: Vec<char>)
    requires
        lo <= hi <= s.len(),
    ensures
        out@ == label@ + s@.subrange(lo as int, hi as int),
{
    let mut out = str_chars(label);
    let digits = copy_range(s, lo, hi);
    push_all(&mut out, &digits);
    out
}

pub fn extract_payment_chars(t: &Vec<char>, p: usize) -> (out: Vec<char>)
    requires
        p < usize::MAX,
    ensures
        out@ == spec_extract_payment(t@, p as nat),
{
    let bad = str_chars(".- ");
    let s = remove_chars(t, &bad);
    let nro = str_chars("ChequeNro");
    let deg = str_chars("ChequeN\u{b0}");
    let itb = str_chars("ITBN\u{ba}:");
    let intr = str_chars("INTERNO:");
    let mep = str_chars("M.E.P.");
    proof {
        reveal_strlit("ChequeNro");
        reveal_strlit("ChequeN\u{b0}");
        reveal_strlit("ITBN\u{ba}:");
        reveal_strlit("INTERNO:");
        lemma_find_prefix_digits_props(s@, nro@, 0);
        lemma_find_prefix_digits_props(s@, deg@, 0);
        lemma_find_prefix_digits_props(s@, itb@, 0);
        lemma_find_prefix_digits_props(s@, intr@, 0);
    }
    let r1 = find_prefix_digits_exec(&s, &nro);
    match r1 {
        Some((j, d)) if d >= 8 => {
            return labelled_digits("CH ", &s, j + nro.len(), j + nro.len() + 8);
        },
        _ => {},
    }
    let r2 = find_prefix_digits_exec(&s, &deg);
    match r2 {
        Some((j, d)) if d >= 8 => {
            return labelled_digits("CH ", &s, j + deg.len(), j + deg.len() + 8);
        },
        _ => {},
    }
    match find_prefix_digits_exec(&s, &itb) {
        Some((j, d)) => {
            return labelled_digits("ITB ", &s, j + itb.len(), j + itb.len() + d);
        },
        None => {},
    }
    match find_prefix_digits_exec(&s, &intr) {
        Some((j, d)) => {
            if d > 4 {
                if contains_pat_exec(t, &mep) {
                    return labelled_digits("MEP ", &s, j + intr.len(), j + intr.len() + d - 4);
                } else {
                    return labelled_digits("ITB ", &s, j + intr.len(), j + intr.len() + d - 4);
                }
            }
        },
        None => {},
    }
    sentinel_chars(p)
}

/// Extracts the payment id of a page of sanitized text, or the positional
/// sentinel `p + 1` when no marker is recognized.
pub fn extract_payment_id(text: &str, p: usize) -> (out: String)
    requires
        p < usize::MAX,
    ensures
        out@ == spec_extract_payment(text@, p as nat),
{
    let v = str_chars(text);
    let r = extract_payment_chars(&v, p);
    chars_to_string(&r)
}

} // verus!
