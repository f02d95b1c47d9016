//! The amount extractor: finds the first parenthesized dollar amount
//! `($...)` in a page, strips noise, and disambiguates locale-ambiguous
//! thousands and decimal separators.

use vstd::prelude::*;
use crate::chars::spec_sentinel;
use crate::chars::sentinel_chars;
use crate::text::chars_to_string;
use crate::text::check_match_at;
use crate::text::copy_range;
use crate::text::count_pat;
use crate::text::count_pat_exec;
use crate::text::find_char;
use crate::text::find_char_exec;
use crate::text::lemma_find_char_props;
use crate::text::matches_at;
use crate::text::push_all;
use crate::text::remove_chars;
use crate::text::replace_all;
use crate::text::singleton;
use crate::text::spec_remove;
use crate::text::spec_replace;
use crate::text::str_chars;

verus! {

/// Index of the closing parenthesis of a `($...)` group starting at `j`,
/// when the group has a nonempty interior; the interior may not contain a
/// closing parenthesis, so the group closes at the first one.
pub open spec fn amount_close_at(t: Seq<char>, j: int) -> Option<int> {
    if matches_at(t, "($"@, j, false) {
        match find_char(t, ')', j + 2) {
            Some(k) => if k > j + 2 {
                Some(k)
            } else {
                None
            },
            None => None,
        }
    } else {
        None
    }
}

/// Leftmost parenthesized dollar amount at or after `from`, as the pair of
/// its start and its closing parenthesis.
pub open spec fn find_amount(t: Seq<char>, from: int) -> Option<(int, int)>
    decreases t.len() - from,
{
    if !(0 <= from && from + 4 <= t.len()) {
        None
    } else {
        match amount_close_at(t, from) {
            Some(k) => Some((from, k)),
            None => find_amount(t, from + 1),
        }
    }
}

/// A found amount is in bounds; a miss means no position at or after
/// `from` starts a parenthesized dollar group at all.
pub proof fn lemma_find_amount_props(t: Seq<char>, from: int)
    requires
        0 <= from,
    ensures
        match find_amount(t, from) {
            Some(jk) => from <= jk.0 && jk.0 + 2 < jk.1 < t.len(),
            None => forall|j: int| from <= j ==> #[trigger] amount_close_at(t, j) is None,
        },
    decreases t.len() - from,
{
    if 0 <= from && from + 4 <= t.len() {
        match amount_close_at(t, from) {
            Some(k) => {
                lemma_find_char_props(t, ')', from + 2);
            },
            None => {
                lemma_find_amount_props(t, from + 1);
            },
        }
    } else {
        assert forall|j: int| from <= j implies #[trigger] amount_close_at(t, j) is None by {
            if amount_close_at(t, j) is Some {
                lemma_find_char_props(t, ')', j + 2);
            }
        }
    }
}

pub fn find_amount_exec(t: &Vec<char>) -> (r: Option<(usize, usize)>)
    ensures
        match r {
            Some(jk) => find_amount(t@, 0) == Some((jk.0 as int, jk.1 as int)),
            None => find_amount(t@, 0) is None,
        },
{
    let pat = str_chars("($");
    if t.len() < 4 {
        return None;
    }
    let last = t.len() - 4;
    let mut j: usize = 0;
    while j <= last
        invariant
            j <= last + 1,
            last == t.len() - 4,
            t.len() >= 4,
            pat@ == "($"@,
            find_amount(t@, 0) == find_amount(t@, j as int),
        decreases last + 1 - j,
    {
        if check_match_at(t, &pat, j, false) {
            match find_char_exec(t, ')', j + 2) {
                Some(k) => {
                    if k > j + 2 {
                        return Some((j, k));
                    }
                },
                None => {},
            }
        }
        j += 1;
    }
    None
}

/// Strips the ledger tail: a trailing `.-` (even amount), else a single
/// trailing dot.
pub open spec fn strip_tail(s: Seq<char>) -> Seq<char> {
    if s.len() >= 2 && s[s.len() - 2] == '.' && s[s.len() - 1] == '-' {
        s.subrange(0, s.len() - 2)
    } else if s.len() >= 1 && s[s.len() - 1] == '.' {
        s.subrange(0, s.len() - 1)
    } else {
        s
    }
}

/// The separator disambiguation over a candidate of at least three
/// characters, decided by the character three positions from the end and the
/// totals of dots and commas.
pub open spec fn spec_disambiguate(s: Seq<char>) -> Seq<char>
    recommends
        s.len() >= 3,
{
    let c3 = s[s.len() - 3];
    let nd = count_pat(s, seq!['.']);
    let nc = count_pat(s, seq![',']);
    if c3 == '.' && nd > 1 {
        spec_remove(s.subrange(0, s.len() - 3), seq!['.']) + seq!['.'] + s.skip(s.len() - 2)
    } else if c3 == '.' {
        spec_remove(s, seq![','])
    } else if c3 == ',' && nc > 1 {
        spec_remove(s.subrange(0, s.len() - 3), seq![',']) + seq!['.'] + s.skip(s.len() - 2)
    } else {
        spec_replace(spec_remove(s, seq!['.']), seq![','], seq!['.'], false)
    }
}

/// Cleans a captured amount: dollar signs and spaces removed, the ledger
/// tail stripped, and, when at least three characters remain, the separator
/// disambiguation applied. A value of fewer than three characters is too
/// short to disambiguate and is returned as-is — including, for a capture
/// of only dollar signs and spaces, the empty string, the one field value
/// that can be empty.
pub open spec fn spec_clean_amount(cap: Seq<char>) -> Seq<char> {
    let s1 = spec_remove(cap, "$ "@);
    let s2 = strip_tail(s1);
    if s2.len() < 3 {
        s2
    } else {
        spec_disambiguate(s2)
    }
}

/// The amount of a page: the cleaned first parenthesized dollar group of
/// the text (after tolerating one stray space between `(` and `$`), or the
/// positional sentinel when there is none.
pub open spec fn spec_extract_amount(t: Seq<char>, p: nat) -> Seq<char> {
    let t1 = spec_replace(t, "( $"@, "($"@, false);
    match find_amount(t1, 0) {
        None => spec_sentinel(p),
        Some(jk) => spec_clean_amount(t1.subrange(jk.0 + 2, jk.1)),
    }
}

fn disambiguate(s: &Vec<char>) -> (out: Vec<char>)
    requires
        s.len() >= 3,
    ensures
        out@ == spec_disambiguate(s@),
{
    let dot = singleton('.');
    let comma = singleton(',');
    let c3 = s[s.len() - 3];
    let nd = count_pat_exec(s, &dot);
    let nc = count_pat_exec(s, &comma);
    if c3 == '.' && nd > 1 {
        let head = copy_range(s, 0, s.len() - 3);
        let mut out = remove_chars(&head, &dot);
        let ghost o0 = out@;
        out.push('.');
        let tail = copy_range(s, s.len() - 2, s.len());
        proof {
            assert(o0 + seq!['.'] =~= o0.push('.'));
            assert(s@.subrange(s@.len() - 2, s@.len() as int) =~= s@.skip(s@.len() - 2));
            assert((o0 + seq!['.']) + s@.skip(s@.len() - 2) =~= o0 + seq!['.'] + s@.skip(
                s@.len() - 2,
            ));
        }
        push_all(&mut out, &tail);
        out
    } else if c3 == '.' {
        remove_chars(s, &comma)
    } else if c3 == ',' && nc > 1 {
        let head = copy_range(s, 0, s.len() - 3);
        let mut out = remove_chars(&head, &comma);
        let ghost o0 = out@;
        out.push('.');
        let tail = copy_range(s, s.len() - 2, s.len());
        proof {
            assert(o0 + seq!['.'] =~= o0.push('.'));
            assert(s@.subrange(s@.len() - 2, s@.len() as int) =~= s@.skip(s@.len() - 2));
            assert((o0 + seq!['.']) + s@.skip(s@.len() - 2) =~= o0 + seq!['.'] + s@.skip(
                s@.len() - 2,
            ));
        }
        push_all(&mut out, &tail);
        out
    } else {
        let nodots = remove_chars(s, &dot);
        replace_all(&nodots, &comma, &dot, false)
    }
}

/// Cleans one captured `($...)` interior.
pub fn clean_amount(cap: &Vec<char>) -> (out: Vec<char>)
    ensures
        out@ == spec_clean_amount(cap@),
{
    let bad = str_chars("$ ");
    let s1 = remove_chars(cap, &bad);
    let s2 = if s1.len() >= 2 && s1[s1.len() - 2] == '.' && s1[s1.len() - 1] == '-' {
        copy_range(&s1, 0, s1.len() - 2)
    } else if s1.len() >= 1 && s1[s1.len() - 1] == '.' {
        copy_range(&s1, 0, s1.len() - 1)
    } else {
        s1
    };
    if s2.len() < 3 {
        s2
    } else {
        disambiguate(&s2)
    }
}

pub fn extract_amount_chars(t: &Vec<char>, p: usize) -> (out: Vec<char>)
    requires
        p < usize::MAX,
    ensures
        out@ == spec_extract_amount(t@, p as nat),
{
    let pat = str_chars("( $");
    let rep = str_chars("($");
    proof {
        reveal_strlit("( $");
    }
    let t1 = replace_all(t, &pat, &rep, false);
    match find_amount_exec(&t1) {
        None => sentinel_chars(p),
        Some((j, k)) => {
            proof {
                lemma_find_amount_props(t1@, 0);
            }
            let cap = copy_range(&t1, j + 2, k);
            clean_amount(&cap)
        },
    }
}

/// Extracts the amount of a page of sanitized text, or the positional
/// sentinel `p + 1` when no parenthesized dollar amount occurs in it.
pub fn extract_amount(text: &str, p: usize) -> (out: String)
    requires
        p < usize::MAX,
    ensures
        out@ == spec_extract_amount(text@, p as nat),
{
    let v = str_chars(text);
    let r = extract_amount_chars(&v, p);
    chars_to_string(&r)
}

} // verus!
