//! Verified text scanning and rewriting primitives over character
//! sequences: literal matching (optionally ASCII case-insensitive),
//! leftmost search, replacement, counting and filtering.

use vstd::prelude::*;
use vstd::string::StrSliceExecFns;
use crate::chars::char_is_whitespace;
use crate::chars::char_to_upper;
use crate::chars::is_digit_char;
use crate::chars::check_digit;
use crate::chars::unicode_whitespace;
use crate::chars::upper_chars_of;

verus! {

/// ASCII lowercase folding of one character's code point.
pub open spec fn lower32(c: char) -> int {
    if 65 <= (c as u32) && (c as u32) <= 90 {
        (c as u32) + 32
    } else {
        (c as u32) as int
    }
}

/// Character comparison: exact, or ASCII case-insensitive.
pub open spec fn char_eq(a: char, b: char, ci: bool) -> bool {
    if ci {
        lower32(a) == lower32(b)
    } else {
        a == b
    }
}

pub fn check_char_eq(a: char, b: char, ci: bool) -> (r: bool)
    ensures
        r == char_eq(a, b, ci),
{
    if ci {
        let au = a as u32;
        let bu = b as u32;
        let al = if 65 <= au && au <= 90 {
            au + 32
        } else {
            au
        };
        let bl = if 65 <= bu && bu <= 90 {
            bu + 32
        } else {
            bu
        };
        al == bl
    } else {
        a == b
    }
}

/// The pattern `pat` occurs in `t` at position `i`.
pub open spec fn matches_at(t: Seq<char>, pat: Seq<char>, i: int, ci: bool) -> bool {
    &&& 0 <= i
    &&& i + pat.len() <= t.len()
    &&& forall|k: int| 0 <= k < pat.len() ==> char_eq(t[i + k], #[trigger] pat[k], ci)
}

pub proof fn lemma_matches_at_skip(t: Seq<char>, pat: Seq<char>, i: int, ci: bool)
    requires
        0 <= i <= t.len(),
    ensures
        matches_at(t.skip(i), pat, 0, ci) == matches_at(t, pat, i, ci),
{
    if matches_at(t.skip(i), pat, 0, ci) {
        assert forall|k: int| 0 <= k < pat.len() implies char_eq(t[i + k], #[trigger] pat[k], ci) by {
            assert(t.skip(i)[0 + k] == t[i + k]);
        }
    }
    if matches_at(t, pat, i, ci) {
        assert forall|k: int| 0 <= k < pat.len() implies char_eq(t.skip(i)[0 + k], #[trigger] pat[k], ci) by {
            assert(t.skip(i)[0 + k] == t[i + k]);
        }
    }
}

pub fn check_match_at(t: &Vec<char>, pat: &Vec<char>, i: usize, ci: bool) -> (r: bool)
    ensures
        r == matches_at(t@, pat@, i as int, ci),
{
    if i > t.len() || t.len() - i < pat.len() {
        return false;
    }
    let mut k: usize = 0;
    while k < pat.len()
        invariant
            i + pat.len() <= t.len(),
            k <= pat.len(),
            forall|m: int| 0 <= m < k ==> char_eq(t@[i + m], #[trigger] pat@[m], ci),
        decreases pat.len() - k,
    {
        if !check_char_eq(t[i + k], pat[k], ci) {
            return false;
        }
        k += 1;
    }
    true
}

/// Leftmost occurrence of `pat` in `t` at or after `from`.
pub open spec fn find_pat(t: Seq<char>, pat: Seq<char>, from: int, ci: bool) -> Option<int>
    decreases t.len() - from,
{
    if !(0 <= from && from + pat.len() <= t.len()) {
        None
    } else if matches_at(t, pat, from, ci) {
        Some(from)
    } else {
        find_pat(t, pat, from + 1, ci)
    }
}

pub proof fn lemma_find_pat_props(t: Seq<char>, pat: Seq<char>, from: int, ci: bool)
    requires
        0 <= from,
    ensures
        match find_pat(t, pat, from, ci) {
            Some(j) => from <= j && matches_at(t, pat, j, ci) && forall|j2: int|
                from <= j2 < j ==> !matches_at(t, pat, j2, ci),
            None => forall|j2: int| from <= j2 ==> !matches_at(t, pat, j2, ci),
        },
    decreases t.len() - from,
{
    if !(0 <= from && from + pat.len() <= t.len()) {
    } else if matches_at(t, pat, from, ci) {
    } else {
        lemma_find_pat_props(t, pat, from + 1, ci);
    }
}

pub fn find_pat_exec(t: &Vec<char>, pat: &Vec<char>, from: usize, ci: bool) -> (r: Option<usize>)
    ensures
        match r {
            Some(j) => Some(j as int) == find_pat(t@, pat@, from as int, ci),
            None => find_pat(t@, pat@, from as int, ci) is None,
        },
{
    if from > t.len() || t.len() - from < pat.len() {
        return None;
    }
    let last = t.len() - pat.len();
    let mut j: usize = from;
    while j <= last
        invariant
            from <= j,
            last == t.len() - pat.len(),
            from + pat.len() <= t.len(),
            find_pat(t@, pat@, from as int, ci) == find_pat(t@, pat@, j as int, ci),
        decreases t.len() - j,
    {
        if check_match_at(t, pat, j, ci) {
            return Some(j);
        }
        j += 1;
    }
    None
}

/// Leftmost occurrence of the character `c` in `t` at or after `from`.
pub open spec fn find_char(t: Seq<char>, c: char, from: int) -> Option<int>
    decreases t.len() - from,
{
    if !(0 <= from && from < t.len()) {
        None
    } else if t[from] == c {
        Some(from)
    } else {
        find_char(t, c, from + 1)
    }
}

pub proof fn lemma_find_char_props(t: Seq<char>, c: char, from: int)
    requires
        0 <= from,
    ensures
        match find_char(t, c, from) {
            Some(j) => from <= j < t.len() && t[j] == c && forall|j2: int|
                from <= j2 < j ==> t[j2] != c,
            None => forall|j2: int| from <= j2 < t.len() ==> t[j2] != c,
        },
    decreases t.len() - from,
{
    if 0 <= from && from < t.len() && t[from] != c {
        lemma_find_char_props(t, c, from + 1);
    }
}

pub fn find_char_exec(t: &Vec<char>, c: char, from: usize) -> (r: Option<usize>)
    ensures
        match r {
            Some(j) => Some(j as int) == find_char(t@, c, from as int),
            None => find_char(t@, c, from as int) is None,
        },
{
    let mut j: usize = from;
    while j < t.len()
        invariant
            from <= j,
            find_char(t@, c, from as int) == find_char(t@, c, j as int),
        decreases t.len() - j,
    {
        if t[j] == c {
            return Some(j);
        }
        j += 1;
    }
    None
}

/// `t` with every non-overlapping occurrence of `pat` replaced by `rep`,
/// scanning left to right.
pub open spec fn spec_replace(t: Seq<char>, pat: Seq<char>, rep: Seq<char>, ci: bool) -> Seq<char>
    decreases t.len(),
    when pat.len() >= 1
{
    if t.len() == 0 {
        t
    } else if matches_at(t, pat, 0, ci) {
        rep + spec_replace(t.skip(pat.len() as int), pat, rep, ci)
    } else {
        seq![t[0]] + spec_replace(t.skip(1), pat, rep, ci)
    }
}

/// Appends the whole of `src` to `out`.
pub fn push_all(out: &mut Vec<char>, src: &Vec<char>)
    ensures
        final(out)@ == old(out)@ + src@,
{
    let ghost out0 = out@;
    let mut k: usize = 0;
    while k < src.len()
        invariant
            k <= src.len(),
            out@ == out0 + src@.subrange(0, k as int),
        decreases src.len() - k,
    {
        out.push(src[k]);
        proof {
            assert(out0 + src@.subrange(0, k as int) + seq![src@[k as int]] =~= out0
                + src@.subrange(0, k + 1));
        }
        k += 1;
    }
    proof {
        assert(src@.subrange(0, src@.len() as int) =~= src@);
    }
}

/// Copies `t[lo..hi]` into a fresh vector.
pub fn copy_range(t: &Vec<char>, lo: usize, hi: usize) -> (out: Vec<char>)
    requires
        lo <= hi <= t.len(),
    ensures
        out@ == t@.subrange(lo as int, hi as int),
{
    let mut out: Vec<char> = Vec::new();
    let mut k: usize = lo;
    while k < hi
        invariant
            lo <= k <= hi <= t.len(),
            out@ == t@.subrange(lo as int, k as int),
        decreases hi - k,
    {
        out.push(t[k]);
        proof {
            assert(t@.subrange(lo as int, k as int) + seq![t@[k as int]] =~= t@.subrange(
                lo as int,
                k + 1,
            ));
        }
        k += 1;
    }
    out
}

pub fn replace_all(t: &Vec<char>, pat: &Vec<char>, rep: &Vec<char>, ci: bool) -> (out: Vec<char>)
    requires
        pat.len() >= 1,
    ensures
        out@ == spec_replace(t@, pat@, rep@, ci),
{
    let mut out: Vec<char> = Vec::new();
    let mut i: usize = 0;
    proof {
        assert(t@.skip(0) =~= t@);
        assert(Seq::<char>::empty() + spec_replace(t@, pat@, rep@, ci) =~= spec_replace(
            t@,
            pat@,
            rep@,
            ci,
        ));
    }
    while i < t.len()
        invariant
            i <= t.len(),
            pat.len() >= 1,
            spec_replace(t@, pat@, rep@, ci) == out@ + spec_replace(
                t@.skip(i as int),
                pat@,
                rep@,
                ci,
            ),
        decreases t.len() - i,
    {
        proof {
            lemma_matches_at_skip(t@, pat@, i as int, ci);
        }
        if check_match_at(t, pat, i, ci) {
            let ghost out0 = out@;
            push_all(&mut out, rep);
            proof {
                let s = t@.skip(i as int);
                assert(s.skip(pat@.len() as int) =~= t@.skip(i + pat@.len()));
                assert(out0 + (rep@ + spec_replace(t@.skip(i + pat@.len()), pat@, rep@, ci)) =~= (
                out0 + rep@) + spec_replace(t@.skip(i + pat@.len()), pat@, rep@, ci));
            }
            i += pat.len();
        } else {
            proof {
                let s = t@.skip(i as int);
                assert(s[0] == t@[i as int]);
                assert(s.skip(1) =~= t@.skip(i + 1));
                assert(out@ + (seq![t@[i as int]] + spec_replace(t@.skip(i + 1), pat@, rep@, ci))
                    =~= (out@ + seq![t@[i as int]]) + spec_replace(t@.skip(i + 1), pat@, rep@, ci));
            }
            out.push(t[i]);
            i += 1;
        }
    }
    proof {
        assert(t@.skip(t@.len() as int) =~= Seq::<char>::empty());
        assert(out@ + spec_replace(t@.skip(t@.len() as int), pat@, rep@, ci) =~= out@);
    }
    out
}

/// `t` with only its leftmost occurrence of `pat` replaced by `rep`.
pub open spec fn spec_replace_first(t: Seq<char>, pat: Seq<char>, rep: Seq<char>) -> Seq<char>
    decreases t.len(),
    when pat.len() >= 1
{
    if t.len() == 0 {
        t
    } else if matches_at(t, pat, 0, false) {
        rep + t.skip(pat.len() as int)
    } else {
        seq![t[0]] + spec_replace_first(t.skip(1), pat, rep)
    }
}

pub fn replace_first(t: &Vec<char>, pat: &Vec<char>, rep: &Vec<char>) -> (out: Vec<char>)
    requires
        pat.len() >= 1,
    ensures
        out@ == spec_replace_first(t@, pat@, rep@),
{
    let mut out: Vec<char> = Vec::new();
    let mut i: usize = 0;
    let mut done: bool = false;
    proof {
        assert(t@.skip(0) =~= t@);
        assert(Seq::<char>::empty() + spec_replace_first(t@, pat@, rep@) =~= spec_replace_first(
            t@,
            pat@,
            rep@,
        ));
    }
    while i < t.len()
        invariant
            i <= t.len(),
            pat.len() >= 1,
            !done ==> spec_replace_first(t@, pat@, rep@) == out@ + spec_replace_first(
                t@.skip(i as int),
                pat@,
                rep@,
            ),
            done ==> spec_replace_first(t@, pat@, rep@) == out@ + t@.skip(i as int),
        decreases t.len() - i,
    {
        proof {
            lemma_matches_at_skip(t@, pat@, i as int, false);
        }
        if !done && check_match_at(t, pat, i, false) {
            let ghost out0 = out@;
            push_all(&mut out, rep);
            proof {
                let s = t@.skip(i as int);
                assert(s.skip(pat@.len() as int) =~= t@.skip(i + pat@.len()));
                assert(out0 + (rep@ + t@.skip(i + pat@.len())) =~= (out0 + rep@) + t@.skip(
                    i + pat@.len(),
                ));
            }
            i += pat.len();
            done = true;
        } else {
            proof {
                let s = t@.skip(i as int);
                assert(s[0] == t@[i as int]);
                assert(s.skip(1) =~= t@.skip(i + 1));
                if !done {
                    assert(out@ + (seq![t@[i as int]] + spec_replace_first(
                        t@.skip(i + 1),
                        pat@,
                        rep@,
                    )) =~= (out@ + seq![t@[i as int]]) + spec_replace_first(
                        t@.skip(i + 1),
                        pat@,
                        rep@,
                    ));
                } else {
                    assert(out@ + t@.skip(i as int) =~= (out@ + seq![t@[i as int]]) + t@.skip(
                        i + 1,
                    ));
                }
            }
            out.push(t[i]);
            i += 1;
        }
    }
    proof {
        assert(t@.skip(t@.len() as int) =~= Seq::<char>::empty());
        assert(out@ + t@.skip(t@.len() as int) =~= out@);
        assert(out@ + spec_replace_first(t@.skip(t@.len() as int), pat@, rep@) =~= out@);
    }
    out
}

/// Number of non-overlapping occurrences of `pat` in `t`, counted left to
/// right.
pub open spec fn count_pat(t: Seq<char>, pat: Seq<char>) -> nat
    decreases t.len(),
    when pat.len() >= 1
{
    if t.len() == 0 {
        0
    } else if matches_at(t, pat, 0, false) {
        1 + count_pat(t.skip(pat.len() as int), pat)
    } else {
        count_pat(t.skip(1), pat)
    }
}

pub fn count_pat_exec(t: &Vec<char>, pat: &Vec<char>) -> (n: usize)
    requires
        pat.len() >= 1,
    ensures
        n as nat == count_pat(t@, pat@),
{
    let mut n: usize = 0;
    let mut i: usize = 0;
    proof {
        assert(t@.skip(0) =~= t@);
    }
    while i < t.len()
        invariant
            i <= t.len(),
            pat.len() >= 1,
            n <= i,
            count_pat(t@, pat@) == n + count_pat(t@.skip(i as int), pat@),
        decreases t.len() - i,
    {
        proof {
            lemma_matches_at_skip(t@, pat@, i as int, false);
        }
        if check_match_at(t, pat, i, false) {
            proof {
                let s = t@.skip(i as int);
                assert(s.skip(pat@.len() as int) =~= t@.skip(i + pat@.len()));
            }
            n += 1;
            i += pat.len();
        } else {
            proof {
                let s = t@.skip(i as int);
                assert(s.skip(1) =~= t@.skip(i + 1));
            }
            i += 1;
        }
    }
    n
}

pub proof fn lemma_count_pos(s: Seq<char>, pat: Seq<char>)
    requires
        pat.len() >= 1,
        count_pat(s, pat) >= 1,
    ensures
        s.len() >= pat.len(),
    decreases s.len(),
{
    if s.len() == 0 {
    } else if matches_at(s, pat, 0, false) {
    } else {
        lemma_count_pos(s.skip(1), pat);
    }
}

/// Removing the first of two or more occurrences of `pat` leaves at least
/// one other occurrence, so at least `pat.len()` characters.
pub proof fn lemma_replace_first_len(s: Seq<char>, pat: Seq<char>)
    requires
        pat.len() >= 1,
        count_pat(s, pat) > 1,
    ensures
        spec_replace_first(s, pat, Seq::<char>::empty()).len() >= pat.len(),
    decreases s.len(),
{
    if matches_at(s, pat, 0, false) {
        lemma_count_pos(s.skip(pat.len() as int), pat);
        assert(Seq::<char>::empty() + s.skip(pat.len() as int) =~= s.skip(pat.len() as int));
    } else {
        lemma_replace_first_len(s.skip(1), pat);
    }
}

/// `pat` occurs somewhere in `t`.
pub open spec fn contains_pat(t: Seq<char>, pat: Seq<char>) -> bool {
    exists|j: int| matches_at(t, pat, j, false)
}

pub fn contains_pat_exec(t: &Vec<char>, pat: &Vec<char>) -> (r: bool)
    ensures
        r == contains_pat(t@, pat@),
{
    match find_pat_exec(t, pat, 0, false) {
        Some(j) => {
            proof {
                lemma_find_pat_props(t@, pat@, 0, false);
            }
            true
        },
        None => {
            proof {
                lemma_find_pat_props(t@, pat@, 0, false);
            }
            false
        },
    }
}

pub fn vec_eq(v: &Vec<char>, w: &Vec<char>) -> (r: bool)
    ensures
        r == (v@ == w@),
{
    if v.len() != w.len() {
        return false;
    }
    if check_match_at(v, w, 0, false) {
        proof {
            assert(v@ =~= w@);
        }
        true
    } else {
        false
    }
}

/// `t` with every character that occurs in `bad` removed.
pub open spec fn spec_remove(t: Seq<char>, bad: Seq<char>) -> Seq<char>
    decreases t.len(),
{
    if t.len() == 0 {
        t
    } else if bad.contains(t[0]) {
        spec_remove(t.skip(1), bad)
    } else {
        seq![t[0]] + spec_remove(t.skip(1), bad)
    }
}

pub fn contains_char(bad: &Vec<char>, c: char) -> (r: bool)
    ensures
        r == bad@.contains(c),
{
    let mut m: usize = 0;
    while m < bad.len()
        invariant
            m <= bad.len(),
            forall|k: int| 0 <= k < m ==> bad@[k] != c,
        decreases bad.len() - m,
    {
        if bad[m] == c {
            return true;
        }
        m += 1;
    }
    false
}

pub fn remove_chars(t: &Vec<char>, bad: &Vec<char>) -> (out: Vec<char>)
    ensures
        out@ == spec_remove(t@, bad@),
{
    let mut out: Vec<char> = Vec::new();
    let mut i: usize = 0;
    proof {
        assert(t@.skip(0) =~= t@);
        assert(Seq::<char>::empty() + spec_remove(t@, bad@) =~= spec_remove(t@, bad@));
    }
    while i < t.len()
        invariant
            i <= t.len(),
            spec_remove(t@, bad@) == out@ + spec_remove(t@.skip(i as int), bad@),
        decreases t.len() - i,
    {
        proof {
            let s = t@.skip(i as int);
            assert(s[0] == t@[i as int]);
            assert(s.skip(1) =~= t@.skip(i + 1));
            if !bad@.contains(t@[i as int]) {
                assert(out@ + (seq![t@[i as int]] + spec_remove(t@.skip(i + 1), bad@)) =~= (out@
                    + seq![t@[i as int]]) + spec_remove(t@.skip(i + 1), bad@));
            }
        }
        if !contains_char(bad, t[i]) {
            out.push(t[i]);
        }
        i += 1;
    }
    proof {
        assert(t@.skip(t@.len() as int) =~= Seq::<char>::empty());
        assert(out@ + spec_remove(t@.skip(t@.len() as int), bad@) =~= out@);
    }
    out
}

/// First position at or after `i` whose character is not Unicode whitespace
/// (the sequence length when all of the rest is whitespace).
pub open spec fn skip_ws(t: Seq<char>, i: int) -> int
    decreases t.len() - i,
{
    if !(0 <= i && i < t.len()) {
        i
    } else if unicode_whitespace(t[i]) {
        skip_ws(t, i + 1)
    } else {
        i
    }
}

pub proof fn lemma_skip_ws_bounds(t: Seq<char>, i: int)
    requires
        0 <= i,
    ensures
        i <= skip_ws(t, i),
        skip_ws(t, i) <= t.len() || skip_ws(t, i) == i,
    decreases t.len() - i,
{
    if i < t.len() && unicode_whitespace(t[i]) {
        lemma_skip_ws_bounds(t, i + 1);
    }
}

pub fn skip_ws_exec(t: &Vec<char>, i: usize) -> (r: usize)
    ensures
        r as int == skip_ws(t@, i as int),
        i <= r <= t.len() || (i > t.len() && r == i),
{
    let mut j: usize = i;
    while j < t.len()
        invariant
            i <= j,
            j <= t.len() || j == i,
            skip_ws(t@, i as int) == skip_ws(t@, j as int),
        decreases t.len() - j,
    {
        if !char_is_whitespace(t[j]) {
            return j;
        }
        j += 1;
    }
    j
}

/// Length of the run of ASCII decimal digits starting at `i`.
pub open spec fn digit_run_len(t: Seq<char>, i: int) -> int
    decreases t.len() - i,
{
    if !(0 <= i && i < t.len()) {
        0
    } else if is_digit_char(t[i]) {
        1 + digit_run_len(t, i + 1)
    } else {
        0
    }
}

pub proof fn lemma_digit_run_bounds(t: Seq<char>, i: int)
    requires
        0 <= i <= t.len(),
    ensures
        0 <= digit_run_len(t, i),
        i + digit_run_len(t, i) <= t.len(),
        forall|k: int| i <= k < i + digit_run_len(t, i) ==> is_digit_char(t[k]),
    decreases t.len() - i,
{
    if i < t.len() && is_digit_char(t[i]) {
        lemma_digit_run_bounds(t, i + 1);
    }
}

pub fn digit_run_len_exec(t: &Vec<char>, i: usize) -> (r: usize)
    requires
        i <= t.len(),
    ensures
        r as int == digit_run_len(t@, i as int),
        i + r <= t.len(),
{
    let mut j: usize = i;
    while j < t.len()
        invariant
            i <= j <= t.len(),
            digit_run_len(t@, i as int) == j - i + digit_run_len(t@, j as int),
        decreases t.len() - j,
    {
        if !check_digit(t[j]) {
            return j - i;
        }
        j += 1;
    }
    j - i
}

/// The Unicode uppercase form of a character sequence: each character mapped
/// through the runtime's uppercase mapping, concatenated.
pub open spec fn upper_seq(s: Seq<char>) -> Seq<char>
    decreases s.len(),
{
    if s.len() == 0 {
        s
    } else {
        upper_chars_of(s[0]) + upper_seq(s.skip(1))
    }
}

pub fn upper_vec(v: &Vec<char>) -> (out: Vec<char>)
    ensures
        out@ == upper_seq(v@),
{
    let mut out: Vec<char> = Vec::new();
    let mut i: usize = 0;
    proof {
        assert(v@.skip(0) =~= v@);
        assert(Seq::<char>::empty() + upper_seq(v@) =~= upper_seq(v@));
    }
    while i < v.len()
        invariant
            i <= v.len(),
            upper_seq(v@) == out@ + upper_seq(v@.skip(i as int)),
        decreases v.len() - i,
    {
        let u = char_to_upper(v[i]);
        let ghost out0 = out@;
        push_all(&mut out, &u);
        proof {
            let s = v@.skip(i as int);
            assert(s[0] == v@[i as int]);
            assert(s.skip(1) =~= v@.skip(i + 1));
            assert(out0 + (upper_chars_of(v@[i as int]) + upper_seq(v@.skip(i + 1))) =~= (out0
                + upper_chars_of(v@[i as int])) + upper_seq(v@.skip(i + 1)));
        }
        i += 1;
    }
    proof {
        assert(v@.skip(v@.len() as int) =~= Seq::<char>::empty());
        assert(out@ + upper_seq(v@.skip(v@.len() as int)) =~= out@);
    }
    out
}

/// A one-character vector.
pub fn singleton(c: char) -> (v: Vec<char>)
    ensures
        v@ == seq![c],
{
    let mut v: Vec<char> = Vec::new();
    v.push(c);
    proof {
        assert(v@ =~= seq![c]);
    }
    v
}

/// The characters of a string slice, in order.
pub fn str_chars(s: &str) -> (v: Vec<char>)
    ensures
        v@ == s@,
{
    let n = s.unicode_len();
    let mut v: Vec<char> = Vec::new();
    let mut i: usize = 0;
    while i < n
        invariant
            n == s@.len(),
            i <= n,
            v@ == s@.subrange(0, i as int),
        decreases n - i,
    {
        v.push(s.get_char(i));
        proof {
            assert(s@.subrange(0, i as int) + seq![s@[i as int]] =~= s@.subrange(0, i + 1));
        }
        i += 1;
    }
    proof {
        assert(s@.subrange(0, s@.len() as int) =~= s@);
    }
    v
}

/// Relies on String's FromIterator implementation: collecting characters
/// yields the string of exactly those characters, in order.
#[verifier::external_body]
pub(crate) fn chars_to_string(v: &Vec<char>) -> (s: String)
    ensures
        s@ == v@,
{
    v.iter().collect()
}

} // verus!
