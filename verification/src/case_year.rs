//! The case-reference and year extractor: vocabulary normalization to the
//! canonical `EXP-` token, six candidate patterns tried in fixed priority
//! order, truncation and trailing-junk trimming, year recovery from the
//! final four digits, and canonical-prefix enforcement.

use vstd::prelude::*;
use crate::chars::digit_val;
use crate::chars::is_digit_char;
use crate::chars::check_digit;
use crate::chars::spec_sentinel;
use crate::chars::sentinel_chars;
use crate::text::chars_to_string;
use crate::text::contains_pat;
use crate::text::contains_pat_exec;
use crate::text::copy_range;
use crate::text::count_pat;
use crate::text::count_pat_exec;
use crate::text::find_char;
use crate::text::find_char_exec;
use crate::text::find_pat;
use crate::text::find_pat_exec;
use crate::text::lemma_find_char_props;
use crate::text::lemma_find_pat_props;
use crate::text::matches_at;
use crate::text::push_all;
use crate::text::remove_chars;
use crate::text::replace_all;
use crate::text::replace_first;
use crate::text::spec_remove;
use crate::text::spec_replace;
use crate::text::spec_replace_first;
use crate::text::str_chars;
use crate::text::upper_seq;
use crate::text::upper_vec;

verus! {

/// Vocabulary normalization: every spelling of "expediente" and "expte."
/// becomes the canonical token `EXP-`, case-insensitively.
pub open spec fn normalize_vocab(t: Seq<char>) -> Seq<char> {
    spec_replace(spec_replace(t, "expediente"@, "EXP-"@, true), "expte."@, "EXP-"@, true)
}

/// A prefix-to-comma pattern: the leftmost case-insensitive occurrence of
/// `prefix` that has a comma at or after its end; the match runs through
/// that first comma.
pub open spec fn find_pt(t: Seq<char>, prefix: Seq<char>) -> Option<Seq<char>> {
    match find_pat(t, prefix, 0, true) {
        Some(j) => match find_char(t, ',', j + prefix.len()) {
            Some(k) => Some(t.subrange(j, k + 1)),
            None => None,
        },
        None => None,
    }
}

/// A bare docket number of `f` digits, a separator, and four digits,
/// starting at `j`.
pub open spec fn ds_at(t: Seq<char>, sep: char, j: int, f: int) -> bool {
    &&& 0 <= j
    &&& j + f + 5 <= t.len()
    &&& forall|k: int| j <= k < j + f ==> is_digit_char(t[k])
    &&& t[j + f] == sep
    &&& forall|k: int| j + f + 1 <= k < j + f + 5 ==> is_digit_char(t[k])
}

/// The digit-group length at `j`, preferring the longest of six, five and
/// four digits.
pub open spec fn ds_len_at(t: Seq<char>, sep: char, j: int) -> Option<int> {
    if ds_at(t, sep, j, 6) {
        Some(6)
    } else if ds_at(t, sep, j, 5) {
        Some(5)
    } else if ds_at(t, sep, j, 4) {
        Some(4)
    } else {
        None
    }
}

/// Leftmost bare docket number with separator `sep` at or after `from`.
pub open spec fn find_ds(t: Seq<char>, sep: char, from: int) -> Option<Seq<char>>
    decreases t.len() - from,
{
    if !(0 <= from && from + 9 <= t.len()) {
        None
    } else {
        match ds_len_at(t, sep, from) {
            Some(f) => Some(t.subrange(from, from + f + 5)),
            None => find_ds(t, sep, from + 1),
        }
    }
}

/// The six candidate patterns in priority order; the boolean marks the
/// space variant, whose match later loses its literal `EXP` letters since
/// it does not embed the canonical separator.
pub open spec fn spec_case_match(t: Seq<char>) -> Option<(Seq<char>, bool)> {
    match find_pt(t, "exp-"@) {
        Some(m) => Some((m, false)),
        None => match find_pt(t, "exp."@) {
            Some(m) => Some((m, false)),
            None => match find_pt(t, "exp "@) {
                Some(m) => Some((m, true)),
                None => match find_ds(t, '-', 0) {
                    Some(m) => Some((m, false)),
                    None => match find_ds(t, '/', 0) {
                        Some(m) => Some((m, false)),
                        None => match find_pt(t, "ejf-"@) {
                            Some(m) => Some((m, false)),
                            None => None,
                        },
                    },
                },
            },
        },
    }
}

/// Index of the last ASCII digit of `s`, when there is one.
pub open spec fn last_digit_idx(s: Seq<char>) -> Option<int>
    decreases s.len(),
{
    if s.len() == 0 {
        None
    } else if is_digit_char(s[s.len() - 1]) {
        Some(s.len() - 1)
    } else {
        last_digit_idx(s.subrange(0, s.len() - 1))
    }
}

/// Trailing non-digit characters trimmed: everything up to and including
/// the last digit, or the whole of `s` when it has no digit.
pub open spec fn trim_to_last_digit(s: Seq<char>) -> Seq<char> {
    match last_digit_idx(s) {
        Some(i) => s.subrange(0, i + 1),
        None => s,
    }
}

pub open spec fn all_digits(s: Seq<char>) -> bool {
    forall|i: int| 0 <= i < s.len() ==> is_digit_char(#[trigger] s[i])
}

/// The value of a four-digit group.
pub open spec fn four_digit_val(s: Seq<char>) -> int
    recommends
        s.len() == 4,
{
    (digit_val(s[0]) * 1000 + digit_val(s[1]) * 100 + digit_val(s[2]) * 10 + digit_val(
        s[3],
    )) as int
}

/// Year recovery: when the last four characters form a number between 1990
/// and 2025 they become the year, and with at least five characters the
/// year and the separator before it are stripped from the case reference;
/// otherwise the year is the single-space marker.
pub open spec fn year_split(s: Seq<char>) -> (Seq<char>, Seq<char>) {
    if s.len() >= 4 && all_digits(s.skip(s.len() - 4)) && 1990 <= four_digit_val(
        s.skip(s.len() - 4),
    ) <= 2025 {
        let y = s.skip(s.len() - 4);
        if s.len() >= 5 {
            (s.subrange(0, s.len() - 5), y)
        } else {
            (s, y)
        }
    } else {
        (s, " "@)
    }
}

/// Noise-token cleanup and canonical-prefix enforcement: literal noise
/// spellings are canonicalized or dropped, one trailing dash is removed, a
/// duplicated `EXP-` loses its first occurrence, and a match with neither
/// `EXP-` nor `EJF-` is given the `EXP-` prefix.
pub open spec fn spec_cleanup_case(s: Seq<char>) -> Seq<char> {
    let c1 = spec_replace(s, "EXP. Nro."@, "EXP-"@, false);
    let c2 = spec_replace(c1, "N\u{ba}"@, Seq::<char>::empty(), false);
    let c3 = spec_replace(c2, "N\u{b0}"@, Seq::<char>::empty(), false);
    let c4 = spec_replace(c3, "EXP."@, "EXP-"@, false);
    let c5 = spec_replace(c4, "NRO."@, Seq::<char>::empty(), false);
    let c6 = if c5.len() >= 1 && c5[c5.len() - 1] == '-' {
        c5.subrange(0, c5.len() - 1)
    } else {
        c5
    };
    if count_pat(c6, "EXP-"@) > 1 {
        spec_replace_first(c6, "EXP-"@, Seq::<char>::empty())
    } else if !contains_pat(c6, "EXP-"@) && !contains_pat(c6, "EJF-"@) {
        "EXP-"@ + c6
    } else {
        c6
    }
}

/// The whole refinement of a raw match: uppercased, spaces removed, the
/// space variant's literal `EXP` letters dropped, over-long matches cut to
/// twenty-five characters, trailing junk trimmed, the year split off, and
/// the cleanup applied.
pub open spec fn spec_refine_case(m: Seq<char>, space_variant: bool) -> (Seq<char>, Seq<char>) {
    let u = spec_remove(upper_seq(m), " "@);
    let u2 = if space_variant {
        spec_replace(u, "EXP"@, Seq::<char>::empty(), false)
    } else {
        u
    };
    let u3 = if u2.len() > 30 {
        u2.subrange(0, 25)
    } else {
        u2
    };
    let u4 = trim_to_last_digit(u3);
    let cy = year_split(u4);
    (spec_cleanup_case(cy.0), cy.1)
}

/// The case reference and year of a page, or the positional sentinel with
/// the single-space year when no pattern matches.
pub open spec fn spec_extract_case_year(t: Seq<char>, p: nat) -> (Seq<char>, Seq<char>) {
    let n = normalize_vocab(t);
    match spec_case_match(n) {
        None => (spec_sentinel(p), " "@),
        Some(mv) => spec_refine_case(mv.0, mv.1),
    }
}

/// A missed prefix-to-comma pattern means no occurrence of the prefix has
/// a comma anywhere after its end.
pub proof fn lemma_find_pt_none(t: Seq<char>, prefix: Seq<char>)
    requires
        find_pt(t, prefix) is None,
    ensures
        forall|j: int, k: int|
            #![trigger matches_at(t, prefix, j, true), t[k]]
            !(matches_at(t, prefix, j, true) && j + prefix.len() <= k < t.len() && t[k] == ','),
{
    lemma_find_pat_props(t, prefix, 0, true);
    match find_pat(t, prefix, 0, true) {
        None => {},
        Some(j0) => {
            lemma_find_char_props(t, ',', j0 + prefix.len() as int);
            assert forall|j: int, k: int|
                #![trigger matches_at(t, prefix, j, true), t[k]]
                !(matches_at(t, prefix, j, true) && j + prefix.len() <= k < t.len() && t[k]
                    == ',') by {
                if matches_at(t, prefix, j, true) && j + prefix.len() <= k < t.len() && t[k]
                    == ',' {
                    assert(j0 <= j);
                    assert(j0 + prefix.len() <= k < t.len());
                }
            }
        },
    }
}

/// A missed bare docket pattern means no position carries one of any
/// group length.
pub proof fn lemma_find_ds_none(t: Seq<char>, sep: char, from: int)
    requires
        0 <= from,
        find_ds(t, sep, from) is None,
    ensures
        forall|j: int, f: int| from <= j && 4 <= f <= 6 ==> !#[trigger] ds_at(t, sep, j, f),
    decreases t.len() - from,
{
    if 0 <= from && from + 9 <= t.len() {
        lemma_find_ds_none(t, sep, from + 1);
    }
}

/// The cleanup always yields at least the four characters of a canonical
/// prefix: it either keeps an occurrence of `EXP-` or `EJF-`, or prepends
/// `EXP-`.
pub proof fn lemma_cleanup_nonempty(s: Seq<char>)
    ensures
        spec_cleanup_case(s).len() >= 4,
{
    reveal_strlit("EXP-");
    reveal_strlit("EJF-");
    let c1 = spec_replace(s, "EXP. Nro."@, "EXP-"@, false);
    let c2 = spec_replace(c1, "N\u{ba}"@, Seq::<char>::empty(), false);
    let c3 = spec_replace(c2, "N\u{b0}"@, Seq::<char>::empty(), false);
    let c4 = spec_replace(c3, "EXP."@, "EXP-"@, false);
    let c5 = spec_replace(c4, "NRO."@, Seq::<char>::empty(), false);
    let c6 = if c5.len() >= 1 && c5[c5.len() - 1] == '-' {
        c5.subrange(0, c5.len() - 1)
    } else {
        c5
    };
    if count_pat(c6, "EXP-"@) > 1 {
        crate::text::lemma_replace_first_len(c6, "EXP-"@);
    } else if !contains_pat(c6, "EXP-"@) && !contains_pat(c6, "EJF-"@) {
        assert(spec_cleanup_case(s) == "EXP-"@ + c6);
    } else {
        let pat = if contains_pat(c6, "EXP-"@) {
            "EXP-"@
        } else {
            "EJF-"@
        };
        let j = choose|j: int| matches_at(c6, pat, j, false);
        assert(matches_at(c6, pat, j, false));
    }
}

/// The case reference of a page is never empty, and the year is either the
/// single-space marker or a four-digit year between 1990 and 2025.
pub proof fn lemma_case_year_shape(t: Seq<char>, p: nat)
    ensures
        spec_extract_case_year(t, p).0.len() > 0,
        spec_extract_case_year(t, p).1 == " "@ || (spec_extract_case_year(t, p).1.len() == 4
            && all_digits(spec_extract_case_year(t, p).1) && 1990 <= four_digit_val(
            spec_extract_case_year(t, p).1,
        ) <= 2025),
{
    let n = normalize_vocab(t);
    match spec_case_match(n) {
        None => {
            crate::chars::lemma_dec_digits_nonempty((p + 1) as nat);
        },
        Some(mv) => {
            let u = spec_remove(upper_seq(mv.0), " "@);
            let u2 = if mv.1 {
                spec_replace(u, "EXP"@, Seq::<char>::empty(), false)
            } else {
                u
            };
            let u3 = if u2.len() > 30 {
                u2.subrange(0, 25)
            } else {
                u2
            };
            let u4 = trim_to_last_digit(u3);
            lemma_cleanup_nonempty(year_split(u4).0);
        },
    }
}

fn find_pt_exec(t: &Vec<char>, prefix: &Vec<char>) -> (r: Option<(usize, usize)>)
    ensures
        match r {
            Some(jk) => {
                &&& jk.0 + prefix@.len() <= jk.1 < t@.len()
                &&& find_pt(t@, prefix@) == Some(t@.subrange(jk.0 as int, jk.1 + 1))
            },
            None => find_pt(t@, prefix@) is None,
        },
{
    proof {
        lemma_find_pat_props(t@, prefix@, 0, true);
    }
    match find_pat_exec(t, prefix, 0, true) {
        Some(j) => {
            let n = t.len();
            proof {
                assert(j + prefix@.len() <= n);
                lemma_find_char_props(t@, ',', j + prefix@.len());
            }
            match find_char_exec(t, ',', j + prefix.len()) {
                Some(k) => Some((j, k)),
                None => None,
            }
        },
        None => None,
    }
}

fn check_ds_at(t: &Vec<char>, sep: char, j: usize, f: usize) -> (r: bool)
    requires
        j <= t.len(),
        f <= 6,
    ensures
        r == ds_at(t@, sep, j as int, f as int),
{
    if t.len() - j < f + 5 {
        return false;
    }
    let mut k: usize = j;
    while k < j + f
        invariant
            j <= k <= j + f,
            j + f + 5 <= t.len(),
            forall|m: int| j <= m < k ==> is_digit_char(#[trigger] t@[m]),
        decreases j + f - k,
    {
        if !check_digit(t[k]) {
            return false;
        }
        k += 1;
    }
    if t[j + f] != sep {
        return false;
    }
    let mut k2: usize = j + f + 1;
    while k2 < j + f + 5
        invariant
            j + f + 1 <= k2 <= j + f + 5,
            j + f + 5 <= t.len(),
            forall|m: int| j + f + 1 <= m < k2 ==> is_digit_char(#[trigger] t@[m]),
        decreases j + f + 5 - k2,
    {
        if !check_digit(t[k2]) {
            return false;
        }
        k2 += 1;
    }
    true
}

fn find_ds_exec(t: &Vec<char>, sep: char) -> (r: Option<(usize, usize)>)
    ensures
        match r {
            Some(jf) => {
                &&& jf.0 + jf.1 + 5 <= t@.len()
                &&& 4 <= jf.1 <= 6
                &&& find_ds(t@, sep, 0) == Some(t@.subrange(jf.0 as int, jf.0 + jf.1 + 5))
            },
            None => find_ds(t@, sep, 0) is None,
        },
{
    if t.len() < 9 {
        return None;
    }
    let last = t.len() - 9;
    let mut j: usize = 0;
    while j <= last
        invariant
            j <= last + 1,
            last == t.len() - 9,
            t.len() >= 9,
            find_ds(t@, sep, 0) == find_ds(t@, sep, j as int),
        decreases last + 1 - j,
    {
        if check_ds_at(t, sep, j, 6) {
            return Some((j, 6));
        }
        if check_ds_at(t, sep, j, 5) {
            return Some((j, 5));
        }
        if check_ds_at(t, sep, j, 4) {
            return Some((j, 4));
        }
        j += 1;
    }
    None
}

fn case_match_exec(t: &Vec<char>) -> (r: Option<(Vec<char>, bool)>)
    ensures
        match r {
            Some(mv) => spec_case_match(t@) == Some((mv.0@, mv.1)),
            None => spec_case_match(t@) is None,
        },
{
    let n = t.len();
    let p1 = str_chars("exp-");
    match find_pt_exec(t, &p1) {
        Some((j, k)) => {
            proof {
                assert(k < n);
            }
            return Some((copy_range(t, j, k + 1), false));
        },
        None => {},
    }
    let p2 = str_chars("exp.");
    match find_pt_exec(t, &p2) {
        Some((j, k)) => {
            proof {
                assert(k < n);
            }
            return Some((copy_range(t, j, k + 1), false));
        },
        None => {},
    }
    let p3 = str_chars("exp ");
    match find_pt_exec(t, &p3) {
        Some((j, k)) => {
            proof {
                assert(k < n);
            }
            return Some((copy_range(t, j, k + 1), true));
        },
        None => {},
    }
    match find_ds_exec(t, '-') {
        Some((j, f)) => {
            proof {
                assert(j + f + 5 <= n);
            }
            return Some((copy_range(t, j, j + f + 5), false));
        },
        None => {},
    }
    match find_ds_exec(t, '/') {
        Some((j, f)) => {
            proof {
                assert(j + f + 5 <= n);
            }
            return Some((copy_range(t, j, j + f + 5), false));
        },
        None => {},
    }
    let p6 = str_chars("ejf-");
    match find_pt_exec(t, &p6) {
        Some((j, k)) => {
            proof {
                assert(k < n);
            }
            return Some((copy_range(t, j, k + 1), false));
        },
        None => {},
    }
    None
}

fn last_digit_idx_exec(s: &Vec<char>) -> (r: Option<usize>)
    ensures
        match r {
            Some(i) => last_digit_idx(s@) == Some(i as int) && i < s@.len(),
            None => last_digit_idx(s@) is None,
        },
{
    let mut k: usize = s.len();
    proof {
        assert(s@.subrange(0, s@.len() as int) =~= s@);
    }
    while k > 0
        invariant
            k <= s.len(),
            last_digit_idx(s@) == last_digit_idx(s@.subrange(0, k as int)),
        decreases k,
    {
        proof {
            let pre = s@.subrange(0, k as int);
            assert(pre[k - 1] == s@[k - 1]);
            assert(pre.subrange(0, k - 1) =~= s@.subrange(0, k - 1));
        }
        if check_digit(s[k - 1]) {
            return Some(k - 1);
        }
        k -= 1;
    }
    proof {
        assert(s@.subrange(0, 0) =~= Seq::<char>::empty());
    }
    None
}

fn year_split_exec(s: &Vec<char>) -> (r: (Vec<char>, Vec<char>))
    ensures
        r.0@ == year_split(s@).0,
        r.1@ == year_split(s@).1,
{
    let n = s.len();
    if n >= 4 && check_digit(s[n - 4]) && check_digit(s[n - 3]) && check_digit(s[n - 2])
        && check_digit(s[n - 1]) {
        let v0 = (s[n - 4] as u32) - 48;
        let v1 = (s[n - 3] as u32) - 48;
        let v2 = (s[n - 2] as u32) - 48;
        let v3 = (s[n - 1] as u32) - 48;
        let val = v0 * 1000 + v1 * 100 + v2 * 10 + v3;
        proof {
            let y = s@.skip(n - 4);
            assert(y[0] == s@[n - 4] && y[1] == s@[n - 3] && y[2] == s@[n - 2] && y[3] == s@[n
                - 1]);
            assert(all_digits(y));
            assert(val == four_digit_val(y));
        }
        if 1990 <= val && val <= 2025 {
            let y = copy_range(s, n - 4, n);
            proof {
                assert(s@.subrange(n - 4, n as int) =~= s@.skip(n - 4));
            }
            if n >= 5 {
                let c = copy_range(s, 0, n - 5);
                return (c, y);
            } else {
                let c = copy_range(s, 0, n);
                proof {
                    assert(s@.subrange(0, n as int) =~= s@);
                }
                return (c, y);
            }
        }
    }
    let c = copy_range(s, 0, n);
    let y = str_chars(" ");
    proof {
        assert(s@.subrange(0, n as int) =~= s@);
    }
    (c, y)
}

fn cleanup_case(s: &Vec<char>) -> (out: Vec<char>)
    ensures
        out@ == spec_cleanup_case(s@),
{
    let exp_dash = str_chars("EXP-");
    let empty: Vec<char> = Vec::new();
    proof {
        reveal_strlit("EXP. Nro.");
        reveal_strlit("N\u{ba}");
        reveal_strlit("N\u{b0}");
        reveal_strlit("EXP.");
        reveal_strlit("NRO.");
        reveal_strlit("EXP-");
        assert(empty@ =~= Seq::<char>::empty());
    }
    let pa = str_chars("EXP. Nro.");
    let c1 = replace_all(s, &pa, &exp_dash, false);
    let pb = str_chars("N\u{ba}");
    let c2 = replace_all(&c1, &pb, &empty, false);
    let pc = str_chars("N\u{b0}");
    let c3 = replace_all(&c2, &pc, &empty, false);
    let pd = str_chars("EXP.");
    let c4 = replace_all(&c3, &pd, &exp_dash, false);
    let pe = str_chars("NRO.");
    let c5 = replace_all(&c4, &pe, &empty, false);
    let c6 = if c5.len() >= 1 && c5[c5.len() - 1] == '-' {
        copy_range(&c5, 0, c5.len() - 1)
    } else {
        c5
    };
    let cnt = count_pat_exec(&c6, &exp_dash);
    if cnt > 1 {
        replace_first(&c6, &exp_dash, &empty)
    } else {
        let ejf = str_chars("EJF-");
        if !contains_pat_exec(&c6, &exp_dash) && !contains_pat_exec(&c6, &ejf) {
            let mut out = str_chars("EXP-");
            push_all(&mut out, &c6);
            out
        } else {
            copy_range(&c6, 0, c6.len())
        }
    }
}

fn refine_case(m: &Vec<char>, space_variant: bool) -> (r: (Vec<char>, Vec<char>))
    ensures
        r.0@ == spec_refine_case(m@, space_variant).0,
        r.1@ == spec_refine_case(m@, space_variant).1,
{
    let um = upper_vec(m);
    let space = str_chars(" ");
    let u = remove_chars(&um, &space);
    let u2 = if space_variant {
        let exp = str_chars("EXP");
        let empty: Vec<char> = Vec::new();
        proof {
            reveal_strlit("EXP");
            assert(empty@ =~= Seq::<char>::empty());
        }
        replace_all(&u, &exp, &empty, false)
    } else {
        u
    };
    let u3 = if u2.len() > 30 {
        copy_range(&u2, 0, 25)
    } else {
        u2
    };
    let u4 = match last_digit_idx_exec(&u3) {
        Some(i) => copy_range(&u3, 0, i + 1),
        None => {
            let w = copy_range(&u3, 0, u3.len());
            proof {
                assert(u3@.subrange(0, u3@.len() as int) =~= u3@);
            }
            w
        },
    };
    let (c, y) = year_split_exec(&u4);
    let cc = cleanup_case(&c);
    (cc, y)
}

pub fn extract_case_year_chars(t: &Vec<char>, p: usize) -> (r: (Vec<char>, Vec<char>))
    requires
        p < usize::MAX,
    ensures
        r.0@ == spec_extract_case_year(t@, p as nat).0,
        r.1@ == spec_extract_case_year(t@, p as nat).1,
{
    let kw1 = str_chars("expediente");
    let kw2 = str_chars("expte.");
    let tok = str_chars("EXP-");
    proof {
        reveal_strlit("expediente");
        reveal_strlit("expte.");
    }
    let n1 = replace_all(t, &kw1, &tok, true);
    let n2 = replace_all(&n1, &kw2, &tok, true);
    match case_match_exec(&n2) {
        Some((m, space_variant)) => refine_case(&m, space_variant),
        None => {
            let s = sentinel_chars(p);
            let y = str_chars(" ");
            (s, y)
        },
    }
}

/// Extracts the case reference and the year of a page of sanitized text.
/// With no pattern match the case reference is the positional sentinel
/// `p + 1` and the year is the single-space marker.
pub fn extract_case_year(text: &str, p: usize) -> (r: (String, String))
    requires
        p < usize::MAX,
    ensures
        r.0@ == spec_extract_case_year(text@, p as nat).0,
        r.1@ == spec_extract_case_year(text@, p as nat).1,
{
    let v = str_chars(text);
    let (c, y) = extract_case_year_chars(&v, p);
    (chars_to_string(&c), chars_to_string(&y))
}

} // verus!
