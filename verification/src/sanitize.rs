//! Sanitization of raw page text: newlines become single spaces, and only
//! characters that are ASCII, Unicode-alphanumeric or Unicode-whitespace
//! survive. Pages whose sanitized text is shorter than
//! [`PAGE_MIN_CHARS`](crate::PAGE_MIN_CHARS) characters are treated as noise
//! and skipped by the document processor.

use vstd::prelude::*;
use crate::chars::check_keeps;
use crate::chars::keeps_char;
use crate::text::chars_to_string;
use crate::text::str_chars;

verus! {

/// The sanitized form of `t`: each newline replaced by a space, then every
/// character that is neither ASCII nor alphanumeric nor whitespace dropped.
pub open spec fn spec_sanitize(t: Seq<char>) -> Seq<char>
    decreases t.len(),
{
    if t.len() == 0 {
        t
    } else {
        let c = if t[0] == '\n' {
            ' '
        } else {
            t[0]
        };
        let rest = spec_sanitize(t.skip(1));
        if keeps_char(c) {
            seq![c] + rest
        } else {
            rest
        }
    }
}

/// Every character of a sanitized text is kept by the filter and is not a
/// newline.
pub proof fn lemma_sanitize_output(t: Seq<char>)
    ensures
        forall|i: int|
            0 <= i < spec_sanitize(t).len() ==> keeps_char(#[trigger] spec_sanitize(t)[i])
                && spec_sanitize(t)[i] != '\n',
    decreases t.len(),
{
    if t.len() > 0 {
        lemma_sanitize_output(t.skip(1));
        let c = if t[0] == '\n' {
            ' '
        } else {
            t[0]
        };
        let rest = spec_sanitize(t.skip(1));
        if keeps_char(c) {
            assert(spec_sanitize(t) == seq![c] + rest);
            assert forall|i: int|
                0 <= i < spec_sanitize(t).len() implies keeps_char(
                #[trigger] spec_sanitize(t)[i],
            ) && spec_sanitize(t)[i] != '\n' by {
                if i == 0 {
                    assert(spec_sanitize(t)[0] == c);
                } else {
                    assert(spec_sanitize(t)[i] == rest[i - 1]);
                }
            }
        }
    }
}

/// Sanitization leaves a text alone when every character is kept and none is
/// a newline.
pub proof fn lemma_sanitize_fixed(t: Seq<char>)
    requires
        forall|i: int| 0 <= i < t.len() ==> keeps_char(#[trigger] t[i]) && t[i] != '\n',
    ensures
        spec_sanitize(t) == t,
    decreases t.len(),
{
    if t.len() > 0 {
        assert(forall|i: int|
            0 <= i < t.skip(1).len() ==> keeps_char(#[trigger] t.skip(1)[i]) && t.skip(1)[i]
                != '\n') by {
            assert(forall|i: int| 0 <= i < t.skip(1).len() ==> #[trigger] t.skip(1)[i] == t[i + 1]);
        }
        lemma_sanitize_fixed(t.skip(1));
        assert(seq![t[0]] + t.skip(1) =~= t);
    }
}

/// Sanitization is idempotent.
pub proof fn lemma_sanitize_idempotent(t: Seq<char>)
    ensures
        spec_sanitize(spec_sanitize(t)) == spec_sanitize(t),
{
    lemma_sanitize_output(t);
    lemma_sanitize_fixed(spec_sanitize(t));
}

/// Sanitizes a page text given as a character vector.
pub fn sanitize_chars(t: &Vec<char>) -> (out: Vec<char>)
    ensures
        out@ == spec_sanitize(t@),
{
    let mut out: Vec<char> = Vec::new();
    let mut i: usize = 0;
    proof {
        assert(t@.skip(0) =~= t@);
        assert(Seq::<char>::empty() + spec_sanitize(t@) =~= spec_sanitize(t@));
    }
    while i < t.len()
        invariant
            i <= t.len(),
            spec_sanitize(t@) == out@ + spec_sanitize(t@.skip(i as int)),
        decreases t.len() - i,
    {
        proof {
            let s = t@.skip(i as int);
            assert(s[0] == t@[i as int]);
            assert(s.skip(1) =~= t@.skip(i + 1));
        }
        let c = if t[i] == '\n' {
            ' '
        } else {
            t[i]
        };
        if check_keeps(c) {
            proof {
                let s = t@.skip(i as int);
                let c0 = if s[0] == '\n' {
                    ' '
                } else {
                    s[0]
                };
                assert(out@ + (seq![c0] + spec_sanitize(t@.skip(i + 1))) =~= (out@ + seq![c0])
                    + spec_sanitize(t@.skip(i + 1)));
            }
            out.push(c);
        }
        i += 1;
    }
    proof {
        assert(t@.skip(t@.len() as int) =~= Seq::<char>::empty());
        assert(out@ + spec_sanitize(t@.skip(t@.len() as int)) =~= out@);
    }
    out
}

/// Sanitizes one page of raw text. Always succeeds; the result may be empty.
pub fn sanitize(raw: &str) -> (out: String)
    ensures
        out@ == spec_sanitize(raw@),
{
    let v = str_chars(raw);
    let s = sanitize_chars(&v);
    chars_to_string(&s)
}

} // verus!
