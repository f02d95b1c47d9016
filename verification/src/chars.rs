//! Character classes and small character-level helpers shared by the
//! sanitizer and the field extractors.

use vstd::prelude::*;

verus! {

/// The Unicode alphanumeric test of the runtime; it depends on the character
/// alone, so its outcome is given a name rather than a definition.
pub uninterp spec fn unicode_alphanumeric(c: char) -> bool;

/// The Unicode whitespace test of the runtime; it depends on the character
/// alone, so its outcome is given a name rather than a definition.
pub uninterp spec fn unicode_whitespace(c: char) -> bool;

/// The Unicode uppercase mapping of one character (one character may map to
/// several); it depends on the character alone.
pub uninterp spec fn upper_chars_of(c: char) -> Seq<char>;

/// Relies on char::is_alphanumeric: the Unicode alphanumeric classification
/// of a character.
#[verifier::external_body]
pub(crate) fn char_is_alphanumeric(c: char) -> (r: bool)
    ensures
        r == unicode_alphanumeric(c),
{
    c.is_alphanumeric()
}

/// Relies on char::is_whitespace: the Unicode whitespace classification of a
/// character.
#[verifier::external_body]
pub(crate) fn char_is_whitespace(c: char) -> (r: bool)
    ensures
        r == unicode_whitespace(c),
{
    c.is_whitespace()
}

/// Relies on char::to_uppercase: the Unicode uppercase mapping of a
/// character, yielded as its sequence of characters.
#[verifier::external_body]
pub(crate) fn char_to_upper(c: char) -> (r: Vec<char>)
    ensures
        r@ == upper_chars_of(c),
{
    c.to_uppercase().collect()
}

pub open spec fn is_ascii_char(c: char) -> bool {
    (c as u32) < 128
}

pub open spec fn is_digit_char(c: char) -> bool {
    48 <= (c as u32) && (c as u32) <= 57
}

/// Numeric value of an ASCII decimal digit.
pub open spec fn digit_val(c: char) -> nat
    recommends
        is_digit_char(c),
{
    ((c as u32) - 48) as nat
}

pub fn check_digit(c: char) -> (r: bool)
    ensures
        r == is_digit_char(c),
{
    let u = c as u32;
    48 <= u && u <= 57
}

/// A character survives sanitization when it is ASCII, or alphanumeric, or
/// whitespace under the runtime's Unicode tables.
pub open spec fn keeps_char(c: char) -> bool {
    is_ascii_char(c) || unicode_alphanumeric(c) || unicode_whitespace(c)
}

pub fn check_keeps(c: char) -> (r: bool)
    ensures
        r == keeps_char(c),
{
    if (c as u32) < 128 {
        true
    } else if char_is_alphanumeric(c) {
        true
    } else {
        char_is_whitespace(c)
    }
}

/// The decimal digit character for a value below ten.
pub open spec fn digit_char(d: nat) -> char
    recommends
        d < 10,
{
    if d == 0 {
        '0'
    } else if d == 1 {
        '1'
    } else if d == 2 {
        '2'
    } else if d == 3 {
        '3'
    } else if d == 4 {
        '4'
    } else if d == 5 {
        '5'
    } else if d == 6 {
        '6'
    } else if d == 7 {
        '7'
    } else if d == 8 {
        '8'
    } else {
        '9'
    }
}

/// The decimal representation of a natural number, most significant digit
/// first, with no leading zeros (a lone zero for zero).
pub open spec fn dec_digits(n: nat) -> Seq<char>
    decreases n,
{
    if n < 10 {
        seq![digit_char(n)]
    } else {
        dec_digits(n / 10).push(digit_char(n % 10))
    }
}

pub proof fn lemma_dec_digits_nonempty(n: nat)
    ensures
        dec_digits(n).len() >= 1,
        forall|i: int| 0 <= i < dec_digits(n).len() ==> is_digit_char(#[trigger] dec_digits(n)[i]),
    decreases n,
{
    if n >= 10 {
        lemma_dec_digits_nonempty(n / 10);
    }
}

fn digit_char_exec(d: usize) -> (c: char)
    requires
        d < 10,
    ensures
        c == digit_char(d as nat),
{
    if d == 0 {
        '0'
    } else if d == 1 {
        '1'
    } else if d == 2 {
        '2'
    } else if d == 3 {
        '3'
    } else if d == 4 {
        '4'
    } else if d == 5 {
        '5'
    } else if d == 6 {
        '6'
    } else if d == 7 {
        '7'
    } else if d == 8 {
        '8'
    } else {
        '9'
    }
}

pub fn dec_digits_exec(n: usize) -> (v: Vec<char>)
    ensures
        v@ == dec_digits(n as nat),
    decreases n,
{
    if n < 10 {
        let mut v: Vec<char> = Vec::new();
        v.push(digit_char_exec(n));
        proof {
            assert(v@ =~= dec_digits(n as nat));
        }
        v
    } else {
        let mut v = dec_digits_exec(n / 10);
        v.push(digit_char_exec(n % 10));
        v
    }
}

/// The positional sentinel for a page: the decimal text of `ordinal + 1`.
pub open spec fn spec_sentinel(p: nat) -> Seq<char> {
    dec_digits(p + 1)
}

pub fn sentinel_chars(p: usize) -> (v: Vec<char>)
    requires
        p < usize::MAX,
    ensures
        v@ == spec_sentinel(p as nat),
{
    dec_digits_exec(p + 1)
}

} // verus!
