//! The page record and the document processor: per accepted page the four
//! extractors are run with the page's ordinal among the accepted pages, and
//! the records are accumulated in page order.

use vstd::prelude::*;
use crate::amount::find_amount;
use crate::amount::spec_clean_amount;
use crate::amount::spec_extract_amount;
use crate::amount::extract_amount_chars;
use crate::case_year::all_digits;
use crate::case_year::four_digit_val;
use crate::case_year::lemma_case_year_shape;
use crate::case_year::spec_extract_case_year;
use crate::case_year::extract_case_year_chars;
use crate::chars::lemma_dec_digits_nonempty;
use crate::name::lemma_name_nonempty;
use crate::name::spec_extract_name;
use crate::name::extract_name_chars;
use crate::payment::lemma_payment_nonempty;
use crate::payment::spec_extract_payment;
use crate::payment::extract_payment_chars;
use crate::sanitize::sanitize_chars;
use crate::sanitize::spec_sanitize;
use crate::text::chars_to_string;
use crate::text::spec_replace;
use crate::text::str_chars;

verus! {

/// One structured record per accepted page. Every field is populated:
/// extraction never leaves a field empty, substituting the positional
/// sentinel on a miss (the year's "no value" marker is a single space).
#[derive(Debug, Clone)]
pub struct PageRecord {
    pub name: String,
    pub case_reference: String,
    pub year: String,
    pub amount: String,
    pub payment_id: String,
}

/// The mathematical content of a record: its five fields as character
/// sequences.
pub ghost struct PageFields {
    pub name: Seq<char>,
    pub case_reference: Seq<char>,
    pub year: Seq<char>,
    pub amount: Seq<char>,
    pub payment_id: Seq<char>,
}

impl View for PageRecord {
    type V = PageFields;

    open spec fn view(&self) -> PageFields {
        PageFields {
            name: self.name@,
            case_reference: self.case_reference@,
            year: self.year@,
            amount: self.amount@,
            payment_id: self.payment_id@,
        }
    }
}

/// The record of one page of sanitized text with ordinal `p` among the
/// accepted pages.
pub open spec fn spec_build_record(t: Seq<char>, p: nat) -> PageFields {
    PageFields {
        name: spec_extract_name(t, p),
        case_reference: spec_extract_case_year(t, p).0,
        year: spec_extract_case_year(t, p).1,
        amount: spec_extract_amount(t, p),
        payment_id: spec_extract_payment(t, p),
    }
}

/// The records of a document: each page is sanitized, pages below the
/// minimum length are dropped, and each surviving page contributes one
/// record built with its ordinal among the survivors.
pub open spec fn spec_process(pages: Seq<Seq<char>>) -> Seq<PageFields>
    decreases pages.len(),
{
    if pages.len() == 0 {
        Seq::empty()
    } else {
        let prefix = spec_process(pages.drop_last());
        let s = spec_sanitize(pages.last());
        if s.len() >= 500 {
            prefix.push(spec_build_record(s, prefix.len()))
        } else {
            prefix
        }
    }
}

/// The sanitized texts of the pages that pass the length gate, in page
/// order.
pub open spec fn spec_accepted(pages: Seq<Seq<char>>) -> Seq<Seq<char>>
    decreases pages.len(),
{
    if pages.len() == 0 {
        Seq::empty()
    } else {
        let prefix = spec_accepted(pages.drop_last());
        let s = spec_sanitize(pages.last());
        if s.len() >= 500 {
            prefix.push(s)
        } else {
            prefix
        }
    }
}

/// The views of a vector of page texts.
pub open spec fn views_of(pages: Seq<String>) -> Seq<Seq<char>> {
    pages.map_values(|s: String| s@)
}

/// A page whose sanitized text is below the minimum length contributes
/// nothing; one at or above it contributes exactly one record, built from
/// its sanitized text and numbered by the count of accepted pages before
/// it.
pub proof fn lemma_gate(pages: Seq<Seq<char>>, t: Seq<char>)
    ensures
        spec_sanitize(t).len() < 500 ==> spec_process(pages.push(t)) == spec_process(pages),
        spec_sanitize(t).len() >= 500 ==> spec_process(pages.push(t)) == spec_process(pages).push(
            spec_build_record(spec_sanitize(t), spec_process(pages).len()),
        ),
{
    assert(pages.push(t).drop_last() =~= pages);
    assert(pages.push(t).last() == t);
}

/// The output is exactly one record per accepted page, in order: record
/// `j` is built from the `j`-th accepted page's sanitized text with
/// ordinal `j`, and every accepted text reaches the minimum length.
pub proof fn lemma_process_is_accepted(pages: Seq<Seq<char>>)
    ensures
        spec_process(pages).len() == spec_accepted(pages).len(),
        forall|j: int|
            0 <= j < spec_process(pages).len() ==> #[trigger] spec_process(pages)[j]
                == spec_build_record(spec_accepted(pages)[j], j as nat),
        forall|j: int|
            0 <= j < spec_accepted(pages).len() ==> #[trigger] spec_accepted(pages)[j].len()
                >= 500,
    decreases pages.len(),
{
    if pages.len() > 0 {
        lemma_process_is_accepted(pages.drop_last());
    }
}

/// Every field of a record is non-empty, and the year is the single-space
/// marker or a four-digit year between 1990 and 2025. Left out by the
/// premise: a page whose parenthesized amount cleans to the empty string
/// (an interior of only dollar signs and spaces); the short-value rule of
/// the amount extractor mandates returning such a value as-is, so that one
/// residual case cannot be closed without changing the extractor.
pub proof fn lemma_record_fields_nonempty(t: Seq<char>, p: nat)
    requires
        ({
            let t1 = spec_replace(t, "( $"@, "($"@, false);
            match find_amount(t1, 0) {
                Some(jk) => spec_clean_amount(t1.subrange(jk.0 + 2, jk.1)).len() > 0,
                None => true,
            }
        }),
    ensures
        spec_build_record(t, p).name.len() > 0,
        spec_build_record(t, p).case_reference.len() > 0,
        spec_build_record(t, p).amount.len() > 0,
        spec_build_record(t, p).payment_id.len() > 0,
        spec_build_record(t, p).year == " "@ || (spec_build_record(t, p).year.len() == 4
            && all_digits(spec_build_record(t, p).year) && 1990 <= four_digit_val(
            spec_build_record(t, p).year,
        ) <= 2025),
        spec_build_record(t, p).year.len() > 0,
{
    lemma_dec_digits_nonempty((p + 1) as nat);
    lemma_name_nonempty(t, p);
    lemma_case_year_shape(t, p);
    lemma_payment_nonempty(t, p);
    reveal_strlit(" ");
}

/// Builds the record of one page of sanitized text given as characters.
pub fn build_record_chars(t: &Vec<char>, p: usize) -> (r: PageRecord)
    requires
        p < usize::MAX,
    ensures
        r@ == spec_build_record(t@, p as nat),
{
    let name = extract_name_chars(t, p);
    let (case_reference, year) = extract_case_year_chars(t, p);
    let amount = extract_amount_chars(t, p);
    let payment_id = extract_payment_chars(t, p);
    PageRecord {
        name: chars_to_string(&name),
        case_reference: chars_to_string(&case_reference),
        year: chars_to_string(&year),
        amount: chars_to_string(&amount),
        payment_id: chars_to_string(&payment_id),
    }
}

/// Builds the record of one page of sanitized text: the four extractors
/// applied with the page's ordinal among the accepted pages. Never fails.
pub fn build_record(text: &str, p: usize) -> (r: PageRecord)
    requires
        p < usize::MAX,
    ensures
        r@ == spec_build_record(text@, p as nat),
{
    let v = str_chars(text);
    build_record_chars(&v, p)
}

/// Processes the pages of one document, given their raw texts in page
/// order: sanitizes each, drops those below the minimum length, and builds
/// one record per survivor, numbered by its position among the survivors.
pub fn process_pages(pages: &Vec<String>) -> (out: Vec<PageRecord>)
    ensures
        out@.len() == spec_process(views_of(pages@)).len(),
        forall|j: int|
            0 <= j < out@.len() ==> #[trigger] out@[j]@ == spec_process(views_of(pages@))[j],
{
    let mut out: Vec<PageRecord> = Vec::new();
    let mut i: usize = 0;
    proof {
        assert(views_of(pages@.subrange(0, 0)) =~= Seq::<Seq<char>>::empty());
    }
    while i < pages.len()
        invariant
            i <= pages.len(),
            out@.len() == spec_process(views_of(pages@.subrange(0, i as int))).len(),
            out@.len() <= i,
            forall|j: int|
                0 <= j < out@.len() ==> #[trigger] out@[j]@ == spec_process(
                    views_of(pages@.subrange(0, i as int)),
                )[j],
        decreases pages.len() - i,
    {
        let ghost prefix = views_of(pages@.subrange(0, i as int));
        let ghost next = views_of(pages@.subrange(0, i + 1));
        proof {
            assert(next.drop_last() =~= prefix);
            assert(next.last() == pages@[i as int]@);
        }
        let v = str_chars(pages[i].as_str());
        let s = sanitize_chars(&v);
        if s.len() >= crate::PAGE_MIN_CHARS {
            let r = build_record_chars(&s, out.len());
            out.push(r);
        }
        i += 1;
    }
    proof {
        assert(pages@.subrange(0, pages@.len() as int) =~= pages@);
    }
    out
}

} // verus!
