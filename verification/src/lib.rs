//! Extraction of structured administrative records (payee name, case
//! reference, year, amount, payment id) from noisy per-page text of scanned
//! legal documents.
//!
//! The heart of the crate is a layered field-extraction engine: [`sanitize`]
//! normalizes raw page text and gates out noise pages, and four independent
//! extractors ([`name`], [`case_year`], [`amount`], [`payment`]) turn one
//! sanitized page into field values, every miss yielding the page's
//! positional sentinel instead of an empty value. [`record`] assembles the
//! four into one [`record::PageRecord`] per accepted page, in page order.
//! Each extractor's result is pinned exactly by a specification function
//! over the page's character sequence; [`text`] and [`chars`] hold the
//! verified scanning primitives those specifications are built from.

use vstd::prelude::*;

pub mod amount;
pub mod case_year;
pub mod chars;
pub mod name;
pub mod payment;
pub mod record;
pub mod sanitize;
pub mod text;

verus! {

/// Minimum number of characters a sanitized page must have to be processed.
pub const PAGE_MIN_CHARS: usize = 500;

} // verus!
