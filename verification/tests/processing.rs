use procuracion::record::process_pages;
use procuracion::record::build_record;
use procuracion::sanitize::sanitize;

fn filler(n: usize) -> String {
    std::iter::repeat('x').take(n).collect()
}

#[test]
fn sanitize_replaces_newlines_with_spaces() {
    assert_eq!(sanitize("uno\ndos\ntres"), "uno dos tres");
}

#[test]
fn sanitize_keeps_accented_letters() {
    assert_eq!(sanitize("P\u{e9}rez a\u{f1}ejo"), "P\u{e9}rez a\u{f1}ejo");
}

#[test]
fn sanitize_drops_degree_symbol() {
    // The degree sign is neither ASCII nor alphanumeric nor whitespace.
    assert_eq!(sanitize("N\u{b0} 123"), "N 123");
}

#[test]
fn sanitize_keeps_ordinal_indicator() {
    // The masculine ordinal indicator is a Unicode letter.
    assert_eq!(sanitize("N\u{ba} 123"), "N\u{ba} 123");
}

#[test]
fn sanitize_empty_input() {
    assert_eq!(sanitize(""), "");
}

#[test]
fn sanitize_is_idempotent_on_messy_input() {
    let raw = "a\nb\u{b0}c\u{e9} \u{ba}\n\nx\u{2014}y";
    let once = sanitize(&raw);
    let twice = sanitize(&once);
    assert_eq!(once, twice);
}

#[test]
fn pages_below_minimum_are_dropped() {
    let pages = vec![filler(499), filler(500), filler(120)];
    let records = process_pages(&pages);
    assert_eq!(records.len(), 1);
}

#[test]
fn page_at_minimum_is_kept() {
    let pages = vec![filler(500)];
    let records = process_pages(&pages);
    assert_eq!(records.len(), 1);
}

#[test]
fn sentinel_numbers_accepted_pages_not_document_pages() {
    // The second document page is short; the third page is the second
    // accepted page, so its sentinels read "2".
    let pages = vec![filler(600), filler(10), filler(600)];
    let records = process_pages(&pages);
    assert_eq!(records.len(), 2);
    assert_eq!(records[0].name, "1");
    assert_eq!(records[1].name, "2");
    assert_eq!(records[1].case_reference, "2");
    assert_eq!(records[1].year, " ");
}

#[test]
fn middle_accepted_page_without_case_reference() {
    // Three accepted pages; the middle one has no parsable case reference,
    // so its case reference is its ordinal plus one and its year a space.
    let with_case = format!("Expediente 1234/2020, {}", filler(600));
    let pages = vec![with_case.clone(), filler(600), with_case];
    let records = process_pages(&pages);
    assert_eq!(records.len(), 3);
    assert_eq!(records[0].case_reference, "EXP-1234");
    assert_eq!(records[1].case_reference, "2");
    assert_eq!(records[1].year, " ");
    assert_eq!(records[2].case_reference, "EXP-1234");
}

#[test]
fn record_fields_are_all_populated() {
    let text = format!(
        "autos \"Juan P\u{e9}rez\" Expediente 1234/2020, ($1.234,56) Cheque Nro. 87654321 {}",
        filler(600)
    );
    let record = build_record(&text, 0);
    assert_eq!(record.name, "Juan P\u{e9}rez");
    assert_eq!(record.case_reference, "EXP-1234");
    assert_eq!(record.year, "2020");
    assert_eq!(record.amount, "1234.56");
    assert_eq!(record.payment_id, "CH 87654321");
}

#[test]
fn record_on_empty_page_is_all_sentinels() {
    let record = build_record("nada util en esta pagina", 4);
    assert_eq!(record.name, "5");
    assert_eq!(record.case_reference, "5");
    assert_eq!(record.year, " ");
    assert_eq!(record.amount, "5");
    assert_eq!(record.payment_id, "5");
}

#[test]
fn processing_full_document_pipeline() {
    let page = format!(
        "en autos \"Ana Diaz\" s/ cobro, Expte. 4567/2019, por la suma de ($ 78.910,11) \
         abonada con Cheque Nro. 11223344 {}",
        filler(600)
    );
    let pages = vec![page];
    let records = process_pages(&pages);
    assert_eq!(records.len(), 1);
    assert_eq!(records[0].name, "Ana Diaz");
    assert_eq!(records[0].case_reference, "EXP-4567");
    assert_eq!(records[0].year, "2019");
    assert_eq!(records[0].amount, "78910.11");
    assert_eq!(records[0].payment_id, "CH 11223344");
}
