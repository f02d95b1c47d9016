use procuracion::amount::extract_amount;
use procuracion::case_year::extract_case_year;
use procuracion::name::extract_name;
use procuracion::payment::extract_payment_id;

#[test]
fn amount_us_style_single_dot() {
    assert_eq!(extract_amount("importe ( $1,234.56) total", 0), "1234.56");
}

#[test]
fn amount_integer_with_dot_thousands() {
    assert_eq!(extract_amount("($1.234.567)", 0), "1234567");
}

#[test]
fn amount_dot_thousands_dot_decimals() {
    assert_eq!(extract_amount("($1.234.567.89)", 0), "1234567.89");
}

#[test]
fn amount_even_ledger_tail() {
    assert_eq!(extract_amount("($45.-)", 0), "45");
}

#[test]
fn amount_comma_decimals_dot_thousands() {
    assert_eq!(extract_amount("x($1.234.567,89)x", 0), "1234567.89");
}

#[test]
fn amount_comma_thousands_comma_decimals() {
    assert_eq!(extract_amount("($1,234,567,89)", 0), "1234567.89");
}

#[test]
fn amount_single_comma_no_dot() {
    // A lone comma two places from the end falls into the integer branch,
    // which still turns it into a decimal dot.
    assert_eq!(extract_amount("( $1234,56)", 0), "1234.56");
}

#[test]
fn amount_short_value_returned_as_is() {
    assert_eq!(extract_amount("($45)", 0), "45");
}

#[test]
fn amount_missing_gives_sentinel() {
    assert_eq!(extract_amount("no parenthesized sum here", 4), "5");
}

#[test]
fn amount_two_stray_spaces_not_tolerated() {
    // Normalization closes exactly one stray space after the paren.
    assert_eq!(extract_amount("(  $1,234.56)", 0), "1");
}

#[test]
fn amount_trailing_single_dot_stripped() {
    assert_eq!(extract_amount("($ 12.345.)", 0), "12345");
}

#[test]
fn amount_noise_only_interior_cleans_to_empty() {
    // An interior of only spaces cleans to the empty string, which the
    // short-value rule returns as-is: the one field value that can be
    // empty.
    assert_eq!(extract_amount("($ )", 0), "");
}

#[test]
fn name_quoted_after_autos() {
    assert_eq!(
        extract_name("en los autos \"Juan P\u{e9}rez\" que tramitan", 0),
        "Juan P\u{e9}rez"
    );
}

#[test]
fn name_skips_ut_supra() {
    assert_eq!(
        extract_name("autos \"ut-supra\" citados y autos \"Maria Lopez\" fin", 0),
        "Maria Lopez"
    );
}

#[test]
fn name_skips_ut_supra_with_space() {
    assert_eq!(
        extract_name("autos \"ut -supra\" y autos  \"Pedro Gomez\"", 0),
        "Pedro Gomez"
    );
}

#[test]
fn name_missing_gives_sentinel() {
    assert_eq!(extract_name("sin comillas por aca", 2), "3");
}

#[test]
fn name_empty_quotes_skipped() {
    assert_eq!(extract_name("autos \"\" y luego autos \"Ana Ruiz\"", 0), "Ana Ruiz");
}

#[test]
fn name_empty_quotes_alone_gives_sentinel() {
    assert_eq!(extract_name("en autos \"\" sin mas", 3), "4");
}

#[test]
fn name_requires_whitespace_after_keyword() {
    assert_eq!(extract_name("autos\"Juan\" pero autos \"Ana\"", 0), "Ana");
}

#[test]
fn case_reference_docket_with_year() {
    let (case_ref, year) = extract_case_year("Expediente 1234/2020, caratulado", 0);
    assert_eq!(case_ref, "EXP-1234");
    assert_eq!(year, "2020");
}

#[test]
fn case_reference_expte_spelling() {
    let (case_ref, year) = extract_case_year("el Expte. 777/2021, de marras", 0);
    assert_eq!(case_ref, "EXP-777");
    assert_eq!(year, "2021");
}

#[test]
fn case_reference_ejf_prefix_kept() {
    let (case_ref, year) = extract_case_year("EJF-555/2019, cobro", 0);
    assert_eq!(case_ref, "EJF-555");
    assert_eq!(year, "2019");
}

#[test]
fn case_reference_bare_docket_dash() {
    let (case_ref, year) = extract_case_year("visto el 12345-2021, se resuelve", 0);
    assert_eq!(case_ref, "EXP-12345");
    assert_eq!(year, "2021");
}

#[test]
fn case_reference_year_out_of_range() {
    let (case_ref, year) = extract_case_year("Expediente 1234/1980, antiguo", 0);
    assert_eq!(case_ref, "EXP-1234/1980");
    assert_eq!(year, " ");
}

#[test]
fn case_reference_missing_gives_sentinel_and_space_year() {
    let (case_ref, year) = extract_case_year("sin referencias utiles", 2);
    assert_eq!(case_ref, "3");
    assert_eq!(year, " ");
}

#[test]
fn payment_cheque_number_first_eight_digits() {
    assert_eq!(
        extract_payment_id("pagado con Cheque Nro. 123456789", 0),
        "CH 12345678"
    );
}

#[test]
fn payment_cheque_keeps_leading_zeros() {
    assert_eq!(extract_payment_id("ChequeNro0012345678", 0), "CH 00123456");
}

#[test]
fn payment_cheque_degree_sign_variant() {
    assert_eq!(extract_payment_id("Cheque N\u{b0} 12345678", 0), "CH 12345678");
}

#[test]
fn payment_cheque_too_short_falls_through() {
    assert_eq!(extract_payment_id("ChequeNro1234567", 0), "1");
}

#[test]
fn payment_itb_full_number() {
    assert_eq!(extract_payment_id("ITB N\u{ba}: 987", 0), "ITB 987");
}

#[test]
fn payment_interno_with_mep_marker() {
    assert_eq!(
        extract_payment_id("transferencia M.E.P. INTERNO: 000012349999", 0),
        "MEP 00001234"
    );
}

#[test]
fn payment_interno_without_mep_marker() {
    assert_eq!(
        extract_payment_id("giro INTERNO: 000012349999", 0),
        "ITB 00001234"
    );
}

#[test]
fn payment_interno_short_run_gives_sentinel() {
    assert_eq!(extract_payment_id("INTERNO: 1234", 6), "7");
}

#[test]
fn payment_missing_gives_sentinel() {
    assert_eq!(extract_payment_id("sin identificadores", 0), "1");
}
