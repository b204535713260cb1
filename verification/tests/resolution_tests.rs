use svg2png::resolution::{
    parse_dpi, resolve_dpi, resolve_dpi_pairs, Dpi, BASELINE_DPI_RAW, MAX_DPI_RAW,
};

fn parsed_raw(s: &[u8]) -> Option<u64> {
    parse_dpi(&s.to_vec()).map(|d| d.raw)
}

#[test]
fn parse_plain_integer() {
    assert_eq!(parsed_raw(b"192"), Some(1_920_000));
    assert_eq!(parsed_raw(b"96"), Some(960_000));
    assert_eq!(parsed_raw(b"1"), Some(10_000));
}

#[test]
fn parse_fractional() {
    assert_eq!(parsed_raw(b"192.5"), Some(1_925_000));
    assert_eq!(parsed_raw(b"0.5"), Some(5_000));
    assert_eq!(parsed_raw(b"72.0009"), Some(720_009));
    assert_eq!(parsed_raw(b"0.0001"), Some(1));
}

#[test]
fn parse_rejects_text() {
    assert_eq!(parsed_raw(b"abc"), None);
    assert_eq!(parsed_raw(b"12a"), None);
    assert_eq!(parsed_raw(b"1 2"), None);
    assert_eq!(parsed_raw(b"+5"), None);
}

#[test]
fn parse_rejects_non_positive() {
    assert_eq!(parsed_raw(b"-5"), None);
    assert_eq!(parsed_raw(b"0"), None);
    assert_eq!(parsed_raw(b"0.0000"), None);
    assert_eq!(parsed_raw(b"-0.5"), None);
}

#[test]
fn parse_rejects_malformed_numerals() {
    assert_eq!(parsed_raw(b""), None);
    assert_eq!(parsed_raw(b"."), None);
    assert_eq!(parsed_raw(b".5"), None);
    assert_eq!(parsed_raw(b"10."), None);
    assert_eq!(parsed_raw(b"1.2.3"), None);
}

#[test]
fn parse_rejects_excess_fraction_digits() {
    assert_eq!(parsed_raw(b"1.00001"), None);
    assert_eq!(parsed_raw(b"96.12345"), None);
}

#[test]
fn parse_range_boundaries() {
    // The largest accepted integer part, one trillion DPI.
    assert_eq!(parsed_raw(b"1000000000000"), Some(MAX_DPI_RAW));
    assert_eq!(parsed_raw(b"1000000000001"), None);
    assert_eq!(parsed_raw(b"1000000000000.0001"), None);
}

#[test]
fn resolve_absent_query_is_baseline() {
    assert_eq!(resolve_dpi(None).raw, BASELINE_DPI_RAW);
    assert_eq!(resolve_dpi(Some("")).raw, BASELINE_DPI_RAW);
    assert_eq!(resolve_dpi(Some("a=b&c=d")).raw, BASELINE_DPI_RAW);
}

#[test]
fn resolve_valid_parameter() {
    assert_eq!(resolve_dpi(Some("dpi=192")).raw, 1_920_000);
    assert_eq!(resolve_dpi(Some("a=b&dpi=300")).raw, 3_000_000);
    assert_eq!(resolve_dpi(Some("dpi=72.5&x=1")).raw, 725_000);
}

#[test]
fn resolve_malformed_parameter_is_baseline() {
    assert_eq!(resolve_dpi(Some("dpi=abc")).raw, BASELINE_DPI_RAW);
    assert_eq!(resolve_dpi(Some("dpi=-5")).raw, BASELINE_DPI_RAW);
    assert_eq!(resolve_dpi(Some("dpi=0")).raw, BASELINE_DPI_RAW);
    assert_eq!(resolve_dpi(Some("dpi=")).raw, BASELINE_DPI_RAW);
}

#[test]
fn resolve_first_dpi_pair_decides() {
    // The first `dpi` pair is taken even when a later one would parse.
    assert_eq!(resolve_dpi(Some("dpi=abc&dpi=192")).raw, BASELINE_DPI_RAW);
    assert_eq!(resolve_dpi(Some("dpi=150&dpi=300")).raw, 1_500_000);
}

#[test]
fn resolve_percent_decoded_parameter() {
    // `19%32` decodes to `192`; a resolver fed undecoded pairs would fall
    // back to the baseline here.
    assert_eq!(resolve_dpi(Some("dpi=19%32")).raw, 1_920_000);
    assert_eq!(resolve_dpi(Some("d%70i=240")).raw, 2_400_000);
}

#[test]
fn resolve_pairs_directly() {
    let pairs = vec![
        (b"unit".to_vec(), b"px".to_vec()),
        (b"dpi".to_vec(), b"300".to_vec()),
    ];
    assert_eq!(resolve_dpi_pairs(&pairs).raw, 3_000_000);
    let none: Vec<(Vec<u8>, Vec<u8>)> = Vec::new();
    assert_eq!(resolve_dpi_pairs(&none).raw, BASELINE_DPI_RAW);
}

#[test]
fn baseline_constructor() {
    assert_eq!(Dpi::baseline().raw, BASELINE_DPI_RAW);
    assert_eq!(BASELINE_DPI_RAW, 960_000);
}
