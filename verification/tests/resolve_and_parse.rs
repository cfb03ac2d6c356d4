use block_explorers::{parse_numeric, resolve_block_by_timestamp, FetchError, ResponseEnvelope};

fn envelope(status: &str, result: &str) -> ResponseEnvelope<String> {
    ResponseEnvelope {
        status: status.to_string(),
        message: if status == "1" { "OK".to_string() } else { "NOTOK".to_string() },
        result: result.to_string(),
    }
}

#[test]
fn resolves_block_number_and_preserves_timestamp() {
    let r = resolve_block_by_timestamp(1577836800, envelope("1", "12345")).unwrap();
    assert_eq!(r.block_number, 12345);
    assert_eq!(r.timestamp, 1577836800);
}

#[test]
fn resolve_failure_status_is_reported() {
    let r = resolve_block_by_timestamp(1577836800, envelope("0", ""));
    assert!(matches!(r, Err(FetchError::BlockResolutionFailed)));
}

#[test]
fn resolve_unknown_status_is_unexpected() {
    match resolve_block_by_timestamp(7, envelope("2", "12345")) {
        Err(FetchError::UnexpectedStatus(code)) => assert_eq!(code, "2"),
        other => panic!("expected UnexpectedStatus, got {:?}", other),
    }
}

#[test]
fn resolve_unparseable_result_is_malformed() {
    let r = resolve_block_by_timestamp(7, envelope("1", "twelve"));
    assert!(matches!(r, Err(FetchError::MalformedNumericField)));
}

#[test]
fn resolve_accepts_hex_result() {
    let r = resolve_block_by_timestamp(7, envelope("1", "0x3039")).unwrap();
    assert_eq!(r.block_number, 12345);
}

#[test]
fn parses_decimal() {
    assert_eq!(parse_numeric("0"), Some(0));
    assert_eq!(parse_numeric("12345"), Some(12345));
    assert_eq!(parse_numeric("18446744073709551615"), Some(u64::MAX));
}

#[test]
fn parses_hex() {
    assert_eq!(parse_numeric("0x0"), Some(0));
    assert_eq!(parse_numeric("0x1A"), Some(26));
    assert_eq!(parse_numeric("0X1a"), Some(26));
    assert_eq!(parse_numeric("0xffffffffffffffff"), Some(u64::MAX));
}

#[test]
fn rejects_malformed_numbers() {
    assert_eq!(parse_numeric(""), None);
    assert_eq!(parse_numeric("0x"), None);
    assert_eq!(parse_numeric("12a"), None);
    assert_eq!(parse_numeric("-1"), None);
    assert_eq!(parse_numeric("0xg1"), None);
    assert_eq!(parse_numeric(" 12"), None);
}

#[test]
fn rejects_values_over_u64_max() {
    assert_eq!(parse_numeric("18446744073709551616"), None);
    assert_eq!(parse_numeric("0x10000000000000000"), None);
    assert_eq!(parse_numeric("99999999999999999999999"), None);
}
