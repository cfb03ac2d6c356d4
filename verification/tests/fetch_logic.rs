use block_explorers::{
    classify_log_response, merge_log_responses, FetchError, LogEntry, ResponseEnvelope,
};

fn entry(block_number: &str, log_index: &str, data: &str) -> LogEntry {
    LogEntry {
        address: "0xe561479bebee0e606c19bb1973fc4761613e3c42".to_string(),
        topics: vec![
            "0xddf252ad1be2c89b69c2b068fc378daa952ba7f163c4a11628f55a4df523b3ef".to_string(),
        ],
        data: data.to_string(),
        block_number: block_number.to_string(),
        block_hash: "0xblockhash".to_string(),
        time_stamp: "0x6727aa9a".to_string(),
        gas_price: "0x12a05f200".to_string(),
        gas_used: "0x5208".to_string(),
        log_index: log_index.to_string(),
        transaction_hash: "0xtxhash".to_string(),
        transaction_index: "0x1".to_string(),
    }
}

fn success(entries: Vec<LogEntry>) -> ResponseEnvelope<Vec<LogEntry>> {
    ResponseEnvelope {
        status: "1".to_string(),
        message: "OK".to_string(),
        result: entries,
    }
}

fn no_records() -> ResponseEnvelope<Vec<LogEntry>> {
    ResponseEnvelope {
        status: "0".to_string(),
        message: "No records found".to_string(),
        result: vec![],
    }
}

#[test]
fn classify_success_keeps_entries() {
    let env = success(vec![entry("100", "1", "0xa"), entry("99", "2", "0xb")]);
    let r = classify_log_response(env).unwrap();
    assert_eq!(r.len(), 2);
    assert_eq!(r[0].block_number, "100");
    assert_eq!(r[1].block_number, "99");
}

#[test]
fn classify_no_records_is_empty_success() {
    let r = classify_log_response(no_records()).unwrap();
    assert!(r.is_empty());
}

#[test]
fn classify_other_failure_is_hard() {
    let env = ResponseEnvelope {
        status: "0".to_string(),
        message: "Max rate limit reached".to_string(),
        result: vec![entry("100", "1", "0xa")],
    };
    let r = classify_log_response(env);
    assert!(matches!(r, Err(FetchError::LogQueryFailed)));
}

#[test]
fn classify_unknown_status_is_unexpected() {
    let env = ResponseEnvelope {
        status: "2".to_string(),
        message: "NOTOK".to_string(),
        result: vec![],
    };
    match classify_log_response(env) {
        Err(FetchError::UnexpectedStatus(code)) => assert_eq!(code, "2"),
        other => panic!("expected UnexpectedStatus, got {:?}", other),
    }
}

#[test]
fn merged_output_is_sorted_by_block_then_index() {
    let a = success(vec![
        entry("0x65", "0x2", "0xa"),
        entry("100", "9", "0xb"),
        entry("102", "0x0", "0xc"),
    ]);
    let b = success(vec![
        entry("101", "0x1", "0xd"),
        entry("100", "3", "0xe"),
    ]);
    let merged = merge_log_responses(a, b).unwrap();
    assert_eq!(merged.len(), 5);
    let keys: Vec<(u64, u64)> = merged
        .iter()
        .map(|e| {
            (
                block_explorers::parse_numeric(&e.block_number).unwrap(),
                block_explorers::parse_numeric(&e.log_index).unwrap(),
            )
        })
        .collect();
    for pair in keys.windows(2) {
        let (xb, xi) = pair[0];
        let (yb, yi) = pair[1];
        assert!(xb < yb || (xb == yb && xi <= yi));
    }
    assert_eq!(keys, vec![(100, 3), (100, 9), (101, 1), (101, 2), (102, 0)]);
}

#[test]
fn merged_fetch_is_idempotent() {
    let a = success(vec![entry("0x65", "0x2", "0xa"), entry("100", "9", "0xb")]);
    let b = success(vec![entry("101", "0x1", "0xd"), entry("100", "3", "0xe")]);
    let first = merge_log_responses(a.clone(), b.clone()).unwrap();
    let second = merge_log_responses(a, b).unwrap();
    assert_eq!(first, second);
}

#[test]
fn empty_first_filter_yields_second_sorted() {
    let b = success(vec![entry("200", "5", "0xd"), entry("150", "1", "0xe")]);
    let merged = merge_log_responses(no_records(), b).unwrap();
    assert_eq!(merged.len(), 2);
    assert_eq!(merged[0].block_number, "150");
    assert_eq!(merged[1].block_number, "200");
}

#[test]
fn empty_second_filter_yields_first_sorted() {
    let a = success(vec![entry("200", "5", "0xd"), entry("150", "1", "0xe")]);
    let merged = merge_log_responses(a, no_records()).unwrap();
    assert_eq!(merged.len(), 2);
    assert_eq!(merged[0].block_number, "150");
    assert_eq!(merged[1].block_number, "200");
}

#[test]
fn both_filters_empty_yield_empty() {
    let merged = merge_log_responses(no_records(), no_records()).unwrap();
    assert!(merged.is_empty());
}

#[test]
fn hard_failure_of_first_query_wins() {
    let a = ResponseEnvelope {
        status: "0".to_string(),
        message: "Query Timeout occured.".to_string(),
        result: vec![],
    };
    let b = success(vec![entry("100", "1", "0xa")]);
    let r = merge_log_responses(a, b);
    assert!(matches!(r, Err(FetchError::LogQueryFailed)));
}

#[test]
fn hard_failure_of_second_query_propagates() {
    let a = success(vec![entry("100", "1", "0xa")]);
    let b = ResponseEnvelope {
        status: "0".to_string(),
        message: "Query Timeout occured.".to_string(),
        result: vec![],
    };
    let r = merge_log_responses(a, b);
    assert!(matches!(r, Err(FetchError::LogQueryFailed)));
}

#[test]
fn unknown_status_in_merge_is_unexpected() {
    let a = ResponseEnvelope {
        status: "2".to_string(),
        message: "NOTOK".to_string(),
        result: vec![],
    };
    let r = merge_log_responses(a, no_records());
    match r {
        Err(FetchError::UnexpectedStatus(code)) => assert_eq!(code, "2"),
        other => panic!("expected UnexpectedStatus, got {:?}", other),
    }
}

#[test]
fn duplicate_entries_are_kept_and_adjacent() {
    let e = entry("100", "1", "0xdup");
    let a = success(vec![e.clone()]);
    let b = success(vec![e.clone()]);
    let merged = merge_log_responses(a, b).unwrap();
    assert_eq!(merged.len(), 2);
    assert_eq!(merged[0], e);
    assert_eq!(merged[1], e);
}

#[test]
fn malformed_block_number_is_reported() {
    let a = success(vec![entry("not-a-number", "1", "0xa")]);
    let r = merge_log_responses(a, no_records());
    assert!(matches!(r, Err(FetchError::MalformedNumericField)));
}

#[test]
fn malformed_log_index_is_reported() {
    let b = success(vec![entry("100", "0x", "0xa")]);
    let r = merge_log_responses(no_records(), b);
    assert!(matches!(r, Err(FetchError::MalformedNumericField)));
}

#[test]
fn ties_on_block_number_are_ordered_by_log_index() {
    let a = success(vec![entry("100", "7", "0xa"), entry("100", "2", "0xb")]);
    let b = success(vec![entry("100", "0x5", "0xc")]);
    let merged = merge_log_responses(a, b).unwrap();
    let indices: Vec<u64> = merged
        .iter()
        .map(|e| block_explorers::parse_numeric(&e.log_index).unwrap())
        .collect();
    assert_eq!(indices, vec![2, 5, 7]);
}
