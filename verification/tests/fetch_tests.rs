use sigindex::codec::FormatError;
use sigindex::engine::{FetchError, FetchOutcome};
use sigindex::fetch::{
    build_request_body, decode_fetch_body, decode_signature_fields, outcome_of_envelope,
    read_envelope, Envelope, RawTx,
};

#[test]
fn request_body_is_the_fixed_envelope() {
    let body = build_request_body(1);
    assert_eq!(
        String::from_utf8(body).unwrap(),
        "{\"jsonrpc\":\"2.0\",\"method\":\"eth_getBlockByNumber\",\"params\":[\"0x1\",true],\"id\":1}"
    );
}

#[test]
fn request_body_height_zero_is_minimal_hex() {
    let body = String::from_utf8(build_request_body(0)).unwrap();
    assert!(body.contains("\"params\":[\"0x0\",true]"));
}

#[test]
fn request_body_strips_leading_zero_nibbles() {
    let body = String::from_utf8(build_request_body(0x1b4)).unwrap();
    assert!(body.contains("\"params\":[\"0x1b4\",true]"));
}

#[test]
fn null_result_means_not_ready() {
    assert!(matches!(
        decode_fetch_body("{\"jsonrpc\":\"2.0\",\"result\":null,\"id\":1}"),
        FetchOutcome::NotReady
    ));
}

#[test]
fn absent_result_means_not_ready() {
    assert!(matches!(decode_fetch_body("{}"), FetchOutcome::NotReady));
}

#[test]
fn block_with_transactions_decodes() {
    let body = "{\"result\":{\"transactions\":[{\"from\":\"0xf39fd6e51aad88f6f4ce6ab8827279cfffb92266\",\"hash\":\"0xdeadbeef\",\"r\":\"0xabc\",\"s\":\"0x1234\",\"v\":\"0x1b\",\"gas\":\"0x5208\"}]}}";
    match decode_fetch_body(body) {
        FetchOutcome::Block(txs) => {
            assert_eq!(txs.len(), 1);
            assert_eq!(txs[0].from, "0xf39fd6e51aad88f6f4ce6ab8827279cfffb92266");
            assert_eq!(txs[0].hash, "0xdeadbeef");
            assert_eq!(txs[0].r, vec![0x0a, 0xbc]);
            assert_eq!(txs[0].s, vec![0x12, 0x34]);
            assert_eq!(txs[0].v, 27);
        }
        _ => panic!("expected a decoded block"),
    }
}

#[test]
fn empty_transaction_list_is_an_empty_block() {
    match decode_fetch_body("{\"result\":{\"transactions\":[]}}") {
        FetchOutcome::Block(txs) => assert!(txs.is_empty()),
        _ => panic!("expected an empty block"),
    }
}

#[test]
fn invalid_json_is_malformed() {
    assert!(matches!(
        decode_fetch_body("not json at all"),
        FetchOutcome::Failed(FetchError::Malformed)
    ));
}

#[test]
fn non_object_body_is_malformed_not_not_ready() {
    for body in ["\"hello\"", "42", "[1,2,3]", "null", "true"] {
        assert!(matches!(
            decode_fetch_body(body),
            FetchOutcome::Failed(FetchError::Malformed)
        ));
    }
}

#[test]
fn envelope_of_a_block_carries_the_raw_strings() {
    let body = "{\"result\":{\"transactions\":[{\"from\":\"0xa\",\"hash\":\"0xb\",\"r\":\"0xc\",\"s\":\"0xd\",\"v\":\"0x1b\"}]}}";
    match read_envelope(body) {
        Envelope::Block(raws) => {
            assert_eq!(raws.len(), 1);
            assert_eq!(raws[0].from, "0xa");
            assert_eq!(raws[0].hash, "0xb");
            assert_eq!(raws[0].r, "0xc");
            assert_eq!(raws[0].s, "0xd");
            assert_eq!(raws[0].v, "0x1b");
        }
        _ => panic!("expected a block envelope"),
    }
    assert!(matches!(read_envelope("{\"result\":null}"), Envelope::Absent));
    assert!(matches!(read_envelope("{}"), Envelope::Absent));
    assert!(matches!(read_envelope("[]"), Envelope::Invalid));
}

#[test]
fn outcome_of_envelope_is_exact() {
    assert!(matches!(
        outcome_of_envelope(&Envelope::Invalid),
        FetchOutcome::Failed(FetchError::Malformed)
    ));
    assert!(matches!(
        outcome_of_envelope(&Envelope::Absent),
        FetchOutcome::NotReady
    ));
    let good = RawTx {
        from: "0xa".to_string(),
        hash: "0xb".to_string(),
        r: "0xabc".to_string(),
        s: "0x22".to_string(),
        v: "0x1b".to_string(),
    };
    match outcome_of_envelope(&Envelope::Block(vec![good])) {
        FetchOutcome::Block(txs) => {
            assert_eq!(txs.len(), 1);
            assert_eq!(txs[0].r, vec![0x0a, 0xbc]);
            assert_eq!(txs[0].s, vec![0x22]);
            assert_eq!(txs[0].v, 27);
        }
        _ => panic!("expected a decoded block"),
    }
    let bad = RawTx {
        from: "0xa".to_string(),
        hash: "0xb".to_string(),
        r: "0xzz".to_string(),
        s: "0x22".to_string(),
        v: "0x1b".to_string(),
    };
    assert!(matches!(
        outcome_of_envelope(&Envelope::Block(vec![bad])),
        FetchOutcome::Failed(FetchError::Malformed)
    ));
}

#[test]
fn result_without_transactions_is_malformed() {
    assert!(matches!(
        decode_fetch_body("{\"result\":{\"number\":\"0x1\"}}"),
        FetchOutcome::Failed(FetchError::Malformed)
    ));
}

#[test]
fn bad_hex_in_one_transaction_fails_the_whole_block() {
    let body = "{\"result\":{\"transactions\":[{\"from\":\"0xa\",\"hash\":\"0xb\",\"r\":\"0xzz\",\"s\":\"0x12\",\"v\":\"0x1b\"}]}}";
    assert!(matches!(
        decode_fetch_body(body),
        FetchOutcome::Failed(FetchError::Malformed)
    ));
}

#[test]
fn numeric_v_field_is_malformed() {
    let body = "{\"result\":{\"transactions\":[{\"from\":\"0xa\",\"hash\":\"0xb\",\"r\":\"0x12\",\"s\":\"0x34\",\"v\":27}]}}";
    assert!(matches!(
        decode_fetch_body(body),
        FetchOutcome::Failed(FetchError::Malformed)
    ));
}

#[test]
fn signature_fields_decode_exactly() {
    let tx = decode_signature_fields(
        "0xsender".to_string(),
        "0xhash".to_string(),
        "0xabc".as_bytes(),
        "0x22".as_bytes(),
        "0x1b".as_bytes(),
    )
    .unwrap();
    assert_eq!(tx.from, "0xsender");
    assert_eq!(tx.hash, "0xhash");
    assert_eq!(tx.r, vec![0x0a, 0xbc]);
    assert_eq!(tx.s, vec![0x22]);
    assert_eq!(tx.v, 27);
}

#[test]
fn signature_fields_report_the_failing_field() {
    let err = decode_signature_fields(
        "a".to_string(),
        "b".to_string(),
        "0x12".as_bytes(),
        "0x34".as_bytes(),
        "0x".as_bytes(),
    )
    .unwrap_err();
    assert_eq!(err, FormatError::Empty);
    let err = decode_signature_fields(
        "a".to_string(),
        "b".to_string(),
        "0xq".as_bytes(),
        "0x34".as_bytes(),
        "0x1b".as_bytes(),
    )
    .unwrap_err();
    assert_eq!(err, FormatError::NonHexDigit);
}
