use sentinella::amsi_provider::client::{
    announced_length, build_request, length_prefix, parse_response, scan_once, scan_with_secret_file, send, usable_secret,
    reply_fields, verdict_from_fields, PipeEvent, ReplyFields, ScanExchange, MAX_FRAME,
};
use sentinella::amsi_provider::decision::DaemonVerdict;

#[test]
fn request_is_well_formed_jsonrpc() {
    let body = build_request("Write-Host hi", "powershell", "powershell.exe", "script", 1234, Some("s".repeat(32).as_str()));
    let v: serde_json::Value = serde_json::from_slice(&body).unwrap();
    assert_eq!(v["jsonrpc"], "2.0");
    assert_eq!(v["method"], "runtime.scan_buffer");
    assert_eq!(v["params"]["content"], "Write-Host hi");
    assert_eq!(v["params"]["language"], "powershell");
    assert_eq!(v["params"]["source_pid"], 1234);
    assert!(v["params"]["auth"].is_string());
}

#[test]
fn request_without_auth_omits_field() {
    let body = build_request("x", "other", "a.exe", "n", 0, None);
    let v: serde_json::Value = serde_json::from_slice(&body).unwrap();
    assert!(v["params"].get("auth").is_none());
}

#[test]
fn parse_block_result() {
    let raw = br#"{"jsonrpc":"2.0","id":1,"result":{"ok":true,"score":90,"should_block":true}}"#;
    let d = parse_response(raw).unwrap();
    assert!(d.should_block);
    assert_eq!(d.score, 90);
}

#[test]
fn parse_clean_result() {
    let raw = br#"{"jsonrpc":"2.0","id":1,"result":{"ok":true,"score":5,"should_block":false}}"#;
    let d = parse_response(raw).unwrap();
    assert!(!d.should_block);
}

#[test]
fn parse_rpc_error_is_none() {
    let raw = br#"{"jsonrpc":"2.0","id":1,"error":{"code":-32600,"message":"bad"}}"#;
    assert!(parse_response(raw).is_none());
}

#[test]
fn parse_ok_false_is_none() {
    let raw = br#"{"result":{"ok":false,"error":"empty content"}}"#;
    assert!(parse_response(raw).is_none());
}

#[test]
fn parse_garbage_is_none() {
    assert!(parse_response(b"not json").is_none());
}

#[test]
fn a_request_holds_exactly_its_fields() {
    let body = build_request("c\"\\\n☃", "l", "a", "n", u32::MAX, Some("secret"));
    assert_eq!(
        String::from_utf8(body).unwrap(),
        "{\"id\":1,\"jsonrpc\":\"2.0\",\"method\":\"runtime.scan_buffer\",\"params\":{\"auth\":\"secret\",\"content\":\"c\\\"\\\\\\n☃\",\"content_name\":\"n\",\"language\":\"l\",\"source_app\":\"a\",\"source_pid\":4294967295}}"
    );
}

#[test]
fn a_reply_without_result_is_its_own_payload() {
    let d = parse_response(br#"{"ok":true,"score":7,"should_block":true}"#);
    assert_eq!(d, Some(DaemonVerdict { score: 7, should_block: true }));
}

#[test]
fn missing_fields_do_not_block() {
    assert_eq!(
        parse_response(br#"{"result":{}}"#),
        Some(DaemonVerdict { score: 0, should_block: false })
    );
    assert_eq!(
        parse_response(br#"[1,2]"#),
        Some(DaemonVerdict { score: 0, should_block: false })
    );
}

#[test]
fn fields_of_other_types_do_not_count() {
    let raw = br#"{"result":{"ok":"no","score":-3,"should_block":"yes"}}"#;
    assert_eq!(parse_response(raw), Some(DaemonVerdict { score: 0, should_block: false }));
    let raw = br#"{"result":{"score":2.5,"should_block":1}}"#;
    assert_eq!(parse_response(raw), Some(DaemonVerdict { score: 0, should_block: false }));
}

#[test]
fn a_null_error_is_an_error() {
    let raw = br#"{"error":null,"result":{"should_block":true}}"#;
    assert_eq!(parse_response(raw), None);
}

#[test]
fn a_large_score_keeps_its_low_bits() {
    let raw = br#"{"result":{"score":4294967301}}"#;
    assert_eq!(parse_response(raw), Some(DaemonVerdict { score: 5, should_block: false }));
}

#[test]
fn fields_are_read_from_a_value() {
    let v: serde_json::Value =
        serde_json::from_slice(br#"{"result":{"ok":true,"score":3,"should_block":false}}"#).unwrap();
    assert_eq!(
        reply_fields(&v),
        ReplyFields { has_error: false, ok: Some(true), should_block: Some(false), score: Some(3) }
    );
}

#[test]
fn verdicts_follow_the_fields() {
    let all = ReplyFields { has_error: false, ok: None, should_block: Some(true), score: Some(9) };
    assert_eq!(verdict_from_fields(all), Some(DaemonVerdict { score: 9, should_block: true }));
    assert_eq!(verdict_from_fields(ReplyFields { has_error: true, ..all }), None);
    assert_eq!(verdict_from_fields(ReplyFields { ok: Some(false), ..all }), None);
    assert_eq!(
        verdict_from_fields(ReplyFields { ok: Some(true), ..all }),
        Some(DaemonVerdict { score: 9, should_block: true })
    );
}

#[test]
fn length_prefixes_are_big_endian() {
    assert_eq!(length_prefix(0x01020304), vec![1, 2, 3, 4]);
    for n in [0u32, 1, 255, 256, 65536, MAX_FRAME as u32, u32::MAX] {
        assert_eq!(length_prefix(n), n.to_be_bytes().to_vec());
        assert_eq!(announced_length(&length_prefix(n)), n);
    }
}

#[test]
fn secrets_are_trimmed_and_have_a_length() {
    let good = "k".repeat(32);
    assert_eq!(usable_secret(&format!("  {good}\r\n")), Some(good.as_str()));
    assert_eq!(usable_secret(&"k".repeat(31)), None);
    assert_eq!(usable_secret(""), None);
    // Sixteen characters of two bytes each are long enough.
    let wide = "é".repeat(16);
    assert_eq!(usable_secret(&wide), Some(wide.as_str()));
}

fn reply(exchange: ScanExchange, body: &[u8]) -> ScanExchange {
    exchange
        .step(PipeEvent::Received(length_prefix(body.len() as u32)))
        .step(PipeEvent::Received(body.to_vec()))
}

#[test]
fn a_round_trip_sends_the_request_and_reads_the_verdict() {
    let request = build_request("x", "other", "a.exe", "n", 7, Some("secret"));
    let run = scan_once("x", "other", "a.exe", "n", 7, Some("secret"));
    match &run {
        ScanExchange::Open { body } => assert_eq!(body, &request),
        other => panic!("{other:?}"),
    }
    let run = run.step(PipeEvent::Completed);
    match &run {
        ScanExchange::WriteLength { length, body } => {
            assert_eq!(length, &(request.len() as u32).to_be_bytes().to_vec());
            assert_eq!(body, &request);
        }
        other => panic!("{other:?}"),
    }
    let run = run.step(PipeEvent::Completed);
    assert!(matches!(&run, ScanExchange::WriteBody { body } if body == &request));
    let run = run.step(PipeEvent::Completed);
    assert!(matches!(run, ScanExchange::Flush));
    let run = run.step(PipeEvent::Completed);
    assert!(matches!(run, ScanExchange::ReadLength));
    let done = reply(run, br#"{"result":{"ok":true,"score":90,"should_block":true}}"#);
    match done {
        ScanExchange::Done(v) => {
            assert_eq!(v, Some(DaemonVerdict { score: 90, should_block: true }))
        }
        other => panic!("{other:?}"),
    }
}

#[test]
fn a_failure_at_any_point_fails_open() {
    for completed in 0..4 {
        let mut run = scan_once("x", "other", "a.exe", "n", 7, Some("secret"));
        for _ in 0..completed {
            run = run.step(PipeEvent::Completed);
        }
        assert!(matches!(run.step(PipeEvent::Failed), ScanExchange::Done(None)));
    }
    assert!(matches!(ScanExchange::ReadLength.step(PipeEvent::Failed), ScanExchange::Done(None)));
    let reading = ScanExchange::ReadBody { len: 2 };
    assert!(matches!(reading.step(PipeEvent::Failed), ScanExchange::Done(None)));
}

#[test]
fn frames_have_a_size() {
    assert!(matches!(send(vec![]), ScanExchange::Done(None)));
    assert!(matches!(send(vec![0; MAX_FRAME + 1]), ScanExchange::Done(None)));
    assert!(matches!(send(vec![0; MAX_FRAME]), ScanExchange::Open { .. }));
    for announced in [0u32, MAX_FRAME as u32 + 1, u32::MAX] {
        let run = ScanExchange::ReadLength.step(PipeEvent::Received(length_prefix(announced)));
        assert!(matches!(run, ScanExchange::Done(None)));
    }
    let run = ScanExchange::ReadLength.step(PipeEvent::Received(length_prefix(MAX_FRAME as u32)));
    assert!(matches!(run, ScanExchange::ReadBody { len: MAX_FRAME }));
}

#[test]
fn too_large_a_request_never_reaches_the_pipe() {
    let run = scan_once(&"x".repeat(MAX_FRAME), "other", "a.exe", "n", 7, Some("secret"));
    assert!(matches!(run, ScanExchange::Done(None)));
}

#[test]
fn without_a_secret_a_scan_fails_open() {
    assert!(matches!(scan_once("x", "other", "a.exe", "n", 7, None), ScanExchange::Done(None)));
    let short = "k".repeat(31);
    for file in [None, Some(""), Some("  \n"), Some(short.as_str())] {
        let run = scan_with_secret_file("x", "other", "a.exe", "n", 7, file);
        assert!(matches!(run, ScanExchange::Done(None)));
    }
}

#[test]
fn a_request_carries_the_trimmed_secret() {
    let secret = "k".repeat(32);
    let file = format!(" {secret}\r\n");
    match scan_with_secret_file("x", "other", "a.exe", "n", 7, Some(&file)) {
        ScanExchange::Open { body } => {
            assert_eq!(body, build_request("x", "other", "a.exe", "n", 7, Some(&secret)))
        }
        other => panic!("{other:?}"),
    }
}
