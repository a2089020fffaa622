use kaspa_miner::stratum::protocol::{
    authorize_msg, extranonce_to_mask, handle_server_msg, json_render, submit_msg, subscribe_msg,
    ExtranonceError, HexError, JsonNumber, JsonValue, ProtocolError, Request, Response,
    ServerAction, Work,
};

const PRE: &str = "0102030405060708090a0b0c0d0e0f101112131415161718191a1b1c1d1e1f20";
/// Timestamp 0x1a2b in little-endian order.
const STAMP: &str = "2b1a000000000000";
const TARGET: [u64; 4] = [1, 2, 3, 4];

fn strs(items: &[&str]) -> JsonValue {
    JsonValue::Array(items.iter().map(|s| JsonValue::Str(s.to_string())).collect())
}

#[test]
fn subscribe_message_is_one_json_line() {
    assert_eq!(
        subscribe_msg("kaspa-miner/1.0.0"),
        "{\"id\":1,\"method\":\"mining.subscribe\",\"params\":[\"kaspa-miner/1.0.0\"]}\n"
    );
}

#[test]
fn strings_in_messages_are_json_escaped() {
    assert_eq!(
        subscribe_msg("a\"b\\c\nd\u{1}"),
        "{\"id\":1,\"method\":\"mining.subscribe\",\"params\":[\"a\\\"b\\\\c\\nd\\u0001\"]}\n"
    );
}

#[test]
fn authorize_message_logs_in_as_wallet_dot_worker() {
    assert_eq!(
        authorize_msg("kaspa:qabc", "rig-01"),
        "{\"id\":2,\"method\":\"mining.authorize\",\"params\":[\"kaspa:qabc.rig-01\",\"x\"]}\n"
    );
}

#[test]
fn submit_message_carries_sixteen_hex_digits() {
    assert_eq!(
        submit_msg(11, "kaspa:qabc.rig", "job7", 0xabc),
        "{\"id\":11,\"method\":\"mining.submit\",\"params\":[\"kaspa:qabc.rig\",\"job7\",\"0000000000000abc\"]}\n"
    );
    assert_eq!(
        submit_msg(18446744073709551615, "w", "j", u64::MAX),
        "{\"id\":18446744073709551615,\"method\":\"mining.submit\",\"params\":[\"w\",\"j\",\"ffffffffffffffff\"]}\n"
    );
}

#[test]
fn request_without_id_or_params() {
    let r = Request { id: None, method: "ping".to_string(), params: vec![] };
    assert_eq!(r.to_line(), "{\"id\":null,\"method\":\"ping\",\"params\":[]}\n");
}

fn header() -> String {
    format!("{PRE}{STAMP}")
}

fn number(text: &str, unsigned: Option<u64>) -> JsonValue {
    JsonValue::Number(JsonNumber { text: text.to_string(), unsigned })
}

#[test]
fn notify_decodes_a_job() {
    let work = Work::from_notify(&strs(&["job1", &header()]), TARGET, 0, u64::MAX).unwrap();
    assert_eq!(work.job_id, "job1");
    assert_eq!(work.pre_pow_hash[0], 1);
    assert_eq!(work.pre_pow_hash[31], 0x20);
    assert_eq!(work.timestamp, 0x1a2b);
    assert_eq!(work.target, TARGET);
    assert_eq!(work.nonce_fixed, 0);
    assert_eq!(work.nonce_mask, u64::MAX);
}

#[test]
fn notify_reads_the_documented_two_parameter_payload() {
    let h = format!("{}0100000000000000", "11".repeat(32));
    let work = Work::from_notify(&strs(&["job1", &h]), TARGET, 7, 0xff).unwrap();
    assert_eq!(work.job_id, "job1");
    assert_eq!(work.pre_pow_hash, [0x11u8; 32]);
    assert_eq!(work.timestamp, 1);
    assert_eq!(work.nonce_fixed, 7);
    assert_eq!(work.nonce_mask, 0xff);
}

#[test]
fn notify_strips_0x_prefixes_and_ignores_extra_params() {
    let h = format!("0x0x{}", header());
    let work = Work::from_notify(&strs(&["j", &h, "extra"]), TARGET, 0, u64::MAX).unwrap();
    assert_eq!(work.pre_pow_hash[1], 2);
    assert_eq!(work.timestamp, 0x1a2b);
}

#[test]
fn notify_errors() {
    assert!(matches!(
        Work::from_notify(&JsonValue::Object(vec![]), TARGET, 0, u64::MAX),
        Err(ProtocolError::ParamsNotArray)
    ));
    assert!(matches!(
        Work::from_notify(&strs(&["a"]), TARGET, 0, u64::MAX),
        Err(ProtocolError::TooFewParams(1))
    ));
    let no_job = JsonValue::Array(vec![number("5", Some(5)), JsonValue::Str(header())]);
    assert!(matches!(Work::from_notify(&no_job, TARGET, 0, u64::MAX), Err(ProtocolError::BadJobId)));
    assert!(matches!(
        Work::from_notify(&strs(&["a", "xyz1"]), TARGET, 0, u64::MAX),
        Err(ProtocolError::InvalidHex(_))
    ));
    assert!(matches!(
        Work::from_notify(&strs(&["a", PRE]), TARGET, 0, u64::MAX),
        Err(ProtocolError::WrongLength(32))
    ));
    let missing = JsonValue::Array(vec![JsonValue::Str("a".into()), JsonValue::Null]);
    assert!(matches!(
        Work::from_notify(&missing, TARGET, 0, u64::MAX),
        Err(ProtocolError::WrongLength(0))
    ));
}

#[test]
fn protocol_error_messages() {
    assert_eq!(ProtocolError::ParamsNotArray.message(), "notify params not array");
    assert_eq!(ProtocolError::TooFewParams(1).message(), "notify: expected ≥2 params, got 1");
    assert_eq!(ProtocolError::BadJobId.message(), "bad job_id");
    assert_eq!(
        ProtocolError::WrongLength(31).message(),
        "expected 40-byte header hash, got 31 bytes"
    );
    match Work::from_notify(&strs(&["a", "123"]), TARGET, 0, u64::MAX) {
        Err(e) => assert_eq!(e.message(), "Odd number of digits"),
        Ok(_) => panic!("odd hex accepted"),
    }
}

#[test]
fn extranonce_prefix_fills_the_top_bytes() {
    assert_eq!(extranonce_to_mask("abcd", Some(6)).unwrap(), (0xabcd << 48, (1u64 << 48) - 1));
    assert_eq!(extranonce_to_mask("abcd", None).unwrap(), (0xabcd << 48, (1u64 << 48) - 1));
    assert_eq!(extranonce_to_mask("01", None).unwrap(), (1u64 << 56, (1u64 << 56) - 1));
    assert_eq!(extranonce_to_mask("", None).unwrap(), (0, u64::MAX));
    assert_eq!(extranonce_to_mask("", Some(8)).unwrap(), (0, u64::MAX));
    assert_eq!(
        extranonce_to_mask("00112233445566", Some(1)).unwrap(),
        (0x0011_2233_4455_6600, 0xff)
    );
}

#[test]
fn extranonce_errors() {
    assert!(matches!(extranonce_to_mask("abc", None), Err(ExtranonceError::InvalidHex(_))));
    assert!(matches!(extranonce_to_mask("zz", None), Err(ExtranonceError::InvalidHex(_))));
    assert!(matches!(
        extranonce_to_mask("0011223344556677", None),
        Err(ExtranonceError::TooLong(8))
    ));
    assert!(matches!(
        extranonce_to_mask("abcd", Some(4)),
        Err(ExtranonceError::SizeMismatch { prefix_bytes: 2, nonce_size: 4 })
    ));
    assert!(matches!(
        extranonce_to_mask("abcd", Some(u64::MAX)),
        Err(ExtranonceError::SizeMismatch { prefix_bytes: 2, nonce_size: u64::MAX })
    ));
    assert_eq!(
        ExtranonceError::TooLong(8).message(),
        "extranonce of 8 bytes leaves no nonce bytes"
    );
    assert_eq!(
        ExtranonceError::SizeMismatch { prefix_bytes: 2, nonce_size: 4 }.message(),
        "extranonce of 2 bytes and nonce size 4 do not make 8 bytes"
    );
}

#[test]
fn prefixed_nonces_keep_the_pool_bits() {
    let (fixed, mask) = extranonce_to_mask("abcd", Some(6)).unwrap();
    for n in [0u64, 1, 0x1234_5678_9abc_def0, u64::MAX] {
        let nonce = (n & mask) | fixed;
        assert_eq!(nonce >> 48, 0xabcd);
        assert_eq!(nonce & mask, n & mask);
    }
}

fn reply(id: Option<u64>, result: Option<JsonValue>, error: Option<JsonValue>) -> Response {
    Response { id, result, error, method: None, params: None }
}

fn push(method: &str, params: Option<JsonValue>) -> Response {
    Response { id: None, result: None, error: None, method: Some(method.into()), params }
}

#[test]
fn server_messages_are_classified() {
    let notify = push("mining.notify", Some(strs(&["j9", &header()])));
    match handle_server_msg(&notify, TARGET, 5, 6) {
        ServerAction::NewWork(w) => {
            assert_eq!(w.job_id, "j9");
            assert_eq!(w.target, TARGET);
            assert_eq!((w.nonce_fixed, w.nonce_mask), (5, 6));
        }
        other => panic!("unexpected {other:?}"),
    }
    let bad = push("mining.notify", Some(strs(&["j9"])));
    assert!(matches!(
        handle_server_msg(&bad, TARGET, 0, u64::MAX),
        ServerAction::BadNotify(ProtocolError::TooFewParams(1))
    ));
    assert!(matches!(handle_server_msg(&push("mining.notify", None), TARGET, 0, 0), ServerAction::Ignore));

    match handle_server_msg(&reply(Some(10), None, Some(JsonValue::Str("low difficulty".into()))), TARGET, 0, 0) {
        ServerAction::ShareRejected(reason) => assert_eq!(reason, "\"low difficulty\""),
        other => panic!("unexpected {other:?}"),
    }
    assert!(matches!(
        handle_server_msg(&reply(Some(12), Some(JsonValue::Bool(true)), Some(JsonValue::Null)), TARGET, 0, 0),
        ServerAction::ShareAccepted
    ));
    assert!(matches!(
        handle_server_msg(&reply(Some(12), Some(JsonValue::Bool(false)), None), TARGET, 0, 0),
        ServerAction::Ignore
    ));
    assert!(matches!(
        handle_server_msg(&reply(Some(2), Some(JsonValue::Bool(true)), None), TARGET, 0, 0),
        ServerAction::Ignore
    ));
    assert!(matches!(
        handle_server_msg(&reply(None, Some(JsonValue::Bool(true)), None), TARGET, 0, 0),
        ServerAction::Ignore
    ));
    assert!(matches!(handle_server_msg(&push("mining.ping", None), TARGET, 0, 0), ServerAction::Ignore));
}

#[test]
fn set_difficulty_carries_the_number() {
    let msg = push("mining.set_difficulty", Some(JsonValue::Array(vec![number("4096.5", None)])));
    match handle_server_msg(&msg, TARGET, 0, u64::MAX) {
        ServerAction::SetDifficulty(text) => assert_eq!(text, "4096.5"),
        other => panic!("unexpected {other:?}"),
    }
    let not_number = push("mining.set_difficulty", Some(strs(&["2"])));
    assert!(matches!(handle_server_msg(&not_number, TARGET, 0, 0), ServerAction::Ignore));
    let empty = push("mining.set_difficulty", Some(JsonValue::Array(vec![])));
    assert!(matches!(handle_server_msg(&empty, TARGET, 0, 0), ServerAction::Ignore));
}

#[test]
fn set_extranonce_sets_the_prefix() {
    let msg = push(
        "mining.set_extranonce",
        Some(JsonValue::Array(vec![JsonValue::Str("abcd".into()), number("6", Some(6))])),
    );
    match handle_server_msg(&msg, TARGET, 0, u64::MAX) {
        ServerAction::SetExtranonce { prefix, fixed, mask } => {
            assert_eq!(prefix, "abcd");
            assert_eq!(fixed, 0xabcd << 48);
            assert_eq!(mask, (1u64 << 48) - 1);
        }
        other => panic!("unexpected {other:?}"),
    }
    let short = push("set_extranonce", Some(strs(&["01"])));
    match handle_server_msg(&short, TARGET, 0, u64::MAX) {
        ServerAction::SetExtranonce { fixed, mask, .. } => {
            assert_eq!((fixed, mask), (1u64 << 56, (1u64 << 56) - 1));
        }
        other => panic!("unexpected {other:?}"),
    }
    let bad = push(
        "mining.set_extranonce",
        Some(JsonValue::Array(vec![JsonValue::Str("abcd".into()), number("4", Some(4))])),
    );
    assert!(matches!(
        handle_server_msg(&bad, TARGET, 0, 0),
        ServerAction::BadExtranonce(ExtranonceError::SizeMismatch { prefix_bytes: 2, nonce_size: 4 })
    ));
    let not_array = push("mining.set_extranonce", Some(JsonValue::Object(vec![])));
    assert!(matches!(handle_server_msg(&not_array, TARGET, 0, 0), ServerAction::Ignore));
}

#[test]
fn rejection_reason_is_the_error_as_compact_json() {
    let error = JsonValue::Array(vec![
        number("23", Some(23)),
        JsonValue::Str("Low difficulty share".into()),
        JsonValue::Null,
    ]);
    match handle_server_msg(&reply(Some(12), None, Some(error)), TARGET, 0, 0) {
        ServerAction::ShareRejected(reason) => {
            assert_eq!(reason, r#"[23,"Low difficulty share",null]"#)
        }
        other => panic!("unexpected {other:?}"),
    }
}

#[test]
fn json_values_render_compactly() {
    let v = JsonValue::Object(vec![
        ("code".into(), number("-1", None)),
        ("data".into(), JsonValue::Array(vec![JsonValue::Bool(true), JsonValue::Bool(false)])),
        ("msg".into(), JsonValue::Str("a\"b\n".into())),
        ("nested".into(), JsonValue::Object(vec![])),
        ("x".into(), JsonValue::Array(vec![])),
    ]);
    assert_eq!(
        json_render(&v),
        r#"{"code":-1,"data":[true,false],"msg":"a\"b\n","nested":{},"x":[]}"#
    );
    assert_eq!(json_render(&JsonValue::Null), "null");
    assert_eq!(json_render(&number("1.5", None)), "1.5");
}

#[test]
fn hex_errors_name_the_first_bad_byte() {
    match Work::from_notify(&strs(&["a", "0x12zz"]), TARGET, 0, u64::MAX) {
        Err(ProtocolError::InvalidHex(e)) => {
            assert_eq!(e, HexError::InvalidHexCharacter { c: 'z', index: 2 });
            assert_eq!(
                ProtocolError::InvalidHex(e).message(),
                "Invalid character 'z' at position 2"
            );
        }
        other => panic!("unexpected {:?}", other.map(|w| w.job_id)),
    }
    match extranonce_to_mask("ab\ncd0", None) {
        Err(ExtranonceError::InvalidHex(e)) => {
            assert_eq!(e, HexError::InvalidHexCharacter { c: '\n', index: 2 });
            assert_eq!(
                ExtranonceError::InvalidHex(e).message(),
                "Invalid character '\\n' at position 2"
            );
        }
        other => panic!("unexpected {other:?}"),
    }
    match extranonce_to_mask("abc", None) {
        Err(ExtranonceError::InvalidHex(e)) => {
            assert_eq!(e, HexError::OddLength);
            assert_eq!(ExtranonceError::InvalidHex(e).message(), "Odd number of digits");
        }
        other => panic!("unexpected {other:?}"),
    }
}

#[test]
fn hex_error_text_matches_the_hex_crate() {
    for b in 0u8..=255 {
        if b.is_ascii_hexdigit() {
            continue;
        }
        let c = b as char;
        let text: String = ['0', 'a', c, 'f'].iter().collect();
        let expected = hex::decode(&text).unwrap_err().to_string();
        match extranonce_to_mask(&text, None) {
            Err(e) => assert_eq!(e.message(), expected),
            Ok(_) => panic!("{text:?} accepted"),
        }
    }
}

fn from_serde(v: &serde_json::Value) -> JsonValue {
    match v {
        serde_json::Value::Null => JsonValue::Null,
        serde_json::Value::Bool(b) => JsonValue::Bool(*b),
        serde_json::Value::Number(n) => number(&serde_json::Value::Number(n.clone()).to_string(), n.as_u64()),
        serde_json::Value::String(s) => JsonValue::Str(s.clone()),
        serde_json::Value::Array(a) => JsonValue::Array(a.iter().map(from_serde).collect()),
        serde_json::Value::Object(m) => {
            JsonValue::Object(m.iter().map(|(k, v)| (k.clone(), from_serde(v))).collect())
        }
    }
}

#[test]
fn rendering_agrees_with_serde_json() {
    let texts = [
        r#"[23,"Low difficulty share",null]"#,
        r#"{"code":-32601,"message":"Method \"x\" not found","data":{"b":[1.5,true],"a":"\u0001\n"}}"#,
        r#"[[],{},"",0,-0.25,18446744073709551615,1e300]"#,
    ];
    for text in texts {
        let v: serde_json::Value = serde_json::from_str(text).unwrap();
        assert_eq!(json_render(&from_serde(&v)), v.to_string());
    }
}
