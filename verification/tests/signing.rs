//! Canonical serialization and envelope authentication, run against the
//! real HMAC, SHA-256, hex, and constant-time comparison crates.

use sentient_core::json::{
    canonical_parameters_json, json_canon_eq, json_eq, json_pointer, JsonValue,
};
use sentient_core::protocol::{CommandAction, SafetyClass};
use sentient_core::signing::{
    hmac_sha256_hex, sign_command_hmac_sha256, signing_string, u64_to_dec, uuid_hyphenated,
    verify_command_hmac_sha256,
};

fn obj(pairs: Vec<(&str, JsonValue)>) -> JsonValue {
    JsonValue::Obj(pairs.into_iter().map(|(k, v)| (k.to_string(), v)).collect())
}

fn envelope(params: JsonValue) -> sentient_core::protocol::CommandEnvelope {
    sentient_core::protocol::CommandEnvelope {
        schema: "v8".to_string(),
        room_id: "room1".to_string(),
        device_id: "door1".to_string(),
        command_id: 0x0123_4567_89ab_cdef_0123_4567_89ab_cdef,
        correlation_id: 7,
        sequence: 42,
        issued_at_unix_ms: 1_700_000_000_000,
        action: CommandAction::Open,
        parameters: params,
        safety_class: SafetyClass::NonCritical,
        auth: None,
    }
}

#[test]
fn canonical_json_sorts_object_keys() {
    let v = obj(vec![
        ("b", JsonValue::Num("1".to_string())),
        ("a", JsonValue::Num("2".to_string())),
    ]);
    assert_eq!(canonical_parameters_json(&v), "{\"a\":2,\"b\":1}");
}

#[test]
fn canonical_json_is_stable_under_reordering() {
    let v1 = obj(vec![
        ("outer", obj(vec![
            ("y", JsonValue::Bool(true)),
            ("x", JsonValue::Null),
        ])),
        ("alpha", JsonValue::Str("s".to_string())),
    ]);
    let v2 = obj(vec![
        ("alpha", JsonValue::Str("s".to_string())),
        ("outer", obj(vec![
            ("x", JsonValue::Null),
            ("y", JsonValue::Bool(true)),
        ])),
    ]);
    let c1 = canonical_parameters_json(&v1);
    let c2 = canonical_parameters_json(&v2);
    assert_eq!(c1, c2);
    assert_eq!(c1, "{\"alpha\":\"s\",\"outer\":{\"x\":null,\"y\":true}}");
    // two independent canonicalizations of the same value are identical
    assert_eq!(canonical_parameters_json(&v1), canonical_parameters_json(&v1));
    assert!(json_canon_eq(&v1, &v2));
    assert!(!json_eq(&v1, &v2));
}

#[test]
fn canonical_json_keeps_array_order_and_escapes() {
    let v = obj(vec![(
        "list",
        JsonValue::Arr(vec![
            JsonValue::Str("b\"x\\y\n".to_string()),
            JsonValue::Num("3".to_string()),
        ]),
    )]);
    assert_eq!(
        canonical_parameters_json(&v),
        "{\"list\":[\"b\\\"x\\\\y\\n\",3]}"
    );
}

#[test]
fn uuid_and_decimal_rendering() {
    assert_eq!(
        uuid_hyphenated(0x0123_4567_89ab_cdef_0123_4567_89ab_cdef),
        "01234567-89ab-cdef-0123-456789abcdef"
    );
    assert_eq!(uuid_hyphenated(0), "00000000-0000-0000-0000-000000000000");
    assert_eq!(u64_to_dec(0), "0");
    assert_eq!(u64_to_dec(18_446_744_073_709_551_615), "18446744073709551615");
}

#[test]
fn signing_string_has_fixed_field_order() {
    let cmd = envelope(obj(vec![("k", JsonValue::Num("1".to_string()))]));
    let s = signing_string(&cmd);
    assert_eq!(
        s,
        "schema=v8\nroom_id=room1\ndevice_id=door1\n\
         command_id=01234567-89ab-cdef-0123-456789abcdef\n\
         correlation_id=00000000-0000-0000-0000-000000000007\n\
         sequence=42\nissued_at_unix_ms=1700000000000\n\
         action=OPEN\nsafety_class=NON_CRITICAL\nparameters={\"k\":1}"
    );
}

#[test]
fn hmac_matches_known_test_vector() {
    // RFC 4231 test case 2.
    let tag = hmac_sha256_hex(b"Jefe", "what do ya want for nothing?");
    assert_eq!(
        tag,
        "5bdcc146bf60754e6a042426089575c75a003f089d2739839dec58b964ec3843"
    );
}

#[test]
fn sign_then_verify_succeeds_and_wrong_key_fails() {
    let mut cmd = envelope(obj(vec![
        ("pos", JsonValue::Str("OPEN".to_string())),
        ("force", JsonValue::Num("2".to_string())),
    ]));
    let key = b"0123456789abcdef";
    sign_command_hmac_sha256(&mut cmd, key, None);
    assert!(cmd.auth.is_some());
    assert_eq!(cmd.auth.as_ref().unwrap().alg, "HMAC-SHA256");
    assert!(verify_command_hmac_sha256(&cmd, key));
    assert!(!verify_command_hmac_sha256(&cmd, b"another-key"));

    // signatures are portable across member order of the parameters
    let mut reordered = envelope(obj(vec![
        ("force", JsonValue::Num("2".to_string())),
        ("pos", JsonValue::Str("OPEN".to_string())),
    ]));
    reordered.auth = cmd.auth.clone();
    assert!(verify_command_hmac_sha256(&reordered, key));
}

#[test]
fn verify_rejects_missing_or_foreign_auth() {
    let cmd = envelope(JsonValue::Null);
    assert!(!verify_command_hmac_sha256(&cmd, b"k"));
    let mut cmd2 = envelope(JsonValue::Null);
    cmd2.auth = Some(sentient_core::protocol::CommandAuth {
        alg: "NONE".to_string(),
        kid: None,
        mac_hex: String::new(),
    });
    assert!(!verify_command_hmac_sha256(&cmd2, b"k"));
}

#[test]
fn json_pointer_walks_objects() {
    let v = obj(vec![
        ("position", JsonValue::Str("OPEN".to_string())),
        ("sensor", obj(vec![("open", JsonValue::Bool(true))])),
    ]);
    match json_pointer(&v, "/position") {
        Some(JsonValue::Str(s)) => assert_eq!(s, "OPEN"),
        _ => panic!("expected the position member"),
    }
    match json_pointer(&v, "/sensor/open") {
        Some(JsonValue::Bool(b)) => assert!(*b),
        _ => panic!("expected the nested member"),
    }
    assert!(json_pointer(&v, "/missing").is_none());
    assert!(json_pointer(&v, "position").is_none());
    assert!(json_pointer(&v, "").is_some());
}

#[test]
fn json_pointer_indexes_arrays_and_decodes_escapes() {
    let v = obj(vec![
        ("items", JsonValue::Arr(vec![
            JsonValue::Num("10".to_string()),
            obj(vec![("x", JsonValue::Num("7".to_string()))]),
        ])),
        ("a/b", JsonValue::Bool(true)),
        ("c~d", JsonValue::Bool(false)),
    ]);
    match json_pointer(&v, "/items/0") {
        Some(JsonValue::Num(s)) => assert_eq!(s, "10"),
        _ => panic!("expected the first element"),
    }
    match json_pointer(&v, "/items/1/x") {
        Some(JsonValue::Num(s)) => assert_eq!(s, "7"),
        _ => panic!("expected the nested member"),
    }
    // a zero-padded index still counts
    assert!(json_pointer(&v, "/items/01").is_some());
    assert!(json_pointer(&v, "/items/2").is_none());
    assert!(json_pointer(&v, "/items/x").is_none());
    // RFC 6901 escapes: ~1 is a slash, ~0 a tilde
    match json_pointer(&v, "/a~1b") {
        Some(JsonValue::Bool(b)) => assert!(*b),
        _ => panic!("expected the slash-keyed member"),
    }
    match json_pointer(&v, "/c~0d") {
        Some(JsonValue::Bool(b)) => assert!(!*b),
        _ => panic!("expected the tilde-keyed member"),
    }
}
