use hush::settings_codec::{decode_bool, encode_bool};

#[test]
fn encode_bool_returns_canonical_literals() {
    assert_eq!(encode_bool(true), "true");
    assert_eq!(encode_bool(false), "false");
}

#[test]
fn decode_bool_round_trips_canonical_literals() {
    assert_eq!(decode_bool(Some("true")), Some(true));
    assert_eq!(decode_bool(Some("false")), Some(false));
}

#[test]
fn decode_bool_rejects_non_canonical_shapes() {
    for raw in ["1", "0", "yes", "no", "on", "off", "True", "FALSE", ""] {
        assert_eq!(decode_bool(Some(raw)), None, "raw {raw:?}");
    }
    assert_eq!(decode_bool(None), None);
}

#[test]
fn encode_then_decode_is_identity() {
    for v in [true, false] {
        let raw = encode_bool(v);
        assert_eq!(decode_bool(Some(raw)), Some(v));
    }
}

#[test]
fn decode_bool_is_whitespace_strict() {
    assert_eq!(decode_bool(Some(" true")), None);
    assert_eq!(decode_bool(Some("false\n")), None);
}
