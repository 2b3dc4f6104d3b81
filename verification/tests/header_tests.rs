use native_bridge::headers::{decode, encode, HeaderError, HeaderSet};

fn pairs(raw: &[(&str, &str)]) -> Vec<(Vec<u8>, Vec<u8>)> {
    raw.iter().map(|(n, v)| (n.as_bytes().to_vec(), v.as_bytes().to_vec())).collect()
}

#[test]
fn encode_accepts_valid_headers() {
    let raw = pairs(&[("Content-Type", "application/json"), ("x-api-key", "abc123")]);
    let hs = encode(&raw).unwrap();
    assert_eq!(
        hs.entries,
        pairs(&[("content-type", "application/json"), ("x-api-key", "abc123")])
    );
}

#[test]
fn encode_then_decode_is_lossless_for_printable_values() {
    let raw = pairs(&[
        ("accept", "text/plain"),
        ("x-weird", "spaces and ~tildes~ and !bangs!"),
        ("x-tab", "a\tb"),
    ]);
    let hs = encode(&raw).unwrap();
    let back = decode(&hs).unwrap();
    assert_eq!(back, raw);
}

#[test]
fn encode_lowercases_names() {
    let raw = pairs(&[("X-TEST", "1")]);
    let hs = encode(&raw).unwrap();
    assert_eq!(hs.entries, pairs(&[("x-test", "1")]));
}

#[test]
fn encode_rejects_disallowed_name_character() {
    let raw = pairs(&[("ok-name", "v"), ("bad name", "v")]);
    match encode(&raw) {
        Err(HeaderError::InvalidName { index, name }) => {
            assert_eq!(index, 1);
            assert_eq!(name, b"bad name".to_vec());
        }
        other => panic!("expected an invalid-name error, got {:?}", other.is_ok()),
    }
}

#[test]
fn encode_rejects_empty_name() {
    let raw = pairs(&[("", "v")]);
    assert!(matches!(encode(&raw), Err(HeaderError::InvalidName { index: 0, .. })));
}

#[test]
fn encode_rejects_control_character_in_value() {
    let raw = pairs(&[("a", "fine"), ("b", "bad\nvalue")]);
    match encode(&raw) {
        Err(HeaderError::InvalidValue { index, name, value }) => {
            assert_eq!(index, 1);
            assert_eq!(name, b"b".to_vec());
            assert_eq!(value, b"bad\nvalue".to_vec());
        }
        _ => panic!("expected an invalid-value error"),
    }
}

#[test]
fn encode_reports_first_failure_only() {
    let raw = pairs(&[("bad one", "v"), ("also bad", "v")]);
    match encode(&raw) {
        Err(HeaderError::InvalidName { index, .. }) => assert_eq!(index, 0),
        _ => panic!("expected an invalid-name error"),
    }
}

#[test]
fn decode_rejects_non_text_value() {
    let hs = HeaderSet { entries: vec![(b"a".to_vec(), vec![0x80u8, 0x81u8])] };
    let err = decode(&hs).unwrap_err();
    assert_eq!(err.index, 0);
    assert_eq!(err.name, b"a".to_vec());
    assert_eq!(err.value, vec![0x80u8, 0x81u8]);
}

#[test]
fn duplicate_names_collapse_to_one_entry_last_value_wins() {
    let raw = pairs(&[("A", "1"), ("b", "x"), ("a", "2")]);
    let hs = encode(&raw).unwrap();
    assert_eq!(hs.entries, pairs(&[("a", "2"), ("b", "x")]));
}

#[test]
fn names_differing_only_in_case_are_the_same_header() {
    let raw = pairs(&[("Set-Cookie", "one"), ("SET-COOKIE", "two")]);
    let hs = encode(&raw).unwrap();
    assert_eq!(hs.entries, pairs(&[("set-cookie", "two")]));
}

#[test]
fn value_bytes_above_ascii_are_valid_but_not_text() {
    let raw = vec![(b"a".to_vec(), vec![0xc3u8, 0xa9u8])];
    let hs = encode(&raw).unwrap();
    assert!(decode(&hs).is_err());
}
