use native_bridge::jsontext::{build_failure_envelope, build_success_envelope, escape_into,
    render_headers_object};

fn b(s: &str) -> Vec<u8> {
    s.as_bytes().to_vec()
}

fn text(v: &[u8]) -> String {
    String::from_utf8(v.to_vec()).unwrap()
}

fn escaped_text(s: &str) -> String {
    let mut out = Vec::new();
    escape_into(&mut out, &b(s));
    text(&out)
}

#[test]
fn escaping_passes_plain_text_through() {
    assert_eq!(escaped_text("plain text 123 ~"), "plain text 123 ~");
}

#[test]
fn escaping_quotes_and_backslashes() {
    assert_eq!(escaped_text("a\"b\\c"), "a\\\"b\\\\c");
}

#[test]
fn escaping_control_characters() {
    assert_eq!(escaped_text("a\nb\tc\u{1}"), "a\\u000ab\\u0009c\\u0001");
}

#[test]
fn failure_envelope_escapes_the_diagnostic() {
    let env = build_failure_envelope(&b("oh \"no\"\n"));
    assert_eq!(
        text(&env),
        "{\"success\":false,\"body\":\"oh \\\"no\\\"\\u000a\"}"
    );
}

#[test]
fn headers_object_renders_entries_in_order() {
    let obj = render_headers_object(&vec![(b("a"), b("1")), (b("b"), b("2"))]);
    assert_eq!(text(&obj), "{\"a\":\"1\",\"b\":\"2\"}");
}

#[test]
fn headers_object_renders_empty() {
    let obj = render_headers_object(&Vec::new());
    assert_eq!(text(&obj), "{}");
}

#[test]
fn success_envelope_assembles_the_parts() {
    let env = build_success_envelope(&b("Qk9EWQ=="), &vec![(b("k"), b("v"))]);
    assert_eq!(
        text(&env),
        "{\"success\":true,\"body\":\"Qk9EWQ==\",\"headers\":{\"k\":\"v\"}}"
    );
}
