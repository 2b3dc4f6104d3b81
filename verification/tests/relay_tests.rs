use native_bridge::greet;
use native_bridge::relay::{
    build_success_response, plan_request, plan_request_from, HeaderJson, RelayPlan,
    RELAY_TIMEOUT_SECS,
};

fn b(s: &str) -> Vec<u8> {
    s.as_bytes().to_vec()
}

fn text(v: &[u8]) -> String {
    String::from_utf8(v.to_vec()).unwrap()
}

#[test]
fn greet_formats_the_greeting() {
    assert_eq!(greet("Ada"), "Hello, Ada! You've been greeted from Rust!");
}

#[test]
fn relay_timeout_is_two_minutes() {
    assert_eq!(RELAY_TIMEOUT_SECS, 120);
}

#[test]
fn post_exact_match_carries_body() {
    let plan = plan_request(&b("http://x/"), &b("payload"), &b("{}"), &b("POST"));
    match plan {
        RelayPlan::Send(req) => {
            assert!(req.is_post);
            assert_eq!(req.body, b("payload"));
            assert_eq!(req.url, b("http://x/"));
        }
        RelayPlan::Reject(_) => panic!("expected a request"),
    }
}

#[test]
fn other_method_strings_fall_back_to_get_without_body() {
    for method in ["post", "Post", "", "PUT", "GET", "POSTS"] {
        let plan = plan_request(&b("http://x/"), &b("payload"), &b("{}"), &b(method));
        match plan {
            RelayPlan::Send(req) => {
                assert!(!req.is_post, "method {:?} must not select POST", method);
                assert_eq!(req.body, Vec::<u8>::new());
            }
            RelayPlan::Reject(_) => panic!("expected a request"),
        }
    }
}

#[test]
fn caller_headers_are_validated_and_lowercased() {
    let plan = plan_request(
        &b("http://x/"),
        &b(""),
        &b("{\"X-Test\":\"1\",\"Accept\":\"text/plain\"}"),
        &b("GET"),
    );
    match plan {
        RelayPlan::Send(req) => {
            // serde_json's default map iterates in sorted key order
            assert_eq!(
                req.headers.entries,
                vec![
                    (b("accept"), b("text/plain")),
                    (b("x-test"), b("1")),
                ]
            );
        }
        RelayPlan::Reject(_) => panic!("expected a request"),
    }
}

#[test]
fn non_string_header_values_read_as_empty() {
    let plan = plan_request(&b("http://x/"), &b(""), &b("{\"a\":5}"), &b("GET"));
    match plan {
        RelayPlan::Send(req) => assert_eq!(req.headers.entries, vec![(b("a"), b(""))]),
        RelayPlan::Reject(_) => panic!("expected a request"),
    }
}

#[test]
fn malformed_header_json_is_rejected_before_any_request() {
    let plan = plan_request(&b("http://x/"), &b(""), &b("{not json"), &b("GET"));
    match plan {
        RelayPlan::Reject(env) => {
            let t = text(&env);
            assert!(t.starts_with("{\"success\":false,\"body\":\""));
            assert!(t.ends_with("\"}"));
        }
        RelayPlan::Send(_) => panic!("malformed JSON must not produce a request"),
    }
}

#[test]
fn non_object_header_json_is_rejected() {
    let plan = plan_request(&b("http://x/"), &b(""), &b("[1,2]"), &b("GET"));
    match plan {
        RelayPlan::Reject(env) => {
            assert_eq!(text(&env), "{\"success\":false,\"body\":\"Invalid header JSON\"}");
        }
        RelayPlan::Send(_) => panic!("a non-object must not produce a request"),
    }
}

#[test]
fn disallowed_header_name_is_rejected_before_any_request() {
    let plan = plan_request(&b("http://x/"), &b(""), &b("{\"bad name\":\"v\"}"), &b("GET"));
    match plan {
        RelayPlan::Reject(env) => {
            assert_eq!(
                text(&env),
                "{\"success\":false,\"body\":\"invalid header name: bad name\"}"
            );
        }
        RelayPlan::Send(_) => panic!("an invalid name must not produce a request"),
    }
}

#[test]
fn plan_from_parsed_object_reports_invalid_value() {
    let h = HeaderJson::Object(vec![(b("a"), b("bad\u{7f}"))]);
    match plan_request_from(h, &b("u"), &b(""), &b("GET")) {
        RelayPlan::Reject(env) => {
            assert_eq!(
                text(&env),
                "{\"success\":false,\"body\":\"invalid header value for: a\"}"
            );
        }
        RelayPlan::Send(_) => panic!("an invalid value must not produce a request"),
    }
}

#[test]
fn caller_headers_colliding_after_lowercasing_are_merged() {
    let h = HeaderJson::Object(vec![(b("X-A"), b("1")), (b("x-a"), b("2"))]);
    match plan_request_from(h, &b("u"), &b(""), &b("GET")) {
        RelayPlan::Send(req) => {
            assert_eq!(req.headers.entries, vec![(b("x-a"), b("2"))]);
        }
        RelayPlan::Reject(_) => panic!("expected a request"),
    }
}

#[test]
fn plan_from_malformed_text_embeds_the_diagnostic() {
    let h = HeaderJson::Malformed(b("expected value at line 1 column 2"));
    match plan_request_from(h, &b("u"), &b(""), &b("GET")) {
        RelayPlan::Reject(env) => {
            assert_eq!(
                text(&env),
                "{\"success\":false,\"body\":\"expected value at line 1 column 2\"}"
            );
        }
        RelayPlan::Send(_) => panic!("a malformed mapping must not produce a request"),
    }
}

#[test]
fn header_values_beyond_ascii_are_sent_verbatim() {
    let plan = plan_request(&b("http://x/"), &b(""), &b("{\"a\":\"\u{e9}\"}"), &b("GET"));
    match plan {
        RelayPlan::Send(req) => {
            assert_eq!(req.headers.entries, vec![(b("a"), vec![0xc3u8, 0xa9u8])]);
        }
        RelayPlan::Reject(_) => panic!("a value beyond ASCII is still a valid header value"),
    }
}

#[test]
fn success_envelope_matches_the_documented_exchange() {
    // a 200 response with body "ok" and header X-Test: 1
    let env = build_success_response(&b("ok"), &vec![(b("X-Test"), b("1"))]);
    assert_eq!(
        text(&env),
        "{\"success\":true,\"body\":\"b2s=\",\"headers\":{\"x-test\":\"1\"}}"
    );
}

#[test]
fn success_envelope_with_empty_body_and_no_headers() {
    let env = build_success_response(&b(""), &Vec::new());
    assert_eq!(text(&env), "{\"success\":true,\"body\":\"\",\"headers\":{}}");
}

#[test]
fn binary_bodies_are_base64_encoded() {
    let env = build_success_response(&vec![0u8, 255u8, 16u8], &Vec::new());
    assert_eq!(text(&env), "{\"success\":true,\"body\":\"AP8Q\",\"headers\":{}}");
}

#[test]
fn repeated_response_header_names_are_merged_last_value_wins() {
    let env = build_success_response(&b("ok"), &vec![(b("A"), b("1")), (b("a"), b("2"))]);
    assert_eq!(
        text(&env),
        "{\"success\":true,\"body\":\"b2s=\",\"headers\":{\"a\":\"2\"}}"
    );
}

#[test]
fn merged_away_unreadable_value_does_not_fail_the_response() {
    // the earlier pair is overwritten before decoding; only the surviving
    // value must be representable as text
    let env = build_success_response(&b("ok"), &vec![(b("a"), vec![0x80u8]), (b("a"), b("2"))]);
    assert_eq!(
        text(&env),
        "{\"success\":true,\"body\":\"b2s=\",\"headers\":{\"a\":\"2\"}}"
    );
}

#[test]
fn surviving_unreadable_value_still_fails_the_response() {
    let env = build_success_response(&b("ok"), &vec![(b("a"), b("1")), (b("a"), vec![0x80u8])]);
    assert_eq!(
        text(&env),
        "{\"success\":false,\"body\":\"unreadable header value for: a\"}"
    );
}

#[test]
fn unreadable_response_header_value_fails_the_response() {
    let env = build_success_response(&b("ok"), &vec![(b("A"), vec![0x80u8])]);
    assert_eq!(
        text(&env),
        "{\"success\":false,\"body\":\"unreadable header value for: a\"}"
    );
}

#[test]
fn invalid_response_header_name_fails_the_response() {
    let env = build_success_response(&b("ok"), &vec![(b(""), b("v"))]);
    assert_eq!(
        text(&env),
        "{\"success\":false,\"body\":\"invalid header name: \"}"
    );
}
