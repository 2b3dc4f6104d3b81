//! The HTTP relay's decision logic.
//!
//! The relay takes the caller's url, body, header mapping (a JSON object
//! in text form) and method string, and either produces a validated
//! request for the application to send, or rejects the call with a
//! completed failure envelope — an invalid header mapping is rejected
//! here, before any network activity.  Once the application has performed
//! the exchange, the relay packs the outcome into the response envelope:
//! the body text-encoded with base64, the response headers re-encoded
//! into the loosely-typed mapping.

use vstd::prelude::*;
use base64::Engine;
use crate::headers;
use crate::headers::{HeaderSet, HeaderError, pairs_view, entry_ok, encode_mapping, dedup_last};
use crate::jsontext;
use crate::jsontext::{failure_envelope, success_envelope};

verus! {

/// The bound on every relayed call's total duration, in seconds.
pub const RELAY_TIMEOUT_SECS: u64 = 120;

/// The caller's header mapping, as read from its JSON text: the object's
/// entries (values coerced to strings, empty when not a string), or the
/// reason the text was unusable.
pub enum HeaderJson {
    /// The text is a JSON object: its entries, in the parser's order.
    Object(Vec<(Vec<u8>, Vec<u8>)>),
    /// The text is well-formed JSON but not an object.
    NotObject,
    /// The text is not JSON; the payload is the parser's diagnostic.
    Malformed(Vec<u8>),
}

/// What parsing a header-mapping text yields: `None` when the text is not
/// JSON, `Some(None)` when it is JSON but not an object, and otherwise
/// the object's entries as string pairs, non-string values read as empty.
pub uninterp spec fn json_object_entries(s: Seq<u8>) -> Option<Option<Seq<(Seq<u8>, Seq<u8>)>>>;

/// Relies on serde_json::from_slice and serde_json::Value::{as_object,
/// as_str}: the parse is a function of the input bytes alone; a
/// non-string value reads as the empty string, as `as_str` reports it.
#[verifier::external_body]
fn parse_header_json(s: &Vec<u8>) -> (r: HeaderJson)
    ensures
        match r {
            HeaderJson::Object(v) => json_object_entries(s@) == Some(Some(pairs_view(v@))),
            HeaderJson::NotObject => json_object_entries(s@) == Some(
                None::<Seq<(Seq<u8>, Seq<u8>)>>,
            ),
            HeaderJson::Malformed(_) => json_object_entries(s@) is None,
        },
{
    let v: serde_json::Value = match serde_json::from_slice(s) {
        Ok(v) => v,
        Err(e) => return HeaderJson::Malformed(e.to_string().into_bytes()),
    };
    let obj = match v.as_object() {
        Some(o) => o,
        None => return HeaderJson::NotObject,
    };
    let mut out: Vec<(Vec<u8>, Vec<u8>)> = Vec::new();
    for (k, val) in obj {
        out.push((k.clone().into_bytes(), val.as_str().unwrap_or("").as_bytes().to_vec()));
    }
    HeaderJson::Object(out)
}

/// The text-safe encoding of a byte sequence: standard base64 with
/// padding.
pub uninterp spec fn base64_of(b: Seq<u8>) -> Seq<u8>;

/// Relies on base64's `general_purpose::STANDARD` engine: the encoding is
/// a function of the input bytes alone, and emits four output bytes for
/// every started group of three input bytes.
#[verifier::external_body]
fn base64_encode(b: &Vec<u8>) -> (r: Vec<u8>)
    requires
        b@.len() <= 0x1000_0000_0000_0000,
    ensures
        r@ == base64_of(b@),
        r@.len() == 4 * ((b@.len() + 2) / 3),
{
    base64::engine::general_purpose::STANDARD.encode(b).into_bytes()
}

/// The method string that selects a POST: the exact bytes `POST`.
pub open spec fn post_method() -> Seq<u8> {
    seq![80u8, 79u8, 83u8, 84u8]
}

/// `Invalid header JSON`
pub open spec fn msg_invalid_header_json() -> Seq<u8> {
    seq![
        73u8,
        110u8,
        118u8,
        97u8,
        108u8,
        105u8,
        100u8,
        32u8,
        104u8,
        101u8,
        97u8,
        100u8,
        101u8,
        114u8,
        32u8,
        74u8,
        83u8,
        79u8,
        78u8,
    ]
}

/// `invalid header name: ` followed by the offending name.
pub open spec fn msg_invalid_name(name: Seq<u8>) -> Seq<u8> {
    seq![
        105u8,
        110u8,
        118u8,
        97u8,
        108u8,
        105u8,
        100u8,
        32u8,
        104u8,
        101u8,
        97u8,
        100u8,
        101u8,
        114u8,
        32u8,
        110u8,
        97u8,
        109u8,
        101u8,
        58u8,
        32u8,
    ] + name
}

/// `invalid header value for: ` followed by the header's name.
pub open spec fn msg_invalid_value(name: Seq<u8>) -> Seq<u8> {
    seq![
        105u8,
        110u8,
        118u8,
        97u8,
        108u8,
        105u8,
        100u8,
        32u8,
        104u8,
        101u8,
        97u8,
        100u8,
        101u8,
        114u8,
        32u8,
        118u8,
        97u8,
        108u8,
        117u8,
        101u8,
        32u8,
        102u8,
        111u8,
        114u8,
        58u8,
        32u8,
    ] + name
}

/// `unreadable header value for: ` followed by the header's name — a
/// response header whose value is not representable as text.
pub open spec fn msg_unreadable_value(name: Seq<u8>) -> Seq<u8> {
    seq![
        117u8,
        110u8,
        114u8,
        101u8,
        97u8,
        100u8,
        97u8,
        98u8,
        108u8,
        101u8,
        32u8,
        104u8,
        101u8,
        97u8,
        100u8,
        101u8,
        114u8,
        32u8,
        118u8,
        97u8,
        108u8,
        117u8,
        101u8,
        32u8,
        102u8,
        111u8,
        114u8,
        58u8,
        32u8,
    ] + name
}

/// `invalid header name: ` as bytes.
fn lit_msg_invalid_name() -> (r: Vec<u8>)
    ensures
        r@ == msg_invalid_name(Seq::<u8>::empty()),
{
    let v: Vec<u8> = vec![
        105u8,
        110u8,
        118u8,
        97u8,
        108u8,
        105u8,
        100u8,
        32u8,
        104u8,
        101u8,
        97u8,
        100u8,
        101u8,
        114u8,
        32u8,
        110u8,
        97u8,
        109u8,
        101u8,
        58u8,
        32u8,
    ];
    proof {
        assert(v@ =~= msg_invalid_name(Seq::<u8>::empty()));
    }
    v
}

/// `invalid header value for: ` as bytes.
fn lit_msg_invalid_value() -> (r: Vec<u8>)
    ensures
        r@ == msg_invalid_value(Seq::<u8>::empty()),
{
    let v: Vec<u8> = vec![
        105u8,
        110u8,
        118u8,
        97u8,
        108u8,
        105u8,
        100u8,
        32u8,
        104u8,
        101u8,
        97u8,
        100u8,
        101u8,
        114u8,
        32u8,
        118u8,
        97u8,
        108u8,
        117u8,
        101u8,
        32u8,
        102u8,
        111u8,
        114u8,
        58u8,
        32u8,
    ];
    proof {
        assert(v@ =~= msg_invalid_value(Seq::<u8>::empty()));
    }
    v
}

/// `unreadable header value for: ` as bytes.
fn lit_msg_unreadable_value() -> (r: Vec<u8>)
    ensures
        r@ == msg_unreadable_value(Seq::<u8>::empty()),
{
    let v: Vec<u8> = vec![
        117u8,
        110u8,
        114u8,
        101u8,
        97u8,
        100u8,
        97u8,
        98u8,
        108u8,
        101u8,
        32u8,
        104u8,
        101u8,
        97u8,
        100u8,
        101u8,
        114u8,
        32u8,
        118u8,
        97u8,
        108u8,
        117u8,
        101u8,
        32u8,
        102u8,
        111u8,
        114u8,
        58u8,
        32u8,
    ];
    proof {
        assert(v@ =~= msg_unreadable_value(Seq::<u8>::empty()));
    }
    v
}

/// The message for a rejected raw header entry.
fn header_error_message(e: &HeaderError) -> (r: Vec<u8>)
    ensures
        match e {
            HeaderError::InvalidName { index: _, name } => r@ == msg_invalid_name(name@),
            HeaderError::InvalidValue { index: _, name, value: _ } => r@ == msg_invalid_value(
                name@,
            ),
        },
{
    match e {
        HeaderError::InvalidName { index: _, name } => {
            let mut m = lit_msg_invalid_name();
            crate::util::push_all(&mut m, name);
            proof {
                assert(m@ =~= msg_invalid_name(name@));
            }
            m
        },
        HeaderError::InvalidValue { index: _, name, value: _ } => {
            let mut m = lit_msg_invalid_value();
            crate::util::push_all(&mut m, name);
            proof {
                assert(m@ =~= msg_invalid_value(name@));
            }
            m
        },
    }
}

/// A validated request, ready to be sent by the application: the method
/// decision, the caller's url, the encoded header set, and the body — the
/// body is carried only by a POST.
pub struct RelayRequest {
    pub is_post: bool,
    pub url: Vec<u8>,
    pub headers: HeaderSet,
    pub body: Vec<u8>,
}

/// The relay's decision on a call: send a validated request, or answer
/// the caller at once with the enclosed failure envelope.
pub enum RelayPlan {
    Send(RelayRequest),
    Reject(Vec<u8>),
}

/// The envelope names the first entry of the mapping that is not an
/// acceptable header — an invalid name, or a valid name with an invalid
/// value.
pub open spec fn first_bad_entry_rejected(entries: Seq<(Seq<u8>, Seq<u8>)>, env: Seq<u8>) -> bool {
    exists|idx: int|
        {
            &&& 0 <= idx < entries.len()
            &&& !entry_ok(#[trigger] entries[idx])
            &&& (forall|j: int| 0 <= j < idx ==> entry_ok(#[trigger] entries[j]))
            &&& env == failure_envelope(
                if !headers::valid_name(entries[idx].0) {
                    msg_invalid_name(entries[idx].0)
                } else {
                    msg_invalid_value(entries[idx].0)
                },
            )
        }
}

/// What the plan promises when the mapping text parsed into `h`.
pub open spec fn plan_ok(
    h: HeaderJson,
    url: Seq<u8>,
    body: Seq<u8>,
    method: Seq<u8>,
    r: RelayPlan,
) -> bool {
    match r {
        RelayPlan::Send(req) => {
            &&& h matches HeaderJson::Object(v)
            &&& forall|i: int| 0 <= i < pairs_view(v@).len() ==> entry_ok(#[trigger] pairs_view(v@)[i])
            &&& req.headers@ == dedup_last(encode_mapping(pairs_view(v@)))
            &&& req.headers.wf()
            &&& req.url@ == url
            &&& req.is_post == (method == post_method())
            &&& req.body@ == (if method == post_method() {
                body
            } else {
                Seq::<u8>::empty()
            })
        },
        RelayPlan::Reject(env) => {
            match h {
                HeaderJson::Malformed(d) => env@ == failure_envelope(d@),
                HeaderJson::NotObject => env@ == failure_envelope(msg_invalid_header_json()),
                HeaderJson::Object(v) => first_bad_entry_rejected(pairs_view(v@), env@),
            }
        },
    }
}

/// Turns the already parsed header mapping, url, body and method into the
/// relay's decision.  The method selects a POST exactly when it is the
/// string `POST`; every other method string falls back to a GET, which
/// carries no body.  The first unacceptable header entry rejects the call
/// with a failure envelope naming it — no request is produced.  Accepted
/// entries become a mapping: names that collide after lowercasing are
/// merged, the last value winning.
pub fn plan_request_from(h: HeaderJson, url: &Vec<u8>, body: &Vec<u8>, method: &Vec<u8>) -> (r:
    RelayPlan)
    ensures
        plan_ok(h, url@, body@, method@, r),
        (r is Send) <==> (h matches HeaderJson::Object(v) && forall|i: int|
            0 <= i < pairs_view(v@).len() ==> entry_ok(#[trigger] pairs_view(v@)[i])),
{
    match h {
        HeaderJson::Malformed(d) => RelayPlan::Reject(jsontext::build_failure_envelope(&d)),
        HeaderJson::NotObject => {
            let msg: Vec<u8> = vec![
                73u8,
                110u8,
                118u8,
                97u8,
                108u8,
                105u8,
                100u8,
                32u8,
                104u8,
                101u8,
                97u8,
                100u8,
                101u8,
                114u8,
                32u8,
                74u8,
                83u8,
                79u8,
                78u8,
            ];
            proof {
                assert(msg@ =~= msg_invalid_header_json());
            }
            RelayPlan::Reject(jsontext::build_failure_envelope(&msg))
        },
        HeaderJson::Object(v) => {
            match headers::encode(&v) {
                Ok(hs) => {
                    let post: Vec<u8> = vec![80u8, 79u8, 83u8, 84u8];
                    proof {
                        assert(post@ =~= post_method());
                    }
                    let is_post = crate::util::bytes_eq(method, &post);
                    let body_out = if is_post {
                        crate::util::copy_bytes(body)
                    } else {
                        Vec::new()
                    };
                    RelayPlan::Send(
                        RelayRequest {
                            is_post,
                            url: crate::util::copy_bytes(url),
                            headers: hs,
                            body: body_out,
                        },
                    )
                },
                Err(e) => {
                    let msg = header_error_message(&e);
                    let env = jsontext::build_failure_envelope(&msg);
                    proof {
                        let raw = pairs_view(v@);
                        match e {
                            HeaderError::InvalidName { index, name } => {
                                assert(!entry_ok(raw[index as int]));
                            },
                            HeaderError::InvalidValue { index, name, value } => {
                                assert(!entry_ok(raw[index as int]));
                            },
                        }
                    }
                    RelayPlan::Reject(env)
                },
            }
        },
    }
}

/// Parses the caller's header-mapping text and plans the call.  The
/// outcome follows `json_object_entries` of the text: a text that is not
/// a JSON object is rejected before any request is produced.
pub fn plan_request(url: &Vec<u8>, body: &Vec<u8>, header_json: &Vec<u8>, method: &Vec<u8>) -> (r:
    RelayPlan)
    ensures
        (r is Send) <==> (json_object_entries(header_json@) matches Some(Some(entries))
            && forall|i: int| 0 <= i < entries.len() ==> entry_ok(#[trigger] entries[i])),
        r matches RelayPlan::Send(req) ==> {
            let entries = json_object_entries(header_json@)->Some_0->Some_0;
            &&& req.headers@ == dedup_last(encode_mapping(entries))
            &&& req.headers.wf()
            &&& req.url@ == url@
            &&& req.is_post == (method@ == post_method())
            &&& req.body@ == (if method@ == post_method() {
                body@
            } else {
                Seq::<u8>::empty()
            })
        },
        json_object_entries(header_json@) == Some(None::<Seq<(Seq<u8>, Seq<u8>)>>) ==> (r
            matches RelayPlan::Reject(env) && env@ == failure_envelope(msg_invalid_header_json())),
        json_object_entries(header_json@) is None ==> r is Reject,
        (json_object_entries(header_json@) matches Some(Some(entries)) && !(forall|i: int|
            0 <= i < entries.len() ==> entry_ok(#[trigger] entries[i]))) ==> (r
            matches RelayPlan::Reject(env) && first_bad_entry_rejected(
            json_object_entries(header_json@)->Some_0->Some_0,
            env@,
        )),
{
    let h = parse_header_json(header_json);
    let ghost hg = h;
    let r = plan_request_from(h, url, body, method);
    proof {
        match hg {
            HeaderJson::Object(v) => {
                assert(json_object_entries(header_json@) == Some(Some(pairs_view(v@))));
                let entries = json_object_entries(header_json@)->Some_0->Some_0;
                assert(entries == pairs_view(v@));
                if forall|i: int| 0 <= i < entries.len() ==> entry_ok(#[trigger] entries[i]) {
                    assert forall|i: int| 0 <= i < pairs_view(v@).len() implies entry_ok(
                        #[trigger] pairs_view(v@)[i],
                    ) by {
                        assert(entry_ok(entries[i]));
                    }
                }
                if forall|i: int|
                    0 <= i < pairs_view(v@).len() ==> entry_ok(#[trigger] pairs_view(v@)[i]) {
                    assert forall|i: int| 0 <= i < entries.len() implies entry_ok(
                        #[trigger] entries[i],
                    ) by {
                        assert(entry_ok(pairs_view(v@)[i]));
                    }
                }
            },
            HeaderJson::NotObject => {},
            HeaderJson::Malformed(_) => {},
        }
    }
    r
}

/// A header mapping holding a name with a disallowed character can never
/// plan a request: whatever else the mapping holds, the relay's decision
/// on it is a rejection, so nothing reaches the network.
pub proof fn lemma_bad_name_is_rejected(
    h: HeaderJson,
    url: Seq<u8>,
    body: Seq<u8>,
    method: Seq<u8>,
    r: RelayPlan,
    idx: int,
)
    requires
        plan_ok(h, url, body, method, r),
        h matches HeaderJson::Object(v) && 0 <= idx < pairs_view(v@).len() && !headers::valid_name(
            pairs_view(v@)[idx].0,
        ),
    ensures
        r is Reject,
{
    if r matches RelayPlan::Send(req) {
        let v = h->Object_0;
        assert(entry_ok(pairs_view(v@)[idx]));
    }
}

/// What `build_success_response` promises: the envelope that the relay
/// answers with once the exchange succeeded with the given body bytes and
/// raw response headers.
/// Every value of the mapping is representable as text.
pub open spec fn all_values_text(hs: Seq<(Seq<u8>, Seq<u8>)>) -> bool {
    forall|i: int| 0 <= i < hs.len() ==> headers::text_value((#[trigger] hs[i]).1)
}

/// The envelope names the first entry of the mapping whose value is not
/// representable as text.
pub open spec fn first_unreadable_rejected(hs: Seq<(Seq<u8>, Seq<u8>)>, r: Seq<u8>) -> bool {
    exists|idx: int|
        {
            &&& 0 <= idx < hs.len()
            &&& !headers::text_value((#[trigger] hs[idx]).1)
            &&& (forall|j: int| 0 <= j < idx ==> headers::text_value(#[trigger] hs[j].1))
            &&& r == failure_envelope(msg_unreadable_value(hs[idx].0))
        }
}

pub open spec fn success_response_ok(body: Seq<u8>, raw: Seq<(Seq<u8>, Seq<u8>)>, r: Seq<u8>) -> bool {
    let merged = dedup_last(encode_mapping(raw));
    if forall|i: int| 0 <= i < raw.len() ==> entry_ok(#[trigger] raw[i]) {
        if all_values_text(merged) {
            r == success_envelope(base64_of(body), merged)
        } else {
            first_unreadable_rejected(merged, r)
        }
    } else {
        exists|idx: int|
            {
                &&& 0 <= idx < raw.len()
                &&& !entry_ok(#[trigger] raw[idx])
                &&& (forall|j: int| 0 <= j < idx ==> entry_ok(#[trigger] raw[j]))
                &&& r == failure_envelope(
                    if !headers::valid_name(raw[idx].0) {
                        msg_invalid_name(raw[idx].0)
                    } else {
                        msg_invalid_value(raw[idx].0)
                    },
                )
            }
    }
}

/// Packs a successful exchange into the response envelope: the body
/// text-encoded with base64, the response headers collapsed into a
/// mapping — names lowered, each distinct name once, the last value
/// winning — and the whole rendered as the success envelope.  A response
/// header that is not a valid header entry, or a surviving value that is
/// not representable as text, turns the whole response into a failure
/// envelope naming it.
pub fn build_success_response(body: &Vec<u8>, raw_headers: &Vec<(Vec<u8>, Vec<u8>)>) -> (r: Vec<
    u8,
>)
    requires
        body@.len() <= 0x1000_0000_0000_0000,
    ensures
        success_response_ok(body@, pairs_view(raw_headers@), r@),
{
    let ghost raw = pairs_view(raw_headers@);
    match headers::encode(raw_headers) {
        Err(e) => {
            let msg = header_error_message(&e);
            proof {
                match e {
                    HeaderError::InvalidName { index, name } => {
                        assert(!entry_ok(raw[index as int]));
                    },
                    HeaderError::InvalidValue { index, name, value } => {
                        assert(!entry_ok(raw[index as int]));
                    },
                }
            }
            jsontext::build_failure_envelope(&msg)
        },
        Ok(hs) => {
            match headers::decode(&hs) {
                Err(de) => {
                    let mut msg = lit_msg_unreadable_value();
                    crate::util::push_all(&mut msg, &de.name);
                    proof {
                        let idx = de.index as int;
                        assert(hs@ == dedup_last(encode_mapping(raw)));
                        assert(msg@ =~= msg_unreadable_value(hs@[idx].0));
                    }
                    jsontext::build_failure_envelope(&msg)
                },
                Ok(mapping) => {
                    let b64 = base64_encode(body);
                    proof {
                        assert(hs@ == dedup_last(encode_mapping(raw)));
                        assert(all_values_text(hs@));
                    }
                    jsontext::build_success_envelope(&b64, &mapping)
                },
            }
        },
    }
}

} // verus!
