//! Construction of the relay's JSON response envelope.
//!
//! The envelope is a compact JSON object with the keys `success`, `body`
//! and — in the success case — `headers`.  Every string embedded in it is
//! escaped: quotes and backslashes get a backslash, control characters
//! become a `\u00XX` escape, so the envelope is well-formed whatever the
//! body or diagnostic text holds.

use vstd::prelude::*;
use crate::headers::pairs_view;

verus! {

/// The lowercase hex digit for `n` (needs `n < 16`).
pub open spec fn hex_digit(n: u8) -> u8 {
    if n < 10 {
        (48 + n) as u8
    } else {
        (87 + n) as u8
    }
}

/// The escaped form of one byte inside a JSON string literal.
pub open spec fn escape_byte(b: u8) -> Seq<u8> {
    if b == 34 {
        seq![92u8, 34u8]
    } else if b == 92 {
        seq![92u8, 92u8]
    } else if b < 32 {
        seq![92u8, 117u8, 48u8, 48u8, hex_digit(b / 16), hex_digit(b % 16)]
    } else {
        seq![b]
    }
}

/// The escaped form of a whole string body.
pub open spec fn escaped(s: Seq<u8>) -> Seq<u8>
    decreases s.len(),
{
    if s.len() == 0 {
        Seq::empty()
    } else {
        escape_byte(s[0]) + escaped(s.drop_first())
    }
}

/// Escaping distributes over concatenation.
pub proof fn lemma_escaped_concat(a: Seq<u8>, b: Seq<u8>)
    ensures
        escaped(a + b) == escaped(a) + escaped(b),
    decreases a.len(),
{
    if a.len() == 0 {
        assert(a + b =~= b);
        assert(escaped(a) + escaped(b) =~= escaped(b));
    } else {
        assert((a + b).drop_first() =~= a.drop_first() + b);
        lemma_escaped_concat(a.drop_first(), b);
        assert(escaped(a + b) =~= escaped(a) + escaped(b));
    }
}

/// The escaped form of a single byte is `escape_byte`.
pub proof fn lemma_escaped_single(b: u8)
    ensures
        escaped(seq![b]) == escape_byte(b),
{
    assert(seq![b].drop_first() =~= Seq::<u8>::empty());
    assert(escaped(Seq::<u8>::empty()) == Seq::<u8>::empty());
    assert(escaped(seq![b]) == escape_byte(seq![b][0]) + escaped(seq![b].drop_first()));
    assert(seq![b][0] == b);
    assert(escaped(seq![b]) =~= escape_byte(b));
}

/// A quoted, escaped JSON string literal.
pub open spec fn quoted(s: Seq<u8>) -> Seq<u8> {
    seq![34u8] + escaped(s) + seq![34u8]
}

/// One `"name":"value"` item of the headers object.
pub open spec fn header_item(e: (Seq<u8>, Seq<u8>)) -> Seq<u8> {
    quoted(e.0) + seq![58u8] + quoted(e.1)
}

/// The comma-separated items of the headers object.
pub open spec fn header_items(hs: Seq<(Seq<u8>, Seq<u8>)>) -> Seq<u8>
    decreases hs.len(),
{
    if hs.len() == 0 {
        Seq::empty()
    } else if hs.len() == 1 {
        header_item(hs[0])
    } else {
        header_item(hs[0]) + seq![44u8] + header_items(hs.drop_first())
    }
}

/// The headers object `{"n1":"v1",...}`.
pub open spec fn headers_object(hs: Seq<(Seq<u8>, Seq<u8>)>) -> Seq<u8> {
    seq![123u8] + header_items(hs) + seq![125u8]
}

/// `{"success":true,"body":"`
pub open spec fn lit_success_prefix() -> Seq<u8> {
    seq![
        123u8,
        34u8,
        115u8,
        117u8,
        99u8,
        99u8,
        101u8,
        115u8,
        115u8,
        34u8,
        58u8,
        116u8,
        114u8,
        117u8,
        101u8,
        44u8,
        34u8,
        98u8,
        111u8,
        100u8,
        121u8,
        34u8,
        58u8,
        34u8,
    ]
}

/// `{"success":false,"body":"`
pub open spec fn lit_failure_prefix() -> Seq<u8> {
    seq![
        123u8,
        34u8,
        115u8,
        117u8,
        99u8,
        99u8,
        101u8,
        115u8,
        115u8,
        34u8,
        58u8,
        102u8,
        97u8,
        108u8,
        115u8,
        101u8,
        44u8,
        34u8,
        98u8,
        111u8,
        100u8,
        121u8,
        34u8,
        58u8,
        34u8,
    ]
}

/// `","headers":`
pub open spec fn lit_headers_infix() -> Seq<u8> {
    seq![34u8, 44u8, 34u8, 104u8, 101u8, 97u8, 100u8, 101u8, 114u8, 115u8, 34u8, 58u8]
}

/// `"}`
pub open spec fn lit_end() -> Seq<u8> {
    seq![34u8, 125u8]
}

/// The failure envelope: `{"success":false,"body":"<diag>"}`.
pub open spec fn failure_envelope(diag: Seq<u8>) -> Seq<u8> {
    lit_failure_prefix() + escaped(diag) + lit_end()
}

/// The success envelope:
/// `{"success":true,"body":"<b64>","headers":{...}}`.
pub open spec fn success_envelope(b64: Seq<u8>, hs: Seq<(Seq<u8>, Seq<u8>)>) -> Seq<u8> {
    lit_success_prefix() + escaped(b64) + lit_headers_infix() + headers_object(hs) + seq![125u8]
}

/// The lowercase hex digit for `n`.
fn hex_char(n: u8) -> (r: u8)
    requires
        n < 16,
    ensures
        r == hex_digit(n),
{
    if n < 10 {
        48 + n
    } else {
        87 + n
    }
}

/// Appends the escaped form of `s` to `out`.
pub fn escape_into(out: &mut Vec<u8>, s: &Vec<u8>)
    ensures
        final(out)@ == old(out)@ + escaped(s@),
{
    let mut i: usize = 0;
    while i < s.len()
        invariant
            i <= s.len(),
            out@ == old(out)@ + escaped(s@.take(i as int)),
        decreases s.len() - i,
    {
        let b = s[i];
        if b == 34 {
            out.push(92);
            out.push(34);
        } else if b == 92 {
            out.push(92);
            out.push(92);
        } else if b < 32 {
            out.push(92);
            out.push(117);
            out.push(48);
            out.push(48);
            out.push(hex_char(b / 16));
            out.push(hex_char(b % 16));
        } else {
            out.push(b);
        }
        i += 1;
        proof {
            let k = i as int - 1;
            assert(s@.take(k + 1) =~= s@.take(k) + seq![s@[k]]);
            lemma_escaped_concat(s@.take(k), seq![s@[k]]);
            lemma_escaped_single(s@[k]);
            assert(out@ =~= old(out)@ + escaped(s@.take(k + 1)));
        }
    }
    proof {
        assert(s@.take(s@.len() as int) =~= s@);
    }
}

/// Appends the bytes of `{"success":true,"body":"` to `out`.
fn push_success_prefix(out: &mut Vec<u8>)
    ensures
        final(out)@ == old(out)@ + lit_success_prefix(),
{
    let chunk: Vec<u8> = vec![
        123u8,
        34u8,
        115u8,
        117u8,
        99u8,
        99u8,
        101u8,
        115u8,
        115u8,
        34u8,
        58u8,
        116u8,
        114u8,
        117u8,
        101u8,
        44u8,
        34u8,
        98u8,
        111u8,
        100u8,
        121u8,
        34u8,
        58u8,
        34u8,
    ];
    proof {
        assert(chunk@ =~= lit_success_prefix());
    }
    crate::util::push_all(out, &chunk);
}

/// Appends the bytes of `{"success":false,"body":"` to `out`.
fn push_failure_prefix(out: &mut Vec<u8>)
    ensures
        final(out)@ == old(out)@ + lit_failure_prefix(),
{
    let chunk: Vec<u8> = vec![
        123u8,
        34u8,
        115u8,
        117u8,
        99u8,
        99u8,
        101u8,
        115u8,
        115u8,
        34u8,
        58u8,
        102u8,
        97u8,
        108u8,
        115u8,
        101u8,
        44u8,
        34u8,
        98u8,
        111u8,
        100u8,
        121u8,
        34u8,
        58u8,
        34u8,
    ];
    proof {
        assert(chunk@ =~= lit_failure_prefix());
    }
    crate::util::push_all(out, &chunk);
}

/// Appends the bytes of `","headers":` to `out`.
fn push_headers_infix(out: &mut Vec<u8>)
    ensures
        final(out)@ == old(out)@ + lit_headers_infix(),
{
    let chunk: Vec<u8> = vec![
        34u8,
        44u8,
        34u8,
        104u8,
        101u8,
        97u8,
        100u8,
        101u8,
        114u8,
        115u8,
        34u8,
        58u8,
    ];
    proof {
        assert(chunk@ =~= lit_headers_infix());
    }
    crate::util::push_all(out, &chunk);
}

/// Dropping the last entry commutes with rendering the items.
proof fn lemma_header_items_snoc(hs: Seq<(Seq<u8>, Seq<u8>)>)
    requires
        hs.len() >= 2,
    ensures
        header_items(hs) == header_items(hs.drop_last()) + seq![44u8] + header_item(hs.last()),
    decreases hs.len(),
{
    let t = hs.drop_first();
    assert(header_items(hs) == header_item(hs[0]) + seq![44u8] + header_items(t));
    if hs.len() == 2 {
        assert(t.len() == 1);
        assert(header_items(t) == header_item(t[0]));
        assert(t[0] == hs[1]);
        assert(hs.drop_last().len() == 1);
        assert(header_items(hs.drop_last()) == header_item(hs.drop_last()[0]));
        assert(hs.drop_last()[0] == hs[0]);
        assert(header_items(hs) =~= header_items(hs.drop_last()) + seq![44u8] + header_item(
            hs.last(),
        ));
    } else {
        lemma_header_items_snoc(t);
        assert(t.drop_last() =~= hs.drop_last().drop_first());
        assert(t.last() == hs.last());
        assert(hs.drop_last().len() >= 2);
        assert(header_items(hs.drop_last()) == header_item(hs.drop_last()[0]) + seq![44u8]
            + header_items(hs.drop_last().drop_first()));
        assert(hs.drop_last()[0] == hs[0]);
        assert(header_items(hs) =~= header_items(hs.drop_last()) + seq![44u8] + header_item(
            hs.last(),
        ));
    }
}

/// Appends one `"name":"value"` item to `out`.
fn push_header_item(out: &mut Vec<u8>, name: &Vec<u8>, value: &Vec<u8>)
    ensures
        final(out)@ == old(out)@ + header_item((name@, value@)),
{
    out.push(34);
    escape_into(out, name);
    out.push(34);
    out.push(58);
    out.push(34);
    escape_into(out, value);
    out.push(34);
    proof {
        assert(out@ =~= old(out)@ + header_item((name@, value@)));
    }
}

/// Renders the headers object `{"n1":"v1",...}` for the given entries.
pub fn render_headers_object(hs: &Vec<(Vec<u8>, Vec<u8>)>) -> (r: Vec<u8>)
    ensures
        r@ == headers_object(pairs_view(hs@)),
{
    let ghost hsv = pairs_view(hs@);
    let mut out: Vec<u8> = Vec::new();
    out.push(123);
    let mut i: usize = 0;
    while i < hs.len()
        invariant
            i <= hs.len(),
            hsv == pairs_view(hs@),
            hsv.len() == hs@.len(),
            out@ == seq![123u8] + header_items(hsv.take(i as int)),
        decreases hs.len() - i,
    {
        if i > 0 {
            out.push(44);
        }
        push_header_item(&mut out, &hs[i].0, &hs[i].1);
        i += 1;
        proof {
            let k = i as int - 1;
            assert(hsv[k] == (hs@[k].0@, hs@[k].1@));
            if k == 0 {
                assert(hsv.take(1).len() == 1);
                assert(hsv.take(1)[0] == hsv[0]);
                assert(out@ =~= seq![123u8] + header_items(hsv.take(1)));
            } else {
                lemma_header_items_snoc(hsv.take(k + 1));
                assert(hsv.take(k + 1).drop_last() =~= hsv.take(k));
                assert(hsv.take(k + 1).last() == hsv[k]);
                assert(out@ =~= seq![123u8] + header_items(hsv.take(k + 1)));
            }
        }
    }
    out.push(125);
    proof {
        assert(hsv.take(hsv.len() as int) =~= hsv);
        assert(out@ =~= headers_object(hsv));
    }
    out
}

/// Builds the failure envelope around the given diagnostic text.
pub fn build_failure_envelope(diag: &Vec<u8>) -> (r: Vec<u8>)
    ensures
        r@ == failure_envelope(diag@),
{
    let mut out: Vec<u8> = Vec::new();
    push_failure_prefix(&mut out);
    escape_into(&mut out, diag);
    out.push(34);
    out.push(125);
    proof {
        assert(out@ =~= failure_envelope(diag@));
    }
    out
}

/// Builds the success envelope around an already text-encoded body and
/// the decoded response headers.
pub fn build_success_envelope(b64: &Vec<u8>, hs: &Vec<(Vec<u8>, Vec<u8>)>) -> (r: Vec<u8>)
    ensures
        r@ == success_envelope(b64@, pairs_view(hs@)),
{
    let mut out: Vec<u8> = Vec::new();
    push_success_prefix(&mut out);
    escape_into(&mut out, b64);
    push_headers_infix(&mut out);
    let obj = render_headers_object(hs);
    crate::util::push_all(&mut out, &obj);
    out.push(125);
    proof {
        assert(out@ =~= success_envelope(b64@, pairs_view(hs@)));
    }
    out
}

} // verus!
