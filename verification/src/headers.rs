//! Header codec: validation of header names and values, re-encoding of a
//! loosely-typed name/value mapping into a wire-ready header set, and the
//! lossless decoding of a header set back into that mapping.
//!
//! A header name must be a non-empty HTTP token (letters, digits and the
//! token punctuation); uppercase letters are accepted and normalised to
//! lowercase.  A header value may hold any byte that is not a control
//! character, except horizontal tab, which is allowed; only values made of
//! printable characters (and tab) can be decoded back to text.
//!
//! A header set is a mapping: encoding collapses entries whose names
//! collide after lowercasing, the last value winning, so each distinct
//! name stands in the set exactly once.

use vstd::prelude::*;

verus! {

/// Whether `b` may appear in a header name: the HTTP token characters,
/// uppercase and lowercase letters included.
pub open spec fn is_name_byte(b: u8) -> bool {
    ||| (48 <= b <= 57)  // 0-9
    ||| (65 <= b <= 90)  // A-Z
    ||| (97 <= b <= 122)  // a-z
    ||| (33 <= b <= 39)  // ! " # $ % & '
    ||| b == 42 || b == 43 || b == 45 || b == 46  // * + - .
    ||| (94 <= b <= 96)  // ^ _ `
    ||| b == 124 || b == 126  // | ~
}

/// Whether `b` may appear in a header value: anything but a control
/// character, except that horizontal tab is allowed.
pub open spec fn is_value_byte(b: u8) -> bool {
    (32 <= b && b != 127) || b == 9
}

/// Whether `b` may appear in a header value that decodes back to text:
/// a printable character or horizontal tab.
pub open spec fn is_text_byte(b: u8) -> bool {
    (32 <= b < 127) || b == 9
}

/// A valid header name: a non-empty run of token characters.
pub open spec fn valid_name(n: Seq<u8>) -> bool {
    n.len() > 0 && forall|i: int| 0 <= i < n.len() ==> is_name_byte(#[trigger] n[i])
}

/// A valid header value.
pub open spec fn valid_value(v: Seq<u8>) -> bool {
    forall|i: int| 0 <= i < v.len() ==> is_value_byte(#[trigger] v[i])
}

/// A header value that is representable as text.
pub open spec fn text_value(v: Seq<u8>) -> bool {
    forall|i: int| 0 <= i < v.len() ==> is_text_byte(#[trigger] v[i])
}

/// The lowercase form of a byte: uppercase letters are shifted down,
/// everything else is unchanged.
pub open spec fn lower_byte(b: u8) -> u8 {
    if 65 <= b <= 90 {
        (b + 32) as u8
    } else {
        b
    }
}

/// The lowercase form of a header name.
pub open spec fn lower_name(n: Seq<u8>) -> Seq<u8> {
    n.map_values(|b: u8| lower_byte(b))
}

/// A header name already in its stored form: valid and free of uppercase.
pub open spec fn lower_valid_name(n: Seq<u8>) -> bool {
    valid_name(n) && lower_name(n) == n
}

/// The mapping view of a list of name/value pairs.
pub open spec fn pairs_view(entries: Seq<(Vec<u8>, Vec<u8>)>) -> Seq<(Seq<u8>, Seq<u8>)> {
    entries.map_values(|p: (Vec<u8>, Vec<u8>)| (p.0@, p.1@))
}

/// One raw entry is acceptable: valid name, valid value.
pub open spec fn entry_ok(e: (Seq<u8>, Seq<u8>)) -> bool {
    valid_name(e.0) && valid_value(e.1)
}

/// The encoded form of one acceptable raw entry: name lowered, value kept.
pub open spec fn encode_entry(e: (Seq<u8>, Seq<u8>)) -> (Seq<u8>, Seq<u8>) {
    (lower_name(e.0), e.1)
}

/// The encoded form of a raw mapping whose entries are all acceptable.
pub open spec fn encode_mapping(raw: Seq<(Seq<u8>, Seq<u8>)>) -> Seq<(Seq<u8>, Seq<u8>)> {
    raw.map_values(|e: (Seq<u8>, Seq<u8>)| encode_entry(e))
}

/// Whether some entry of `s` carries the name `n`.
pub open spec fn contains_name(s: Seq<(Seq<u8>, Seq<u8>)>, n: Seq<u8>) -> bool {
    exists|i: int| 0 <= i < s.len() && (#[trigger] s[i]).0 == n
}

/// The index of an entry of `s` carrying `n` — the index, once the names
/// of `s` are distinct.
pub open spec fn index_of_name(s: Seq<(Seq<u8>, Seq<u8>)>, n: Seq<u8>) -> int {
    choose|i: int| 0 <= i < s.len() && (#[trigger] s[i]).0 == n
}

/// No name appears twice: the entry list is a mapping.
pub open spec fn distinct_names(s: Seq<(Seq<u8>, Seq<u8>)>) -> bool {
    forall|i: int, j: int| 0 <= i < j < s.len() ==> (#[trigger] s[i]).0 != (#[trigger] s[j]).0
}

/// The mapping `acc` with `n` now carrying `v`: the entry is replaced in
/// place when the name is already present, appended otherwise.
pub open spec fn upsert(acc: Seq<(Seq<u8>, Seq<u8>)>, n: Seq<u8>, v: Seq<u8>) -> Seq<
    (Seq<u8>, Seq<u8>),
> {
    if contains_name(acc, n) {
        acc.update(index_of_name(acc, n), (n, v))
    } else {
        acc.push((n, v))
    }
}

/// The mapping a pair list collapses to: each distinct name exactly once,
/// in order of first occurrence, carrying the value of its last
/// occurrence.
pub open spec fn dedup_last(s: Seq<(Seq<u8>, Seq<u8>)>) -> Seq<(Seq<u8>, Seq<u8>)>
    decreases s.len(),
{
    if s.len() == 0 {
        Seq::empty()
    } else {
        upsert(dedup_last(s.drop_last()), s.last().0, s.last().1)
    }
}

/// The value of the last entry of `s` carrying `n` (empty when no entry
/// does).
pub open spec fn last_value_of(s: Seq<(Seq<u8>, Seq<u8>)>, n: Seq<u8>) -> Seq<u8>
    decreases s.len(),
{
    if s.len() == 0 {
        Seq::empty()
    } else if s.last().0 == n {
        s.last().1
    } else {
        last_value_of(s.drop_last(), n)
    }
}

/// The names of a collapsed list are distinct: it is a mapping.
pub proof fn lemma_dedup_last_distinct(s: Seq<(Seq<u8>, Seq<u8>)>)
    ensures
        distinct_names(dedup_last(s)),
    decreases s.len(),
{
    if s.len() > 0 {
        lemma_dedup_last_distinct(s.drop_last());
        let acc = dedup_last(s.drop_last());
        let n = s.last().0;
        if contains_name(acc, n) {
            let idx = index_of_name(acc, n);
            assert(0 <= idx < acc.len() && acc[idx].0 == n);
            assert forall|i: int, j: int|
                0 <= i < j < dedup_last(s).len() implies (#[trigger] dedup_last(s)[i]).0 != (
            #[trigger] dedup_last(s)[j]).0 by {
                assert(dedup_last(s)[i].0 == acc[i].0);
                assert(dedup_last(s)[j].0 == acc[j].0);
            }
        }
    }
}

/// Collapsing changes nothing when the names are already distinct.
pub proof fn lemma_dedup_last_identity(s: Seq<(Seq<u8>, Seq<u8>)>)
    requires
        distinct_names(s),
    ensures
        dedup_last(s) == s,
    decreases s.len(),
{
    if s.len() == 0 {
        assert(dedup_last(s) =~= s);
    } else {
        let front = s.drop_last();
        lemma_dedup_last_identity(front);
        if contains_name(front, s.last().0) {
            let i = choose|i: int|
                0 <= i < front.len() && (#[trigger] front[i]).0 == s.last().0;
            assert(s[i].0 == s[s.len() - 1].0);
            assert(false);
        }
        assert(front.push(s.last()) =~= s);
    }
}

/// What the collapsed list holds: a name stands in it exactly when some
/// entry of the original carried it, and it carries the value of the last
/// such entry — later pairs win.
pub proof fn lemma_dedup_last_is_mapping(s: Seq<(Seq<u8>, Seq<u8>)>)
    ensures
        forall|n: Seq<u8>| #[trigger]
            contains_name(dedup_last(s), n) <==> contains_name(s, n),
        forall|i: int|
            0 <= i < dedup_last(s).len() ==> (#[trigger] dedup_last(s)[i]).1 == last_value_of(
                s,
                dedup_last(s)[i].0,
            ),
    decreases s.len(),
{
    if s.len() == 0 {
        assert forall|n: Seq<u8>| #[trigger]
            contains_name(dedup_last(s), n) <==> contains_name(s, n) by {
            assert(dedup_last(s) =~= Seq::<(Seq<u8>, Seq<u8>)>::empty());
        }
    } else {
        let front = s.drop_last();
        let e = s.last();
        let acc = dedup_last(front);
        let d = dedup_last(s);
        lemma_dedup_last_is_mapping(front);
        lemma_dedup_last_distinct(front);
        assert forall|n: Seq<u8>| #[trigger]
            contains_name(d, n) <==> contains_name(s, n) by {
            lemma_dedup_step_contains(s, n);
        }
        assert forall|i: int| 0 <= i < d.len() implies (#[trigger] d[i]).1 == last_value_of(
            s,
            d[i].0,
        ) by {
            if contains_name(acc, e.0) {
                let idx = index_of_name(acc, e.0);
                assert(0 <= idx < acc.len() && acc[idx].0 == e.0);
                if i == idx {
                    assert(d[i] == (e.0, e.1));
                } else {
                    assert(d[i] == acc[i]);
                    assert(acc[i].0 != e.0);
                    assert(last_value_of(s, acc[i].0) == last_value_of(front, acc[i].0));
                }
            } else {
                if i == d.len() - 1 {
                    assert(d[i] == (e.0, e.1));
                } else {
                    assert(d[i] == acc[i]);
                    assert(acc[i].0 != e.0) by {
                        if acc[i].0 == e.0 {
                            assert(contains_name(acc, e.0));
                        }
                    }
                    assert(last_value_of(s, acc[i].0) == last_value_of(front, acc[i].0));
                }
            }
        }
    }
}

/// One collapsing step: the last pair's name joins the names, the rest
/// stay.
proof fn lemma_dedup_step_contains(s: Seq<(Seq<u8>, Seq<u8>)>, n: Seq<u8>)
    requires
        s.len() > 0,
        forall|m: Seq<u8>| #[trigger]
            contains_name(dedup_last(s.drop_last()), m) <==> contains_name(s.drop_last(), m),
    ensures
        contains_name(dedup_last(s), n) <==> contains_name(s, n),
{
    let front = s.drop_last();
    let e = s.last();
    let acc = dedup_last(front);
    let d = dedup_last(s);
    if contains_name(d, n) {
        let k = choose|k: int| 0 <= k < d.len() && (#[trigger] d[k]).0 == n;
        if contains_name(acc, e.0) {
            let idx = index_of_name(acc, e.0);
            assert(0 <= idx < acc.len() && acc[idx].0 == e.0);
            if k == idx {
                assert(s[s.len() - 1].0 == n);
            } else {
                assert(d[k] == acc[k]);
                assert(contains_name(acc, n));
                let j = choose|j: int|
                    0 <= j < front.len() && (#[trigger] front[j]).0 == n;
                assert(s[j].0 == n);
            }
        } else {
            if k == d.len() - 1 {
                assert(s[s.len() - 1].0 == n);
            } else {
                assert(d[k] == acc[k]);
                assert(contains_name(acc, n));
                let j = choose|j: int|
                    0 <= j < front.len() && (#[trigger] front[j]).0 == n;
                assert(s[j].0 == n);
            }
        }
    }
    if contains_name(s, n) {
        let k = choose|k: int| 0 <= k < s.len() && (#[trigger] s[k]).0 == n;
        if k == s.len() - 1 {
            if contains_name(acc, e.0) {
                let idx = index_of_name(acc, e.0);
                assert(0 <= idx < acc.len() && acc[idx].0 == e.0);
                assert(d[idx] == (e.0, e.1));
                assert(d[idx].0 == n);
            } else {
                assert(d[d.len() - 1] == (e.0, e.1));
                assert(d[d.len() - 1].0 == n);
            }
        } else {
            assert(front[k].0 == n);
            assert(contains_name(front, n));
            assert(contains_name(acc, n));
            let j = choose|j: int| 0 <= j < acc.len() && (#[trigger] acc[j]).0 == n;
            if contains_name(acc, e.0) {
                let idx = index_of_name(acc, e.0);
                assert(0 <= idx < acc.len() && acc[idx].0 == e.0);
                if j == idx {
                    assert(d[j] == (e.0, e.1));
                    assert(acc[j].0 == e.0);
                    assert(d[j].0 == n);
                } else {
                    assert(d[j] == acc[j]);
                }
            } else {
                assert(d[j] == acc[j]);
            }
        }
    }
}

/// A validated header set, ready for the wire: a mapping — every name is
/// a lowercase token and appears exactly once — whose values are valid
/// header values.
pub struct HeaderSet {
    pub entries: Vec<(Vec<u8>, Vec<u8>)>,
}

impl View for HeaderSet {
    type V = Seq<(Seq<u8>, Seq<u8>)>;

    open spec fn view(&self) -> Seq<(Seq<u8>, Seq<u8>)> {
        pairs_view(self.entries@)
    }
}

impl HeaderSet {
    /// Well-formedness: what `encode` establishes and the relay relies
    /// on — valid lowercase names, valid values, and no name twice.
    pub open spec fn wf(&self) -> bool {
        &&& forall|i: int|
            0 <= i < self@.len() ==> lower_valid_name(#[trigger] self@[i].0) && valid_value(
                self@[i].1,
            )
        &&& distinct_names(self@)
    }
}

/// Why a raw mapping was rejected: the first offending entry, with the
/// offending name (and value), as handed in by the caller.
#[derive(Debug)]
pub enum HeaderError {
    InvalidName { index: usize, name: Vec<u8> },
    InvalidValue { index: usize, name: Vec<u8>, value: Vec<u8> },
}

/// What `encode` promises of an error: it names the first entry that is
/// not acceptable, and carries that entry's bytes.
pub open spec fn encode_error_ok(raw: Seq<(Seq<u8>, Seq<u8>)>, e: HeaderError) -> bool {
    match e {
        HeaderError::InvalidName { index, name } => {
            &&& 0 <= index < raw.len()
            &&& !valid_name(raw[index as int].0)
            &&& name@ == raw[index as int].0
            &&& forall|j: int| 0 <= j < index ==> entry_ok(#[trigger] raw[j])
        },
        HeaderError::InvalidValue { index, name, value } => {
            &&& 0 <= index < raw.len()
            &&& valid_name(raw[index as int].0)
            &&& !valid_value(raw[index as int].1)
            &&& name@ == raw[index as int].0
            &&& value@ == raw[index as int].1
            &&& forall|j: int| 0 <= j < index ==> entry_ok(#[trigger] raw[j])
        },
    }
}

/// Whether every byte of `n` is a token character and `n` is non-empty.
fn check_name(n: &Vec<u8>) -> (r: bool)
    ensures
        r == valid_name(n@),
{
    if n.len() == 0 {
        return false;
    }
    let mut i: usize = 0;
    while i < n.len()
        invariant
            i <= n.len(),
            n@.len() > 0,
            forall|j: int| 0 <= j < i ==> is_name_byte(#[trigger] n@[j]),
        decreases n.len() - i,
    {
        let b = n[i];
        let ok = (48 <= b && b <= 57) || (65 <= b && b <= 90) || (97 <= b && b <= 122) || (33 <= b
            && b <= 39) || b == 42 || b == 43 || b == 45 || b == 46 || (94 <= b && b <= 96) || b
            == 124 || b == 126;
        if !ok {
            return false;
        }
        i += 1;
    }
    true
}

/// Whether every byte of `v` may appear in a header value.
fn check_value(v: &Vec<u8>) -> (r: bool)
    ensures
        r == valid_value(v@),
{
    let mut i: usize = 0;
    while i < v.len()
        invariant
            i <= v.len(),
            forall|j: int| 0 <= j < i ==> is_value_byte(#[trigger] v@[j]),
        decreases v.len() - i,
    {
        let b = v[i];
        if !((32 <= b && b != 127) || b == 9) {
            return false;
        }
        i += 1;
    }
    true
}

/// Whether every byte of `v` is printable text or tab.
fn check_text(v: &Vec<u8>) -> (r: bool)
    ensures
        r == text_value(v@),
{
    let mut i: usize = 0;
    while i < v.len()
        invariant
            i <= v.len(),
            forall|j: int| 0 <= j < i ==> is_text_byte(#[trigger] v@[j]),
        decreases v.len() - i,
    {
        let b = v[i];
        if !((32 <= b && b < 127) || b == 9) {
            return false;
        }
        i += 1;
    }
    true
}

/// The lowercase copy of a name.
fn lower_copy(n: &Vec<u8>) -> (r: Vec<u8>)
    ensures
        r@ == lower_name(n@),
{
    let mut out: Vec<u8> = Vec::new();
    let mut i: usize = 0;
    while i < n.len()
        invariant
            i <= n.len(),
            out@ == lower_name(n@.take(i as int)),
        decreases n.len() - i,
    {
        let b = n[i];
        if 65 <= b && b <= 90 {
            out.push(b + 32);
        } else {
            out.push(b);
        }
        i += 1;
        proof {
            assert(out@ =~= lower_name(n@.take(i as int)));
        }
    }
    proof {
        assert(n@.take(n@.len() as int) =~= n@);
    }
    out
}

/// Finds the entry of `entries` carrying `name`, if any.
fn find_name(entries: &Vec<(Vec<u8>, Vec<u8>)>, name: &Vec<u8>) -> (r: Option<usize>)
    ensures
        match r {
            Some(j) => 0 <= j < entries@.len() && pairs_view(entries@)[j as int].0 == name@,
            None => !contains_name(pairs_view(entries@), name@),
        },
{
    let mut i: usize = 0;
    while i < entries.len()
        invariant
            i <= entries.len(),
            forall|k: int| 0 <= k < i ==> (#[trigger] pairs_view(entries@)[k]).0 != name@,
        decreases entries.len() - i,
    {
        if crate::util::bytes_eq(&entries[i].0, name) {
            proof {
                assert(pairs_view(entries@)[i as int].0 == entries@[i as int].0@);
            }
            return Some(i);
        }
        proof {
            assert(pairs_view(entries@)[i as int].0 == entries@[i as int].0@);
        }
        i += 1;
    }
    proof {
        assert(pairs_view(entries@).len() == entries@.len());
    }
    None
}

/// Validates a raw name/value list into a header set: every name must be
/// a header token (normalised to lowercase), every value a valid header
/// value.  The first unacceptable entry aborts the whole encoding and is
/// reported with its bytes.  Entries whose names collide after
/// lowercasing are merged: the set is a mapping, and the last value
/// wins.
pub fn encode(raw: &Vec<(Vec<u8>, Vec<u8>)>) -> (r: Result<HeaderSet, HeaderError>)
    ensures
        match r {
            Ok(hs) => {
                &&& forall|i: int| 0 <= i < raw@.len() ==> entry_ok(#[trigger] pairs_view(raw@)[i])
                &&& hs@ == dedup_last(encode_mapping(pairs_view(raw@)))
                &&& hs.wf()
            },
            Err(e) => encode_error_ok(pairs_view(raw@), e),
        },
        (r is Ok) <==> (forall|i: int|
            0 <= i < raw@.len() ==> entry_ok(#[trigger] pairs_view(raw@)[i])),
{
    let ghost rawv = pairs_view(raw@);
    let mut entries: Vec<(Vec<u8>, Vec<u8>)> = Vec::new();
    let mut i: usize = 0;
    while i < raw.len()
        invariant
            i <= raw.len(),
            rawv == pairs_view(raw@),
            rawv.len() == raw@.len(),
            forall|j: int| 0 <= j < i ==> entry_ok(#[trigger] rawv[j]),
            pairs_view(entries@) == dedup_last(encode_mapping(rawv.take(i as int))),
            distinct_names(pairs_view(entries@)),
            forall|j: int|
                0 <= j < entries@.len() ==> lower_valid_name(
                    (#[trigger] pairs_view(entries@)[j]).0,
                ) && valid_value(pairs_view(entries@)[j].1),
        decreases raw.len() - i,
    {
        let name = &raw[i].0;
        let value = &raw[i].1;
        if !check_name(name) {
            return Err(HeaderError::InvalidName { index: i, name: crate::util::copy_bytes(name) });
        }
        if !check_value(value) {
            return Err(
                HeaderError::InvalidValue {
                    index: i,
                    name: crate::util::copy_bytes(name),
                    value: crate::util::copy_bytes(value),
                },
            );
        }
        let ghost prev = entries@;
        let lowered = lower_copy(name);
        let kept = crate::util::copy_bytes(value);
        let found = find_name(&entries, &lowered);
        proof {
            let k = i as int;
            let em_k = encode_mapping(rawv.take(k));
            let em_k1 = encode_mapping(rawv.take(k + 1));
            assert(rawv[k] == (raw@[k].0@, raw@[k].1@));
            assert forall|j: int| 0 <= j < k + 1 implies #[trigger] em_k1[j] == (if j < k {
                em_k[j]
            } else {
                (lowered@, kept@)
            }) by {
                assert(em_k1[j] == encode_entry(rawv.take(k + 1)[j]));
                if j < k {
                    assert(em_k[j] == encode_entry(rawv.take(k)[j]));
                }
            }
            assert(em_k1.drop_last() =~= em_k);
            assert(em_k1.last() == (lowered@, kept@));
            assert(dedup_last(em_k1) == upsert(dedup_last(em_k), lowered@, kept@));
            lemma_lower_name_valid(rawv[k].0);
        }
        match found {
            Some(j) => {
                entries[j] = (lowered, kept);
                proof {
                    let k = i as int;
                    let d = dedup_last(encode_mapping(rawv.take(k)));
                    assert(contains_name(d, lowered@));
                    let idx = index_of_name(d, lowered@);
                    assert(0 <= idx < d.len() && d[idx].0 == lowered@);
                    assert(idx == j as int);
                    assert(pairs_view(entries@) =~= d.update(j as int, (lowered@, kept@)));
                    assert forall|p: int, q: int|
                        0 <= p < q < pairs_view(entries@).len() implies (#[trigger] pairs_view(
                        entries@,
                    )[p]).0 != (#[trigger] pairs_view(entries@)[q]).0 by {
                        assert(pairs_view(entries@)[p].0 == d[p].0);
                        assert(pairs_view(entries@)[q].0 == d[q].0);
                    }
                }
            },
            None => {
                entries.push((lowered, kept));
                proof {
                    assert(pairs_view(entries@) =~= pairs_view(prev).push((lowered@, kept@)));
                    assert forall|p: int, q: int|
                        0 <= p < q < pairs_view(entries@).len() implies (#[trigger] pairs_view(
                        entries@,
                    )[p]).0 != (#[trigger] pairs_view(entries@)[q]).0 by {
                        if q < pairs_view(prev).len() {
                            assert(pairs_view(entries@)[p] == pairs_view(prev)[p]);
                            assert(pairs_view(entries@)[q] == pairs_view(prev)[q]);
                        } else {
                            assert(pairs_view(entries@)[p] == pairs_view(prev)[p]);
                            assert(pairs_view(entries@)[q] == (lowered@, kept@));
                        }
                    }
                }
            },
        }
        i += 1;
        proof {
            assert(pairs_view(entries@) == dedup_last(encode_mapping(rawv.take(i as int))));
        }
    }
    proof {
        assert(rawv.take(rawv.len() as int) =~= rawv);
    }
    let hs = HeaderSet { entries };
    Ok(hs)
}

/// Lowering a valid name keeps it valid, and lowering is idempotent.
pub proof fn lemma_lower_name_valid(n: Seq<u8>)
    requires
        valid_name(n),
    ensures
        valid_name(lower_name(n)),
        lower_name(lower_name(n)) == lower_name(n),
{
    assert forall|i: int| 0 <= i < lower_name(n).len() implies is_name_byte(
        #[trigger] lower_name(n)[i],
    ) by {
        assert(is_name_byte(n[i]));
    }
    assert(lower_name(lower_name(n)) =~= lower_name(n));
}

/// Why a header set could not be decoded back to a text mapping: the
/// first entry whose value is not representable as text.
#[derive(Debug)]
pub struct DecodeError {
    pub index: usize,
    pub name: Vec<u8>,
    pub value: Vec<u8>,
}

/// What `decode` promises of an error.
pub open spec fn decode_error_ok(hs: Seq<(Seq<u8>, Seq<u8>)>, e: DecodeError) -> bool {
    &&& 0 <= e.index < hs.len()
    &&& !text_value(hs[e.index as int].1)
    &&& e.name@ == hs[e.index as int].0
    &&& e.value@ == hs[e.index as int].1
    &&& forall|j: int| 0 <= j < e.index ==> text_value(#[trigger] hs[j].1)
}

/// Reads a header set back into the loosely-typed mapping.  Lossless:
/// when every value is printable text (or tab) the result is exactly the
/// set's entries; the first value that is not representable as text
/// aborts the decoding and is reported with its bytes.
pub fn decode(hs: &HeaderSet) -> (r: Result<Vec<(Vec<u8>, Vec<u8>)>, DecodeError>)
    ensures
        match r {
            Ok(m) => {
                &&& pairs_view(m@) == hs@
                &&& forall|i: int| 0 <= i < hs@.len() ==> text_value(#[trigger] hs@[i].1)
            },
            Err(e) => decode_error_ok(hs@, e),
        },
        (r is Ok) <==> (forall|i: int| 0 <= i < hs@.len() ==> text_value(#[trigger] hs@[i].1)),
{
    let mut out: Vec<(Vec<u8>, Vec<u8>)> = Vec::new();
    let mut i: usize = 0;
    while i < hs.entries.len()
        invariant
            i <= hs.entries.len(),
            forall|j: int| 0 <= j < i ==> text_value(#[trigger] hs@[j].1),
            pairs_view(out@) == hs@.take(i as int),
        decreases hs.entries.len() - i,
    {
        let name = &hs.entries[i].0;
        let value = &hs.entries[i].1;
        if !check_text(value) {
            return Err(
                DecodeError {
                    index: i,
                    name: crate::util::copy_bytes(name),
                    value: crate::util::copy_bytes(value),
                },
            );
        }
        let ghost prev = out@;
        out.push((crate::util::copy_bytes(name), crate::util::copy_bytes(value)));
        i += 1;
        proof {
            let k = i as int - 1;
            assert(hs@[k] == (hs.entries@[k].0@, hs.entries@[k].1@));
            assert(pairs_view(prev).len() == prev.len());
            assert(prev.len() == k);
            assert(out@.len() == k + 1);
            assert(pairs_view(out@).len() == k + 1);
            assert forall|j: int| 0 <= j < i implies pairs_view(out@)[j] == hs@.take(
                i as int,
            )[j] by {
                assert(pairs_view(out@)[j] == (out@[j].0@, out@[j].1@));
                if j < k {
                    assert(out@[j] == prev[j]);
                    assert(pairs_view(prev)[j] == (prev[j].0@, prev[j].1@));
                    assert(pairs_view(prev)[j] == hs@.take(k)[j]);
                }
            }
            assert(pairs_view(out@) =~= hs@.take(i as int));
        }
    }
    proof {
        assert(hs@.take(hs@.len() as int) =~= hs@);
    }
    Ok(out)
}

/// Encoding a raw mapping and decoding the result is lossless: every
/// value comes back unchanged, and every name comes back as its lowercase
/// form — unchanged whenever it was already lowercase.  Holds for every
/// mapping whose names are valid tokens, distinct after lowercasing (a
/// mapping has each name once), and whose values are printable text (or
/// tab).
pub proof fn lemma_encode_decode_lossless(raw: Seq<(Seq<u8>, Seq<u8>)>)
    requires
        forall|i: int| 0 <= i < raw.len() ==> valid_name(#[trigger] raw[i].0),
        forall|i: int| 0 <= i < raw.len() ==> text_value(#[trigger] raw[i].1),
        forall|i: int, j: int|
            0 <= i < j < raw.len() ==> lower_name((#[trigger] raw[i]).0) != lower_name(
                (#[trigger] raw[j]).0,
            ),
    ensures
        forall|i: int| 0 <= i < raw.len() ==> entry_ok(#[trigger] raw[i]),
        dedup_last(encode_mapping(raw)) == encode_mapping(raw),
        encode_mapping(raw).len() == raw.len(),
        forall|i: int|
            0 <= i < raw.len() ==> text_value((#[trigger] encode_mapping(raw)[i]).1),
        forall|i: int| 0 <= i < raw.len() ==> (#[trigger] encode_mapping(raw)[i]).1 == raw[i].1,
        forall|i: int|
            0 <= i < raw.len() ==> (#[trigger] encode_mapping(raw)[i]).0 == lower_name(raw[i].0),
        (forall|i: int| 0 <= i < raw.len() ==> lower_valid_name(#[trigger] raw[i].0))
            ==> dedup_last(encode_mapping(raw)) == raw,
{
    assert forall|i: int| 0 <= i < raw.len() implies entry_ok(#[trigger] raw[i]) by {
        assert(is_text_byte(raw[i].1[0]) ==> is_value_byte(raw[i].1[0]));
        assert forall|k: int| 0 <= k < raw[i].1.len() implies is_value_byte(
            #[trigger] raw[i].1[k],
        ) by {
            assert(is_text_byte(raw[i].1[k]));
        }
    }
    assert forall|i: int, j: int|
        0 <= i < j < encode_mapping(raw).len() implies (#[trigger] encode_mapping(raw)[i]).0 != (
    #[trigger] encode_mapping(raw)[j]).0 by {
        assert(encode_mapping(raw)[i] == encode_entry(raw[i]));
        assert(encode_mapping(raw)[j] == encode_entry(raw[j]));
    }
    lemma_dedup_last_identity(encode_mapping(raw));
    if forall|i: int| 0 <= i < raw.len() ==> lower_valid_name(#[trigger] raw[i].0) {
        assert(encode_mapping(raw) =~= raw);
    }
}

} // verus!
