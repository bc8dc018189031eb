//! Wire-format codec for the envelope that wraps every publish-topic record.
//!
//! The format is the usual tag/length-prefixed binary layout: a message is a
//! sequence of field records, each introduced by a key integer holding the
//! field number and a wire type, with variable-length base-128 integers for
//! keys and lengths.  This module defines the encoding as a spec-level
//! function on byte sequences and proves the executable encoder and decoder
//! against it, including the round trip.

use vstd::prelude::*;
use vstd::arithmetic::div_mod::lemma_multiply_divide_lt;
use vstd::string::StringSliceAdditionalSpecFns;
use vstd::string::StrSliceExecFns;

verus! {

/// A variable-length integer occupies at most this many bytes; longer runs
/// of continuation bytes are treated as malformed.
pub const VARINT_MAX_BYTES: usize = 10;

/// Canonical (minimal) encoding of an unsigned integer in base-128 groups,
/// least significant group first; every byte but the last has its high bit
/// set.
pub open spec fn varint_enc(n: u64) -> Seq<u8>
    decreases n,
{
    if n < 128 {
        seq![n as u8]
    } else {
        seq![(128 + n % 128) as u8] + varint_enc(n / 128)
    }
}

/// Parse a variable-length integer from the front of `s`, returning its
/// value and the number of bytes consumed.  `fuel` bounds how many bytes a
/// single integer may span.  Accepts non-minimal encodings, rejects runs
/// longer than `fuel` bytes and values that overflow 64 bits.
pub open spec fn varint_parse(s: Seq<u8>, fuel: nat) -> Option<(u64, nat)>
    decreases fuel,
{
    if fuel == 0 || s.len() == 0 {
        None
    } else if s[0] < 128 {
        Some((s[0] as u64, 1nat))
    } else {
        match varint_parse(s.skip(1), (fuel - 1) as nat) {
            None => None,
            Some(vk) => {
                if (s[0] - 128) + 128 * (vk.0 as int) <= u64::MAX {
                    Some((((s[0] - 128) + 128 * (vk.0 as int)) as u64, vk.1 + 1))
                } else {
                    None
                }
            },
        }
    }
}

/// A successful parse consumes at least one byte and no more than `s` holds.
pub proof fn lemma_varint_parse_consumed(s: Seq<u8>, fuel: nat)
    ensures
        varint_parse(s, fuel) matches Some(vk) ==> 1 <= vk.1 <= s.len(),
    decreases fuel,
{
    if s.len() > 0 && fuel > 0 && s[0] >= 128 {
        lemma_varint_parse_consumed(s.skip(1), (fuel - 1) as nat);
    }
}

/// Decode a variable-length integer starting at `pos`, mirroring
/// `varint_parse` on the remaining bytes.
pub fn decode_varint_at(buf: &Vec<u8>, pos: usize, fuel: usize) -> (r: Option<(u64, usize)>)
    requires
        pos <= buf@.len(),
    ensures
        match r {
            Some(ve) => pos < ve.1 <= buf@.len()
                && varint_parse(buf@.skip(pos as int), fuel as nat)
                    == Some((ve.0, (ve.1 - pos) as nat)),
            None => varint_parse(buf@.skip(pos as int), fuel as nat) is None,
        },
    decreases fuel,
{
    if fuel == 0 || pos == buf.len() {
        return None;
    }
    let b = buf[pos];
    if b < 128 {
        Some((b as u64, pos + 1))
    } else {
        proof {
            assert(buf@.skip(pos as int).skip(1) =~= buf@.skip(pos as int + 1));
        }
        match decode_varint_at(buf, pos + 1, fuel - 1) {
            None => None,
            Some(ve) => {
                let low: u64 = (b - 128) as u64;
                let v = ve.0;
                proof {
                    let m = (u64::MAX - low) as int;
                    vstd::arithmetic::div_mod::lemma_fundamental_div_mod(m, 128);
                    vstd::arithmetic::div_mod::lemma_mod_bound(m, 128);
                }
                if v <= (u64::MAX - low) / 128 {
                    Some((low + v * 128, ve.1))
                } else {
                    None
                }
            },
        }
    }
}

/// Append the canonical encoding of `n` to `out`.
pub fn encode_varint(out: &mut Vec<u8>, n: u64)
    ensures
        final(out)@ == old(out)@ + varint_enc(n),
    decreases n,
{
    if n < 128 {
        out.push(n as u8);
        assert(out@ =~= old(out)@ + varint_enc(n));
    } else {
        out.push((n % 128 + 128) as u8);
        encode_varint(out, n / 128);
        assert(out@ =~= old(out)@ + varint_enc(n));
    }
}

/// Parsing starts over wherever an encoding was laid down: the canonical
/// bytes of `n` followed by anything parse back to exactly `n`.
pub proof fn lemma_varint_round_trip(n: u64, rest: Seq<u8>, fuel: nat)
    requires
        fuel >= varint_enc(n).len(),
    ensures
        varint_parse(varint_enc(n) + rest, fuel) == Some((n, varint_enc(n).len() as nat)),
    decreases n,
{
    let s = varint_enc(n) + rest;
    if n < 128 {
        assert(s[0] == n as u8);
    } else {
        assert(s[0] == (128 + n % 128) as u8);
        assert(s.skip(1) =~= varint_enc(n / 128) + rest);
        lemma_varint_round_trip(n / 128, rest, (fuel - 1) as nat);
        assert((s[0] - 128) + 128 * ((n / 128) as int) == n);
    }
}

/// The canonical encoding of any 64-bit value spans 1 to 10 bytes.
pub proof fn lemma_varint_enc_len(n: u64)
    ensures
        1 <= varint_enc(n).len() <= 10,
        n < 128 ==> varint_enc(n).len() == 1,
{
    assert(pow128(1) == 128 * pow128(0));
    assert(pow128(2) == 128 * pow128(1));
    assert(pow128(3) == 128 * pow128(2));
    assert(pow128(4) == 128 * pow128(3));
    assert(pow128(5) == 128 * pow128(4));
    assert(pow128(6) == 128 * pow128(5));
    assert(pow128(7) == 128 * pow128(6));
    assert(pow128(8) == 128 * pow128(7));
    assert(pow128(9) == 128 * pow128(8));
    assert(pow128(10) == 128 * pow128(9));
    assert(pow128(10) == 1180591620717411303424);
    lemma_varint_enc_len_bounded(n, 10);
}

spec fn pow128(k: nat) -> int
    decreases k,
{
    if k == 0 {
        1
    } else {
        128 * pow128((k - 1) as nat)
    }
}

proof fn lemma_varint_enc_len_bounded(n: u64, k: nat)
    requires
        1 <= k,
        (n as int) < pow128(k),
    ensures
        1 <= varint_enc(n).len() <= k,
    decreases n,
{
    if n >= 128 {
        assert(pow128(k) == 128 * pow128((k - 1) as nat));
        lemma_multiply_divide_lt(n as int, 128, pow128((k - 1) as nat));
        lemma_varint_enc_len_bounded(n / 128, (k - 1) as nat);
    }
}

/// One field record as the decoder sees it: the value of an integer field,
/// a skipped fixed-width value, or the bytes of a length-delimited field.
pub enum WireValue {
    Uint(u64),
    Fixed64,
    Fixed32,
    Chunk(Seq<u8>),
}

/// Executable counterpart of [`WireValue`].
pub enum WireField {
    Uint(u64),
    Fixed64,
    Fixed32,
    Chunk(Vec<u8>),
}

impl View for WireField {
    type V = WireValue;

    open spec fn view(&self) -> WireValue {
        match self {
            WireField::Uint(n) => WireValue::Uint(*n),
            WireField::Fixed64 => WireValue::Fixed64,
            WireField::Fixed32 => WireValue::Fixed32,
            WireField::Chunk(d) => WireValue::Chunk(d@),
        }
    }
}

/// The field records carried by a vector of executable records.
pub open spec fn records_view(rs: Seq<(u64, WireField)>) -> Seq<(u64, WireValue)> {
    rs.map_values(|p: (u64, WireField)| (p.0, p.1@))
}

/// Prepend one parsed record to the outcome of parsing the remaining bytes.
pub open spec fn wire_cons(
    field: u64,
    v: WireValue,
    rest: Option<Seq<(u64, WireValue)>>,
) -> Option<Seq<(u64, WireValue)>> {
    match rest {
        None => None,
        Some(t) => Some(seq![(field, v)] + t),
    }
}

/// Append a parsed prefix to the outcome of parsing the remaining bytes.
pub open spec fn opt_concat(
    pre: Seq<(u64, WireValue)>,
    rest: Option<Seq<(u64, WireValue)>>,
) -> Option<Seq<(u64, WireValue)>> {
    match rest {
        None => None,
        Some(t) => Some(pre + t),
    }
}

/// Parse a whole byte sequence into its field records.  Each record is a key
/// integer (field number and wire type) followed by its value.  Keys beyond
/// 32 bits, field number zero, and the deprecated group wire types are
/// malformed, as is any truncation.
pub open spec fn wire_parse(s: Seq<u8>) -> Option<Seq<(u64, WireValue)>>
    decreases s.len(),
    via wire_parse_decreases
{
    if s.len() == 0 {
        Some(Seq::empty())
    } else {
        match varint_parse(s, 10) {
            None => None,
            Some(kk) => {
                let key = kk.0;
                let k = kk.1 as int;
                if key < 8 || key > 0xffff_ffff {
                    None
                } else {
                    let field = key / 8;
                    let wire = key % 8;
                    if wire == 0 {
                        match varint_parse(s.skip(k), 10) {
                            None => None,
                            Some(vv) => wire_cons(
                                field,
                                WireValue::Uint(vv.0),
                                wire_parse(s.skip(k + vv.1)),
                            ),
                        }
                    } else if wire == 1 {
                        if s.len() >= k + 8 {
                            wire_cons(field, WireValue::Fixed64, wire_parse(s.skip(k + 8)))
                        } else {
                            None
                        }
                    } else if wire == 5 {
                        if s.len() >= k + 4 {
                            wire_cons(field, WireValue::Fixed32, wire_parse(s.skip(k + 4)))
                        } else {
                            None
                        }
                    } else if wire == 2 {
                        match varint_parse(s.skip(k), 10) {
                            None => None,
                            Some(ll) => {
                                let len = ll.0 as int;
                                if k + ll.1 + len <= s.len() {
                                    wire_cons(
                                        field,
                                        WireValue::Chunk(s.subrange(k + ll.1, k + ll.1 + len)),
                                        wire_parse(s.skip(k + ll.1 + len)),
                                    )
                                } else {
                                    None
                                }
                            },
                        }
                    } else {
                        None
                    }
                }
            },
        }
    }
}

#[via_fn]
proof fn wire_parse_decreases(s: Seq<u8>) {
    lemma_varint_parse_consumed(s, 10);
    match varint_parse(s, 10) {
        None => {},
        Some(kk) => {
            lemma_varint_parse_consumed(s.skip(kk.1 as int), 10);
        },
    }
}

/// Copy the bytes of `buf` between `a` and `b` into a fresh vector.
pub fn vec_slice(buf: &Vec<u8>, a: usize, b: usize) -> (r: Vec<u8>)
    requires
        a <= b <= buf@.len(),
    ensures
        r@ == buf@.subrange(a as int, b as int),
{
    let mut out: Vec<u8> = Vec::new();
    let mut i = a;
    while i < b
        invariant
            a <= i <= b <= buf@.len(),
            out@ == buf@.subrange(a as int, i as int),
        decreases b - i,
    {
        out.push(buf[i]);
        i = i + 1;
        assert(out@ =~= buf@.subrange(a as int, i as int));
    }
    out
}

proof fn lemma_opt_concat_shift(
    pre: Seq<(u64, WireValue)>,
    field: u64,
    v: WireValue,
    rest: Option<Seq<(u64, WireValue)>>,
)
    ensures
        opt_concat(pre, wire_cons(field, v, rest)) == opt_concat(pre.push((field, v)), rest),
{
    match rest {
        None => {},
        Some(t) => {
            assert(pre + (seq![(field, v)] + t) =~= pre.push((field, v)) + t);
        },
    }
}

/// Split a whole buffer into its field records, mirroring [`wire_parse`].
#[verifier::rlimit(100)]
pub fn parse_wire_records(buf: &Vec<u8>) -> (r: Option<Vec<(u64, WireField)>>)
    ensures
        match r {
            Some(recs) => wire_parse(buf@) == Some(records_view(recs@)),
            None => wire_parse(buf@) is None,
        },
{
    let mut out: Vec<(u64, WireField)> = Vec::new();
    let mut pos: usize = 0;
    proof {
        assert(buf@.skip(0) =~= buf@);
        assert(records_view(out@) =~= Seq::<(u64, WireValue)>::empty());
    }
    loop
        invariant
            pos <= buf@.len(),
            wire_parse(buf@) == opt_concat(records_view(out@), wire_parse(buf@.skip(pos as int))),
        decreases buf@.len() - pos,
    {
        let ghost s = buf@.skip(pos as int);
        if pos == buf.len() {
            proof {
                assert(s.len() == 0);
                assert(records_view(out@) + Seq::<(u64, WireValue)>::empty()
                    =~= records_view(out@));
            }
            return Some(out);
        }
        let (key, key_end) = match decode_varint_at(buf, pos, VARINT_MAX_BYTES) {
            None => { return None; },
            Some(ke) => ke,
        };
        if key < 8 || key > 0xffff_ffff {
            return None;
        }
        let field = key / 8;
        let wire = key % 8;
        let ghost k = key_end - pos as int;
        let next: (u64, WireField);
        let new_pos: usize;
        if wire == 0 {
            proof {
                assert(s.skip(k) =~= buf@.skip(key_end as int));
            }
            match decode_varint_at(buf, key_end, VARINT_MAX_BYTES) {
                None => { return None; },
                Some(ve) => {
                    next = (field, WireField::Uint(ve.0));
                    new_pos = ve.1;
                    proof {
                        assert(s.skip(k + (ve.1 - key_end)) =~= buf@.skip(new_pos as int));
                    }
                },
            }
        } else if wire == 1 {
            if buf.len() - key_end < 8 {
                return None;
            }
            next = (field, WireField::Fixed64);
            new_pos = key_end + 8;
            proof {
                assert(s.skip(k + 8) =~= buf@.skip(new_pos as int));
            }
        } else if wire == 5 {
            if buf.len() - key_end < 4 {
                return None;
            }
            next = (field, WireField::Fixed32);
            new_pos = key_end + 4;
            proof {
                assert(s.skip(k + 4) =~= buf@.skip(new_pos as int));
            }
        } else if wire == 2 {
            proof {
                assert(s.skip(k) =~= buf@.skip(key_end as int));
            }
            match decode_varint_at(buf, key_end, VARINT_MAX_BYTES) {
                None => { return None; },
                Some(le) => {
                    let len_val = le.0;
                    let ghost k2 = le.1 - key_end as int;
                    if len_val > (buf.len() - le.1) as u64 {
                        proof {
                            assert(wire_parse(s) is None);
                        }
                        return None;
                    }
                    let len = len_val as usize;
                    let data = vec_slice(buf, le.1, le.1 + len);
                    next = (field, WireField::Chunk(data));
                    new_pos = le.1 + len;
                    proof {
                        assert(s.subrange(k + k2, k + k2 + len_val as int)
                            =~= buf@.subrange(le.1 as int, le.1 + len_val as int));
                        assert(s.skip(k + k2 + len_val as int) =~= buf@.skip(new_pos as int));
                    }
                },
            }
        } else {
            return None;
        }
        proof {
            let wv = next.1@;
            assert(wire_parse(s) == wire_cons(next.0, wv, wire_parse(buf@.skip(new_pos as int))));
            lemma_opt_concat_shift(records_view(out@), next.0, wv, wire_parse(buf@.skip(new_pos as int)));
            assert(records_view(out@.push(next)) =~= records_view(out@).push((next.0, wv)));
        }
        out.push(next);
        pos = new_pos;
    }
}

// ---------------------------------------------------------------------------
// The two message shapes carried over the wire.
// ---------------------------------------------------------------------------

/// Field numbers of the envelope message.
pub const ENV_FIELD_PAYLOAD: u64 = 1;

pub const ENV_FIELD_MESSAGE_TYPE: u64 = 2;

pub const ENV_FIELD_TIMESTAMP: u64 = 3;

pub const ENV_FIELD_VERSION: u64 = 4;

pub const ENV_FIELD_HEADERS: u64 = 5;

/// The outer wrapper around every publish-topic record: an opaque inner
/// payload plus a type tag, a producer timestamp, a format version and a
/// string-to-string header map (entries kept in wire order).  Text fields
/// are carried as raw bytes; text decoding is the caller's concern.
pub struct Envelope {
    pub payload: Vec<u8>,
    pub message_type: Vec<u8>,
    pub timestamp: Vec<u8>,
    pub version: Vec<u8>,
    pub headers: Vec<(Vec<u8>, Vec<u8>)>,
}

/// Mathematical model of an [`Envelope`].
#[verifier::ext_equal]
pub struct EnvelopeView {
    pub payload: Seq<u8>,
    pub message_type: Seq<u8>,
    pub timestamp: Seq<u8>,
    pub version: Seq<u8>,
    pub headers: Seq<(Seq<u8>, Seq<u8>)>,
}

impl View for Envelope {
    type V = EnvelopeView;

    open spec fn view(&self) -> EnvelopeView {
        EnvelopeView {
            payload: self.payload@,
            message_type: self.message_type@,
            timestamp: self.timestamp@,
            version: self.version@,
            headers: self.headers@.map_values(|p: (Vec<u8>, Vec<u8>)| (p.0@, p.1@)),
        }
    }
}

/// The envelope whose fields are all empty: the starting point of decoding.
pub open spec fn empty_envelope_view() -> EnvelopeView {
    EnvelopeView {
        payload: Seq::empty(),
        message_type: Seq::empty(),
        timestamp: Seq::empty(),
        version: Seq::empty(),
        headers: Seq::empty(),
    }
}

/// The single recognised type tag for inner payloads, as wire bytes.
pub open spec fn published_message_type() -> Seq<u8> {
    "hello.PublishRequest".spec_bytes()
}

/// The recognised type tag as an owned byte vector.
pub fn published_message_type_bytes() -> (r: Vec<u8>)
    ensures
        r@ == published_message_type(),
{
    "hello.PublishRequest".as_bytes_vec()
}

/// The format version the producer stamps on every envelope.
pub open spec fn envelope_version() -> Seq<u8> {
    "1.0".spec_bytes()
}

/// Wrap an encoded inner payload in an envelope, the way the producer side
/// builds one: the recognised type tag, the given producer timestamp, the
/// fixed format version, and no headers.
pub fn wrap_publish_payload(inner: Vec<u8>, timestamp: Vec<u8>) -> (e: Envelope)
    ensures
        e@.payload == inner@,
        e@.message_type == published_message_type(),
        e@.timestamp == timestamp@,
        e@.version == envelope_version(),
        e@.headers == Seq::<(Seq<u8>, Seq<u8>)>::empty(),
{
    let e = Envelope {
        payload: inner,
        message_type: published_message_type_bytes(),
        timestamp,
        version: "1.0".as_bytes_vec(),
        headers: Vec::new(),
    };
    proof {
        assert(e@.headers =~= Seq::<(Seq<u8>, Seq<u8>)>::empty());
    }
    e
}

/// The typed inner payload recognised by this pipeline: a data string and an
/// optional metadata string, both carried as raw bytes.
pub struct PublishRequest {
    pub data: Vec<u8>,
    pub metadata: Vec<u8>,
}

/// Mathematical model of a [`PublishRequest`].
#[verifier::ext_equal]
pub struct PublishRequestView {
    pub data: Seq<u8>,
    pub metadata: Seq<u8>,
}

impl View for PublishRequest {
    type V = PublishRequestView;

    open spec fn view(&self) -> PublishRequestView {
        PublishRequestView { data: self.data@, metadata: self.metadata@ }
    }
}

// ---------------------------------------------------------------------------
// Interpreting field records as messages.
// ---------------------------------------------------------------------------

/// Fold a record list into a pair of length-delimited fields numbered 1 and
/// 2, with the usual rules: later occurrences win, unknown fields are
/// skipped, and a known field with the wrong wire type is malformed.  Both a
/// header-map entry and the recognised inner payload have this shape.
pub open spec fn pair_from_records(
    recs: Seq<(u64, WireValue)>,
    a: Seq<u8>,
    b: Seq<u8>,
) -> Option<(Seq<u8>, Seq<u8>)>
    decreases recs.len(),
{
    if recs.len() == 0 {
        Some((a, b))
    } else {
        let f = recs[0].0;
        let v = recs[0].1;
        if f == 1 {
            match v {
                WireValue::Chunk(d) => pair_from_records(recs.skip(1), d, b),
                _ => None,
            }
        } else if f == 2 {
            match v {
                WireValue::Chunk(d) => pair_from_records(recs.skip(1), a, d),
                _ => None,
            }
        } else {
            pair_from_records(recs.skip(1), a, b)
        }
    }
}

/// Decode the bytes of a header-map entry into its key and value.
pub open spec fn entry_parse(s: Seq<u8>) -> Option<(Seq<u8>, Seq<u8>)> {
    match wire_parse(s) {
        None => None,
        Some(rs) => pair_from_records(rs, Seq::empty(), Seq::empty()),
    }
}

/// Fold a record list into an envelope, starting from `acc`.
pub open spec fn envelope_from_records(
    recs: Seq<(u64, WireValue)>,
    acc: EnvelopeView,
) -> Option<EnvelopeView>
    decreases recs.len(),
{
    if recs.len() == 0 {
        Some(acc)
    } else {
        let f = recs[0].0;
        let v = recs[0].1;
        if f == ENV_FIELD_PAYLOAD {
            match v {
                WireValue::Chunk(d) => envelope_from_records(
                    recs.skip(1),
                    EnvelopeView { payload: d, ..acc },
                ),
                _ => None,
            }
        } else if f == ENV_FIELD_MESSAGE_TYPE {
            match v {
                WireValue::Chunk(d) => envelope_from_records(
                    recs.skip(1),
                    EnvelopeView { message_type: d, ..acc },
                ),
                _ => None,
            }
        } else if f == ENV_FIELD_TIMESTAMP {
            match v {
                WireValue::Chunk(d) => envelope_from_records(
                    recs.skip(1),
                    EnvelopeView { timestamp: d, ..acc },
                ),
                _ => None,
            }
        } else if f == ENV_FIELD_VERSION {
            match v {
                WireValue::Chunk(d) => envelope_from_records(
                    recs.skip(1),
                    EnvelopeView { version: d, ..acc },
                ),
                _ => None,
            }
        } else if f == ENV_FIELD_HEADERS {
            match v {
                WireValue::Chunk(d) => match entry_parse(d) {
                    None => None,
                    Some(kv) => envelope_from_records(
                        recs.skip(1),
                        EnvelopeView { headers: acc.headers.push(kv), ..acc },
                    ),
                },
                _ => None,
            }
        } else {
            envelope_from_records(recs.skip(1), acc)
        }
    }
}

/// What decoding a publish-topic record's bytes as an envelope yields.
pub open spec fn spec_decode_envelope(s: Seq<u8>) -> Option<EnvelopeView> {
    match wire_parse(s) {
        None => None,
        Some(rs) => envelope_from_records(rs, empty_envelope_view()),
    }
}

/// What decoding an envelope's inner bytes as the typed payload yields.
pub open spec fn spec_decode_publish_request(s: Seq<u8>) -> Option<PublishRequestView> {
    match wire_parse(s) {
        None => None,
        Some(rs) => match pair_from_records(rs, Seq::empty(), Seq::empty()) {
            None => None,
            Some(p) => Some(PublishRequestView { data: p.0, metadata: p.1 }),
        },
    }
}

/// Copy an owned byte vector.
pub fn clone_bytes(v: &Vec<u8>) -> (r: Vec<u8>)
    ensures
        r@ == v@,
{
    let r = vec_slice(v, 0, v.len());
    proof {
        assert(v@.subrange(0, v@.len() as int) =~= v@);
    }
    r
}

/// Fold executable records into the two length-delimited fields of a
/// chunk-pair message, mirroring [`pair_from_records`].
fn fold_chunk_pair(recs: &Vec<(u64, WireField)>) -> (r: Option<(Vec<u8>, Vec<u8>)>)
    ensures
        match r {
            Some(p) => pair_from_records(records_view(recs@), Seq::empty(), Seq::empty())
                == Some((p.0@, p.1@)),
            None => pair_from_records(records_view(recs@), Seq::empty(), Seq::empty()) is None,
        },
{
    let ghost all = records_view(recs@);
    let mut a: Vec<u8> = Vec::new();
    let mut b: Vec<u8> = Vec::new();
    let mut i: usize = 0;
    proof {
        assert(all.skip(0) =~= all);
    }
    while i < recs.len()
        invariant
            i <= recs@.len(),
            all == records_view(recs@),
            pair_from_records(all, Seq::empty(), Seq::empty())
                == pair_from_records(all.skip(i as int), a@, b@),
        decreases recs@.len() - i,
    {
        proof {
            assert(all.skip(i as int)[0] == all[i as int]);
            assert(all.skip(i as int).skip(1) =~= all.skip(i as int + 1));
        }
        let rec = &recs[i];
        let f = rec.0;
        if f == 1 {
            match &rec.1 {
                WireField::Chunk(d) => { a = clone_bytes(d); },
                _ => { return None; },
            }
        } else if f == 2 {
            match &rec.1 {
                WireField::Chunk(d) => { b = clone_bytes(d); },
                _ => { return None; },
            }
        }
        i = i + 1;
    }
    proof {
        assert(all.skip(i as int).len() == 0);
    }
    Some((a, b))
}

/// Decode the bytes of a chunk-pair message (a header-map entry).
fn decode_chunk_pair(buf: &Vec<u8>) -> (r: Option<(Vec<u8>, Vec<u8>)>)
    ensures
        match r {
            Some(p) => entry_parse(buf@) == Some((p.0@, p.1@)),
            None => entry_parse(buf@) is None,
        },
{
    match parse_wire_records(buf) {
        None => None,
        Some(recs) => fold_chunk_pair(&recs),
    }
}

/// Decode a publish-topic record's bytes as an envelope.  Succeeds exactly
/// when the bytes are a well-formed envelope message and then returns its
/// fields; any malformation yields `None`.
pub fn decode_envelope(buf: &Vec<u8>) -> (r: Option<Envelope>)
    ensures
        match r {
            Some(e) => spec_decode_envelope(buf@) == Some(e@),
            None => spec_decode_envelope(buf@) is None,
        },
{
    let recs = match parse_wire_records(buf) {
        None => { return None; },
        Some(recs) => recs,
    };
    let ghost all = records_view(recs@);
    let mut env = Envelope {
        payload: Vec::new(),
        message_type: Vec::new(),
        timestamp: Vec::new(),
        version: Vec::new(),
        headers: Vec::new(),
    };
    let mut i: usize = 0;
    proof {
        assert(all.skip(0) =~= all);
        assert(env@ =~= empty_envelope_view());
    }
    while i < recs.len()
        invariant
            i <= recs@.len(),
            all == records_view(recs@),
            wire_parse(buf@) == Some(all),
            envelope_from_records(all, empty_envelope_view())
                == envelope_from_records(all.skip(i as int), env@),
        decreases recs@.len() - i,
    {
        proof {
            assert(all.skip(i as int)[0] == all[i as int]);
            assert(all.skip(i as int).skip(1) =~= all.skip(i as int + 1));
        }
        let rec = &recs[i];
        let f = rec.0;
        if f == ENV_FIELD_PAYLOAD {
            match &rec.1 {
                WireField::Chunk(d) => { env.payload = clone_bytes(d); },
                _ => { return None; },
            }
        } else if f == ENV_FIELD_MESSAGE_TYPE {
            match &rec.1 {
                WireField::Chunk(d) => { env.message_type = clone_bytes(d); },
                _ => { return None; },
            }
        } else if f == ENV_FIELD_TIMESTAMP {
            match &rec.1 {
                WireField::Chunk(d) => { env.timestamp = clone_bytes(d); },
                _ => { return None; },
            }
        } else if f == ENV_FIELD_VERSION {
            match &rec.1 {
                WireField::Chunk(d) => { env.version = clone_bytes(d); },
                _ => { return None; },
            }
        } else if f == ENV_FIELD_HEADERS {
            match &rec.1 {
                WireField::Chunk(d) => {
                    match decode_chunk_pair(d) {
                        None => { return None; },
                        Some(kv) => {
                            let ghost before = env@.headers;
                            env.headers.push(kv);
                            proof {
                                assert(env@.headers =~= before.push((kv.0@, kv.1@)));
                            }
                        },
                    }
                },
                _ => { return None; },
            }
        }
        i = i + 1;
    }
    proof {
        assert(all.skip(i as int).len() == 0);
    }
    Some(env)
}

/// Decode an envelope's inner bytes as the typed publish payload.
pub fn decode_publish_request(buf: &Vec<u8>) -> (r: Option<PublishRequest>)
    ensures
        match r {
            Some(p) => spec_decode_publish_request(buf@) == Some(p@),
            None => spec_decode_publish_request(buf@) is None,
        },
{
    match decode_chunk_pair(buf) {
        None => None,
        Some(p) => Some(PublishRequest { data: p.0, metadata: p.1 }),
    }
}

// ---------------------------------------------------------------------------
// Encoding.
// ---------------------------------------------------------------------------

/// The canonical bytes of one length-delimited field: its key, the length,
/// then the data itself.
pub open spec fn ld_enc(field: u64, data: Seq<u8>) -> Seq<u8> {
    varint_enc((8 * field + 2) as u64) + varint_enc(data.len() as u64) + data
}

/// The canonical bytes of a header-map entry's body: key then value.
pub open spec fn entry_body_enc(k: Seq<u8>, v: Seq<u8>) -> Seq<u8> {
    ld_enc(1, k) + ld_enc(2, v)
}

/// The canonical bytes of a header map: one entry field per pair, in order.
pub open spec fn headers_enc(hs: Seq<(Seq<u8>, Seq<u8>)>) -> Seq<u8>
    decreases hs.len(),
{
    if hs.len() == 0 {
        Seq::empty()
    } else {
        headers_enc(hs.drop_last()) + ld_enc(
            ENV_FIELD_HEADERS,
            entry_body_enc(hs.last().0, hs.last().1),
        )
    }
}

/// The canonical encoding of an envelope.  Every field is written, in field
/// order; a decoder also accepts streams that omit empty fields or order
/// fields differently.
pub open spec fn envelope_enc(e: EnvelopeView) -> Seq<u8> {
    ld_enc(ENV_FIELD_PAYLOAD, e.payload) + ld_enc(ENV_FIELD_MESSAGE_TYPE, e.message_type) + ld_enc(
        ENV_FIELD_TIMESTAMP,
        e.timestamp,
    ) + ld_enc(ENV_FIELD_VERSION, e.version) + headers_enc(e.headers)
}

/// The canonical encoding of the typed inner payload.
pub open spec fn publish_request_enc(p: PublishRequestView) -> Seq<u8> {
    ld_enc(1, p.data) + ld_enc(2, p.metadata)
}

/// Append the bytes of `data` to `out`.
pub fn push_bytes(out: &mut Vec<u8>, data: &Vec<u8>)
    ensures
        final(out)@ == old(out)@ + data@,
{
    let mut i: usize = 0;
    while i < data.len()
        invariant
            i <= data@.len(),
            out@ == old(out)@ + data@.take(i as int),
        decreases data@.len() - i,
    {
        out.push(data[i]);
        i = i + 1;
        assert(out@ =~= old(out)@ + data@.take(i as int));
    }
    assert(old(out)@ + data@.take(data@.len() as int) =~= old(out)@ + data@);
}

/// Append one length-delimited field to `out`.
fn push_ld_field(out: &mut Vec<u8>, field: u64, data: &Vec<u8>)
    requires
        1 <= field <= 0x1fff_ffff,
    ensures
        final(out)@ == old(out)@ + ld_enc(field, data@),
{
    encode_varint(out, 8 * field + 2);
    encode_varint(out, data.len() as u64);
    push_bytes(out, data);
    assert(out@ =~= old(out)@ + ld_enc(field, data@));
}

/// Encode an envelope into its canonical bytes.
pub fn encode_envelope(e: &Envelope) -> (r: Vec<u8>)
    ensures
        r@ == envelope_enc(e@),
{
    let mut out: Vec<u8> = Vec::new();
    push_ld_field(&mut out, ENV_FIELD_PAYLOAD, &e.payload);
    push_ld_field(&mut out, ENV_FIELD_MESSAGE_TYPE, &e.message_type);
    push_ld_field(&mut out, ENV_FIELD_TIMESTAMP, &e.timestamp);
    push_ld_field(&mut out, ENV_FIELD_VERSION, &e.version);
    let ghost fixed = out@;
    let ghost hs = e@.headers;
    let mut i: usize = 0;
    proof {
        assert(hs.take(0) =~= Seq::<(Seq<u8>, Seq<u8>)>::empty());
        assert(fixed + headers_enc(hs.take(0)) =~= fixed);
    }
    while i < e.headers.len()
        invariant
            i <= e.headers@.len(),
            hs == e@.headers,
            hs.len() == e.headers@.len(),
            out@ == fixed + headers_enc(hs.take(i as int)),
        decreases e.headers@.len() - i,
    {
        let entry = &e.headers[i];
        let mut body: Vec<u8> = Vec::new();
        push_ld_field(&mut body, 1, &entry.0);
        push_ld_field(&mut body, 2, &entry.1);
        proof {
            assert(body@ =~= entry_body_enc(hs[i as int].0, hs[i as int].1));
        }
        push_ld_field(&mut out, ENV_FIELD_HEADERS, &body);
        proof {
            let t = hs.take(i as int + 1);
            assert(t.drop_last() =~= hs.take(i as int));
            assert(t.last() == hs[i as int]);
            assert(out@ =~= fixed + headers_enc(hs.take(i as int + 1)));
        }
        i = i + 1;
    }
    proof {
        assert(hs.take(hs.len() as int) =~= hs);
    }
    out
}

/// Encode the typed inner payload into its canonical bytes.
pub fn encode_publish_request(p: &PublishRequest) -> (r: Vec<u8>)
    ensures
        r@ == publish_request_enc(p@),
{
    let mut out: Vec<u8> = Vec::new();
    push_ld_field(&mut out, 1, &p.data);
    push_ld_field(&mut out, 2, &p.metadata);
    assert(out@ =~= publish_request_enc(p@));
    out
}

// ---------------------------------------------------------------------------
// Round trip: whatever is encoded decodes back unchanged.
// ---------------------------------------------------------------------------

/// A field small enough that its length is representable on the wire.
pub open spec fn field_bounded(d: Seq<u8>) -> bool {
    d.len() <= 0x1000_0000_0000_0000
}

/// All of an envelope's fields are small enough to encode.
pub open spec fn envelope_bounded(e: EnvelopeView) -> bool {
    &&& field_bounded(e.payload)
    &&& field_bounded(e.message_type)
    &&& field_bounded(e.timestamp)
    &&& field_bounded(e.version)
    &&& forall|i: int|
        0 <= i < e.headers.len() ==> field_bounded(#[trigger] e.headers[i].0) && field_bounded(
            e.headers[i].1,
        )
}

/// Both fields of the typed inner payload are small enough to encode.
pub open spec fn publish_request_bounded(p: PublishRequestView) -> bool {
    field_bounded(p.data) && field_bounded(p.metadata)
}

/// Parsing picks one length-delimited field off the front of the stream.
proof fn lemma_wire_parse_ld(field: u64, data: Seq<u8>, rest: Seq<u8>)
    requires
        1 <= field <= 0x1fff_ffff,
        data.len() <= u64::MAX,
    ensures
        wire_parse(ld_enc(field, data) + rest) == wire_cons(
            field,
            WireValue::Chunk(data),
            wire_parse(rest),
        ),
{
    let key = (8 * field + 2) as u64;
    let len64 = data.len() as u64;
    let kb = varint_enc(key);
    let lb = varint_enc(len64);
    let s = ld_enc(field, data) + rest;
    lemma_varint_enc_len(key);
    lemma_varint_enc_len(len64);
    assert(s =~= kb + (lb + (data + rest)));
    lemma_varint_round_trip(key, lb + (data + rest), 10);
    let k = kb.len() as int;
    assert(varint_parse(s, 10) == Some((key, kb.len() as nat)));
    assert(8 <= key <= 0xffff_fffa);
    assert(key / 8 == field && key % 8 == 2);
    assert(s.skip(k) =~= lb + (data + rest));
    lemma_varint_round_trip(len64, data + rest, 10);
    let k2 = lb.len() as int;
    assert(k + k2 + data.len() <= s.len());
    assert(s.subrange(k + k2, k + k2 + len64 as int) =~= data);
    assert(s.skip(k + k2 + len64 as int) =~= rest);
}

/// The records of a header map: one entry field per pair, in order.
spec fn header_records(hs: Seq<(Seq<u8>, Seq<u8>)>) -> Seq<(u64, WireValue)> {
    hs.map_values(
        |kv: (Seq<u8>, Seq<u8>)| (ENV_FIELD_HEADERS, WireValue::Chunk(entry_body_enc(kv.0, kv.1))),
    )
}

/// All of a header map's keys and values are small enough to encode.
spec fn headers_bounded(hs: Seq<(Seq<u8>, Seq<u8>)>) -> bool {
    forall|i: int|
        0 <= i < hs.len() ==> field_bounded(#[trigger] hs[i].0) && field_bounded(hs[i].1)
}

/// Parsing an encoded header map yields exactly its entry records.
proof fn lemma_wire_parse_headers(hs: Seq<(Seq<u8>, Seq<u8>)>, rest: Seq<u8>)
    requires
        headers_bounded(hs),
    ensures
        wire_parse(headers_enc(hs) + rest) == opt_concat(header_records(hs), wire_parse(rest)),
    decreases hs.len(),
{
    if hs.len() == 0 {
        assert(headers_enc(hs) + rest =~= rest);
        assert(header_records(hs) =~= Seq::<(u64, WireValue)>::empty());
        match wire_parse(rest) {
            None => {},
            Some(t) => {
                assert(header_records(hs) + t =~= t);
            },
        }
    } else {
        let front = hs.drop_last();
        let kv = hs.last();
        let body = entry_body_enc(kv.0, kv.1);
        lemma_varint_enc_len(10);
        lemma_varint_enc_len(18);
        lemma_varint_enc_len(kv.0.len() as u64);
        lemma_varint_enc_len(kv.1.len() as u64);
        assert(body.len() <= u64::MAX);
        assert(headers_enc(hs) + rest =~= headers_enc(front) + (ld_enc(ENV_FIELD_HEADERS, body)
            + rest));
        assert forall|i: int| 0 <= i < front.len() implies field_bounded(#[trigger] front[i].0)
            && field_bounded(front[i].1) by {
            assert(front[i] == hs[i]);
        }
        lemma_wire_parse_headers(front, ld_enc(ENV_FIELD_HEADERS, body) + rest);
        lemma_wire_parse_ld(ENV_FIELD_HEADERS, body, rest);
        lemma_opt_concat_shift(
            header_records(front),
            ENV_FIELD_HEADERS,
            WireValue::Chunk(body),
            wire_parse(rest),
        );
        assert(header_records(front).push((ENV_FIELD_HEADERS, WireValue::Chunk(body)))
            =~= header_records(hs));
    }
}

/// A round trip through the chunk-pair shape: fields 1 then 2.
proof fn lemma_pair_round_trip(a: Seq<u8>, b: Seq<u8>)
    requires
        field_bounded(a),
        field_bounded(b),
    ensures
        wire_parse(ld_enc(1, a) + ld_enc(2, b)) == Some(
            seq![(1u64, WireValue::Chunk(a)), (2u64, WireValue::Chunk(b))],
        ),
        pair_from_records(
            seq![(1u64, WireValue::Chunk(a)), (2u64, WireValue::Chunk(b))],
            Seq::empty(),
            Seq::empty(),
        ) == Some((a, b)),
{
    let recs = seq![(1u64, WireValue::Chunk(a)), (2u64, WireValue::Chunk(b))];
    assert(ld_enc(1, a) + ld_enc(2, b) =~= ld_enc(1, a) + (ld_enc(2, b) + Seq::<u8>::empty()));
    lemma_wire_parse_ld(1, a, ld_enc(2, b) + Seq::<u8>::empty());
    assert(ld_enc(2, b) + Seq::<u8>::empty() =~= ld_enc(2, b) + Seq::<u8>::empty());
    lemma_wire_parse_ld(2, b, Seq::<u8>::empty());
    assert(wire_parse(Seq::<u8>::empty()) == Some(Seq::<(u64, WireValue)>::empty()));
    assert(seq![(1u64, WireValue::Chunk(a))] + (seq![(2u64, WireValue::Chunk(b))]
        + Seq::<(u64, WireValue)>::empty()) =~= recs);
    assert(recs.skip(1) =~= seq![(2u64, WireValue::Chunk(b))]);
    assert(recs.skip(1).skip(1) =~= Seq::<(u64, WireValue)>::empty());
    assert(recs[0] == (1u64, WireValue::Chunk(a)));
    assert(recs.skip(1)[0] == (2u64, WireValue::Chunk(b)));
    assert(pair_from_records(recs, Seq::empty(), Seq::empty()) == pair_from_records(
        recs.skip(1),
        a,
        Seq::empty(),
    ));
    assert(pair_from_records(recs.skip(1), a, Seq::empty()) == pair_from_records(
        recs.skip(1).skip(1),
        a,
        b,
    ));
}

/// A round trip through a header-map entry.
proof fn lemma_entry_round_trip(k: Seq<u8>, v: Seq<u8>)
    requires
        field_bounded(k),
        field_bounded(v),
    ensures
        entry_parse(entry_body_enc(k, v)) == Some((k, v)),
{
    lemma_pair_round_trip(k, v);
}

/// Folding a header map's entry records appends its pairs in order.
proof fn lemma_headers_fold(hs: Seq<(Seq<u8>, Seq<u8>)>, acc: EnvelopeView)
    requires
        headers_bounded(hs),
    ensures
        envelope_from_records(header_records(hs), acc) == Some(
            EnvelopeView { headers: acc.headers + hs, ..acc },
        ),
    decreases hs.len(),
{
    let recs = header_records(hs);
    if hs.len() == 0 {
        assert(recs.len() == 0);
        assert(acc.headers + hs =~= acc.headers);
        assert(EnvelopeView { headers: acc.headers + hs, ..acc } =~= acc);
    } else {
        let kv = hs[0];
        lemma_entry_round_trip(kv.0, kv.1);
        assert(recs[0] == (ENV_FIELD_HEADERS, WireValue::Chunk(entry_body_enc(kv.0, kv.1))));
        assert(recs.skip(1) =~= header_records(hs.skip(1)));
        assert(headers_bounded(hs.skip(1)));
        let acc2 = EnvelopeView { headers: acc.headers.push(kv), ..acc };
        lemma_headers_fold(hs.skip(1), acc2);
        assert(acc.headers.push(kv) + hs.skip(1) =~= acc.headers + hs);
        assert(EnvelopeView { headers: acc2.headers + hs.skip(1), ..acc2 } =~= EnvelopeView {
            headers: acc.headers + hs,
            ..acc
        });
    }
}

/// Decoding inverts encoding: a bounded envelope's canonical bytes decode
/// back to exactly that envelope.
pub proof fn lemma_envelope_round_trip(e: EnvelopeView)
    requires
        envelope_bounded(e),
    ensures
        spec_decode_envelope(envelope_enc(e)) == Some(e),
{
    let hrecs = header_records(e.headers);
    let s4 = ld_enc(ENV_FIELD_VERSION, e.version) + headers_enc(e.headers);
    let s3 = ld_enc(ENV_FIELD_TIMESTAMP, e.timestamp) + s4;
    let s2 = ld_enc(ENV_FIELD_MESSAGE_TYPE, e.message_type) + s3;
    let s1 = ld_enc(ENV_FIELD_PAYLOAD, e.payload) + s2;
    assert(envelope_enc(e) =~= s1);
    lemma_wire_parse_headers(e.headers, Seq::empty());
    assert(wire_parse(Seq::<u8>::empty()) == Some(Seq::<(u64, WireValue)>::empty()));
    assert(hrecs + Seq::<(u64, WireValue)>::empty() =~= hrecs);
    assert(headers_enc(e.headers) + Seq::<u8>::empty() =~= headers_enc(e.headers));
    assert(wire_parse(headers_enc(e.headers)) == Some(hrecs));
    lemma_wire_parse_ld(ENV_FIELD_VERSION, e.version, headers_enc(e.headers));
    lemma_wire_parse_ld(ENV_FIELD_TIMESTAMP, e.timestamp, s4);
    lemma_wire_parse_ld(ENV_FIELD_MESSAGE_TYPE, e.message_type, s3);
    lemma_wire_parse_ld(ENV_FIELD_PAYLOAD, e.payload, s2);
    let r4 = seq![(ENV_FIELD_VERSION, WireValue::Chunk(e.version))] + hrecs;
    let r3 = seq![(ENV_FIELD_TIMESTAMP, WireValue::Chunk(e.timestamp))] + r4;
    let r2 = seq![(ENV_FIELD_MESSAGE_TYPE, WireValue::Chunk(e.message_type))] + r3;
    let r1 = seq![(ENV_FIELD_PAYLOAD, WireValue::Chunk(e.payload))] + r2;
    assert(wire_parse(s1) == Some(r1));
    let acc0 = empty_envelope_view();
    let acc1 = EnvelopeView { payload: e.payload, ..acc0 };
    let acc2 = EnvelopeView { message_type: e.message_type, ..acc1 };
    let acc3 = EnvelopeView { timestamp: e.timestamp, ..acc2 };
    let acc4 = EnvelopeView { version: e.version, ..acc3 };
    assert(r1[0] == (ENV_FIELD_PAYLOAD, WireValue::Chunk(e.payload)));
    assert(r1.skip(1) =~= r2);
    assert(r2[0] == (ENV_FIELD_MESSAGE_TYPE, WireValue::Chunk(e.message_type)));
    assert(r2.skip(1) =~= r3);
    assert(r3[0] == (ENV_FIELD_TIMESTAMP, WireValue::Chunk(e.timestamp)));
    assert(r3.skip(1) =~= r4);
    assert(r4[0] == (ENV_FIELD_VERSION, WireValue::Chunk(e.version)));
    assert(r4.skip(1) =~= hrecs);
    assert(envelope_from_records(r1, acc0) == envelope_from_records(r2, acc1));
    assert(envelope_from_records(r2, acc1) == envelope_from_records(r3, acc2));
    assert(envelope_from_records(r3, acc2) == envelope_from_records(r4, acc3));
    assert(envelope_from_records(r4, acc3) == envelope_from_records(hrecs, acc4));
    lemma_headers_fold(e.headers, acc4);
    assert(acc4.headers + e.headers =~= e.headers);
    assert(EnvelopeView { headers: acc4.headers + e.headers, ..acc4 } =~= e);
}

/// Decoding inverts encoding for the typed inner payload as well.
pub proof fn lemma_publish_request_round_trip(p: PublishRequestView)
    requires
        publish_request_bounded(p),
    ensures
        spec_decode_publish_request(publish_request_enc(p)) == Some(p),
{
    lemma_pair_round_trip(p.data, p.metadata);
    assert(publish_request_enc(p) =~= ld_enc(1, p.data) + ld_enc(2, p.metadata));
    assert(PublishRequestView { data: p.data, metadata: p.metadata } =~= p);
}

} // verus!
