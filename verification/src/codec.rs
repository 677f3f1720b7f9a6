//! A fixed binary encoding for stored records.
//!
//! Every record family is written with the same primitive layout: `u64`
//! values as eight little-endian bytes, booleans as a single `0`/`1` byte,
//! signed timestamps as their two's-complement `u64` image, strings as a
//! `u64` byte length followed by their UTF-8 bytes, and optional strings
//! behind a one-byte presence tag. Decoding is exact: a record decodes
//! successfully if and only if it is a well-formed encoding, and decoding
//! an encoding returns the original value.

use vstd::prelude::*;
use vstd::bytes::{spec_u64_from_le_bytes, spec_u64_to_le_bytes, u64_from_le_bytes, u64_to_le_bytes};
use vstd::bytes::lemma_auto_spec_u64_to_from_le_bytes;
use vstd::slice::slice_subrange;
use vstd::utf8::{decode_utf8, encode_utf8, valid_utf8};
use vstd::utf8::{decode_first_scalar, length_of_first_scalar, pop_first_scalar};
use vstd::utf8::{encode_utf8_decode_utf8, encode_utf8_valid_utf8};
use crate::db::{Peer, PeerView, Post, PostView};

verus! {

/// Declares `core::str::Utf8Error` so that `core::str::from_utf8` can be
/// given a specification below.
#[verifier::external_type_specification]
#[verifier::external_body]
pub struct ExUtf8Error(core::str::Utf8Error);

/// Relies on core::str::from_utf8: it succeeds exactly on valid UTF-8 input
/// and returns the decoded string.
pub assume_specification[ core::str::from_utf8 ](v: &[u8]) -> (r: Result<&str, core::str::Utf8Error>)
    ensures
        r is Ok <==> valid_utf8(v@),
        r matches Ok(s) ==> s@ == decode_utf8(v@),
;

// ---------------------------------------------------------------------------
// Primitive encodings.
// ---------------------------------------------------------------------------

/// The encoding of a `u64`: eight little-endian bytes.
pub open spec fn enc_u64(x: u64) -> Seq<u8> {
    spec_u64_to_le_bytes(x)
}

/// The encoding of an `i64`: its two's-complement `u64` image.
pub open spec fn enc_i64(x: i64) -> Seq<u8> {
    enc_u64(x as u64)
}

/// The encoding of a `bool`: one byte, `1` for true and `0` for false.
pub open spec fn enc_bool(b: bool) -> Seq<u8> {
    if b {
        seq![1u8]
    } else {
        seq![0u8]
    }
}

/// The encoding of a string: its UTF-8 byte length as a `u64`, then its
/// UTF-8 bytes.
pub open spec fn enc_str(s: Seq<char>) -> Seq<u8> {
    enc_u64(encode_utf8(s).len() as u64) + encode_utf8(s)
}

/// The encoding of an optional string: a presence byte, then the string.
pub open spec fn enc_opt_str(s: Option<Seq<char>>) -> Seq<u8> {
    match s {
        None => seq![0u8],
        Some(t) => seq![1u8] + enc_str(t),
    }
}

/// A string whose byte-length prefix does not wrap. Every string built by
/// executable code satisfies this.
pub open spec fn str_encodable(s: Seq<char>) -> bool {
    encode_utf8(s).len() <= u64::MAX
}

/// Decode a `u64` at offset `i`, returning the value and the next offset.
pub open spec fn dec_u64_at(b: Seq<u8>, i: int) -> Option<(u64, int)> {
    if 0 <= i && i + 8 <= b.len() {
        Some((spec_u64_from_le_bytes(b.subrange(i, i + 8)), i + 8))
    } else {
        None
    }
}

/// Decode an `i64` at offset `i`.
pub open spec fn dec_i64_at(b: Seq<u8>, i: int) -> Option<(i64, int)> {
    match dec_u64_at(b, i) {
        Some((x, j)) => Some((x as i64, j)),
        None => None,
    }
}

/// Decode a `bool` at offset `i`; any byte other than `0` or `1` is invalid.
pub open spec fn dec_bool_at(b: Seq<u8>, i: int) -> Option<(bool, int)> {
    if 0 <= i && i < b.len() {
        if b[i] == 0u8 {
            Some((false, i + 1))
        } else if b[i] == 1u8 {
            Some((true, i + 1))
        } else {
            None
        }
    } else {
        None
    }
}

/// Decode a string at offset `i`; the announced bytes must be present and
/// form valid UTF-8.
pub open spec fn dec_str_at(b: Seq<u8>, i: int) -> Option<(Seq<char>, int)> {
    match dec_u64_at(b, i) {
        Some((n, j)) => {
            if j + n <= b.len() && valid_utf8(b.subrange(j, j + n)) {
                Some((decode_utf8(b.subrange(j, j + n)), j + n))
            } else {
                None
            }
        },
        None => None,
    }
}

/// Decode an optional string at offset `i`.
pub open spec fn dec_opt_str_at(b: Seq<u8>, i: int) -> Option<(Option<Seq<char>>, int)> {
    if 0 <= i && i < b.len() {
        if b[i] == 0u8 {
            Some((None, i + 1))
        } else if b[i] == 1u8 {
            match dec_str_at(b, i + 1) {
                Some((s, j)) => Some((Some(s), j)),
                None => None,
            }
        } else {
            None
        }
    } else {
        None
    }
}

// ---------------------------------------------------------------------------
// Primitive round trips: decoding an encoding embedded at any offset yields
// the encoded value and consumes exactly the encoding.
// ---------------------------------------------------------------------------

pub proof fn lemma_dec_u64(pre: Seq<u8>, x: u64, suf: Seq<u8>)
    ensures
        dec_u64_at(pre + enc_u64(x) + suf, pre.len() as int) == Some(
            (x, (pre.len() + enc_u64(x).len()) as int),
        ),
        enc_u64(x).len() == 8,
{
    lemma_auto_spec_u64_to_from_le_bytes();
    let b = pre + enc_u64(x) + suf;
    assert(b.subrange(pre.len() as int, pre.len() as int + 8) =~= enc_u64(x));
}

pub proof fn lemma_dec_i64(pre: Seq<u8>, x: i64, suf: Seq<u8>)
    ensures
        dec_i64_at(pre + enc_i64(x) + suf, pre.len() as int) == Some(
            (x, (pre.len() + enc_i64(x).len()) as int),
        ),
        enc_i64(x).len() == 8,
{
    lemma_dec_u64(pre, x as u64, suf);
    assert(x as u64 as i64 == x) by (bit_vector);
}

pub proof fn lemma_dec_bool(pre: Seq<u8>, v: bool, suf: Seq<u8>)
    ensures
        dec_bool_at(pre + enc_bool(v) + suf, pre.len() as int) == Some(
            (v, (pre.len() + enc_bool(v).len()) as int),
        ),
        enc_bool(v).len() == 1,
{
    let b = pre + enc_bool(v) + suf;
    assert(b[pre.len() as int] == if v {
        1u8
    } else {
        0u8
    });
}

pub proof fn lemma_dec_str(pre: Seq<u8>, s: Seq<char>, suf: Seq<u8>)
    requires
        str_encodable(s),
    ensures
        dec_str_at(pre + enc_str(s) + suf, pre.len() as int) == Some(
            (s, (pre.len() + enc_str(s).len()) as int),
        ),
        enc_str(s).len() == 8 + encode_utf8(s).len(),
{
    broadcast use encode_utf8_valid_utf8, encode_utf8_decode_utf8;

    lemma_auto_spec_u64_to_from_le_bytes();
    let payload = encode_utf8(s);
    let n = payload.len() as u64;
    let b = pre + enc_str(s) + suf;
    assert(b =~= pre + enc_u64(n) + (payload + suf));
    lemma_dec_u64(pre, n, payload + suf);
    let j = pre.len() + 8;
    assert(b.subrange(j as int, j + n) =~= payload);
}

pub proof fn lemma_dec_opt_str(pre: Seq<u8>, s: Option<Seq<char>>, suf: Seq<u8>)
    requires
        match s {
            Some(t) => str_encodable(t),
            None => true,
        },
    ensures
        dec_opt_str_at(pre + enc_opt_str(s) + suf, pre.len() as int) == Some(
            (s, (pre.len() + enc_opt_str(s).len()) as int),
        ),
{
    let b = pre + enc_opt_str(s) + suf;
    match s {
        None => {
            assert(b[pre.len() as int] == 0u8);
        },
        Some(t) => {
            assert(b[pre.len() as int] == 1u8);
            assert(b =~= (pre + seq![1u8]) + enc_str(t) + suf);
            lemma_dec_str(pre + seq![1u8], t, suf);
        },
    }
}

/// Distinct strings have distinct UTF-8 encodings.
pub proof fn lemma_encode_utf8_injective(a: Seq<char>, b: Seq<char>)
    ensures
        encode_utf8(a) == encode_utf8(b) ==> a == b,
{
    broadcast use encode_utf8_decode_utf8;

    if encode_utf8(a) == encode_utf8(b) {
        assert(decode_utf8(encode_utf8(a)) == a);
        assert(decode_utf8(encode_utf8(b)) == b);
    }
}

/// UTF-8 encoding distributes over concatenation.
pub proof fn lemma_encode_utf8_concat(a: Seq<char>, b: Seq<char>)
    ensures
        encode_utf8(a + b) == encode_utf8(a) + encode_utf8(b),
    decreases a.len(),
{
    if a.len() == 0 {
        assert(a + b =~= b);
        assert(encode_utf8(a) + encode_utf8(b) =~= encode_utf8(b));
    } else {
        assert((a + b).drop_first() =~= a.drop_first() + b);
        lemma_encode_utf8_concat(a.drop_first(), b);
        assert(encode_utf8(a + b) =~= encode_utf8(a) + encode_utf8(b));
    }
}

/// UTF-8 is prefix-free per character: a byte-level prefix of a valid
/// encoding that is itself a valid encoding decodes to a character-level
/// prefix.
pub proof fn lemma_utf8_byte_prefix_is_char_prefix(p: Seq<u8>, w: Seq<u8>)
    requires
        valid_utf8(p),
        valid_utf8(w),
        p.is_prefix_of(w),
    ensures
        decode_utf8(p).is_prefix_of(decode_utf8(w)),
    decreases p.len(),
{
    if p.len() == 0 {
        assert(decode_utf8(p).is_prefix_of(decode_utf8(w)));
    } else {
        assert(forall|i: int| 0 <= i < p.len() ==> p[i] == w[i]);
        let k = length_of_first_scalar(p);
        assert(length_of_first_scalar(w) == k);
        assert(decode_first_scalar(w) == decode_first_scalar(p));
        assert(pop_first_scalar(p) =~= pop_first_scalar(w).subrange(0, p.len() - k));
        assert(pop_first_scalar(p).is_prefix_of(pop_first_scalar(w)));
        lemma_utf8_byte_prefix_is_char_prefix(pop_first_scalar(p), pop_first_scalar(w));
        assert(decode_utf8(p) =~= decode_utf8(w).subrange(0, decode_utf8(p).len() as int));
    }
}

// ---------------------------------------------------------------------------
// Record encodings.
// ---------------------------------------------------------------------------

/// The encoding of a peer record: public key, name, watermark.
pub open spec fn spec_encode_peer(p: PeerView) -> Seq<u8> {
    enc_str(p.public_key) + enc_str(p.name) + enc_u64(p.latest_sequence)
}

/// Decode a peer record; trailing bytes make the record invalid.
pub open spec fn spec_decode_peer(b: Seq<u8>) -> Option<PeerView> {
    match dec_str_at(b, 0) {
        Some((public_key, i)) => match dec_str_at(b, i) {
            Some((name, j)) => match dec_u64_at(b, j) {
                Some((latest_sequence, k)) => {
                    if k == b.len() {
                        Some(PeerView { public_key, name, latest_sequence })
                    } else {
                        None
                    }
                },
                None => None,
            },
            None => None,
        },
        None => None,
    }
}

/// A peer record whose strings fit their length prefixes.
pub open spec fn peer_encodable(p: PeerView) -> bool {
    str_encodable(p.public_key) && str_encodable(p.name)
}

/// The encoding of a post record: key, text, date, sequence number, read
/// flag, timestamp, subject.
pub open spec fn spec_encode_post(p: PostView) -> Seq<u8> {
    enc_str(p.key) + enc_str(p.text) + enc_str(p.date) + enc_u64(p.sequence) + enc_bool(p.read)
        + enc_i64(p.timestamp) + enc_opt_str(p.subject)
}

/// Decode a post record; trailing bytes make the record invalid.
pub open spec fn spec_decode_post(b: Seq<u8>) -> Option<PostView> {
    match dec_str_at(b, 0) {
        Some((key, i1)) => match dec_str_at(b, i1) {
            Some((text, i2)) => match dec_str_at(b, i2) {
                Some((date, i3)) => match dec_u64_at(b, i3) {
                    Some((sequence, i4)) => match dec_bool_at(b, i4) {
                        Some((read, i5)) => match dec_i64_at(b, i5) {
                            Some((timestamp, i6)) => match dec_opt_str_at(b, i6) {
                                Some((subject, i7)) => {
                                    if i7 == b.len() {
                                        Some(
                                            PostView {
                                                key,
                                                text,
                                                date,
                                                sequence,
                                                read,
                                                timestamp,
                                                subject,
                                            },
                                        )
                                    } else {
                                        None
                                    }
                                },
                                None => None,
                            },
                            None => None,
                        },
                        None => None,
                    },
                    None => None,
                },
                None => None,
            },
            None => None,
        },
        None => None,
    }
}

/// A post record whose strings fit their length prefixes.
pub open spec fn post_encodable(p: PostView) -> bool {
    str_encodable(p.key) && str_encodable(p.text) && str_encodable(p.date) && match p.subject {
        Some(s) => str_encodable(s),
        None => true,
    }
}

/// Storing a peer record and loading it back yields the original value:
/// decoding is the inverse of encoding.
pub proof fn lemma_peer_round_trip(p: PeerView)
    requires
        peer_encodable(p),
    ensures
        spec_decode_peer(spec_encode_peer(p)) == Some(p),
{
    let a = enc_str(p.public_key);
    let b = enc_str(p.name);
    let c = enc_u64(p.latest_sequence);
    let whole = spec_encode_peer(p);
    assert(whole =~= Seq::<u8>::empty() + a + (b + c));
    lemma_dec_str(Seq::<u8>::empty(), p.public_key, b + c);
    assert(whole =~= a + b + c);
    lemma_dec_str(a, p.name, c);
    assert(whole =~= (a + b) + c + Seq::<u8>::empty());
    lemma_dec_u64(a + b, p.latest_sequence, Seq::<u8>::empty());
}

/// Storing a post record and loading it back yields the original value:
/// decoding is the inverse of encoding.
#[verifier::rlimit(60)]
pub proof fn lemma_post_round_trip(p: PostView)
    requires
        post_encodable(p),
    ensures
        spec_decode_post(spec_encode_post(p)) == Some(p),
{
    let e1 = enc_str(p.key);
    let e2 = enc_str(p.text);
    let e3 = enc_str(p.date);
    let e4 = enc_u64(p.sequence);
    let e5 = enc_bool(p.read);
    let e6 = enc_i64(p.timestamp);
    let e7 = enc_opt_str(p.subject);
    let whole = spec_encode_post(p);
    assert(whole =~= Seq::<u8>::empty() + e1 + (e2 + e3 + e4 + e5 + e6 + e7));
    lemma_dec_str(Seq::<u8>::empty(), p.key, e2 + e3 + e4 + e5 + e6 + e7);
    assert(whole =~= e1 + e2 + (e3 + e4 + e5 + e6 + e7));
    lemma_dec_str(e1, p.text, e3 + e4 + e5 + e6 + e7);
    assert(whole =~= (e1 + e2) + e3 + (e4 + e5 + e6 + e7));
    lemma_dec_str(e1 + e2, p.date, e4 + e5 + e6 + e7);
    assert(whole =~= (e1 + e2 + e3) + e4 + (e5 + e6 + e7));
    lemma_dec_u64(e1 + e2 + e3, p.sequence, e5 + e6 + e7);
    assert(whole =~= (e1 + e2 + e3 + e4) + e5 + (e6 + e7));
    lemma_dec_bool(e1 + e2 + e3 + e4, p.read, e6 + e7);
    assert(whole =~= (e1 + e2 + e3 + e4 + e5) + e6 + e7);
    lemma_dec_i64(e1 + e2 + e3 + e4 + e5, p.timestamp, e7);
    assert(whole =~= (e1 + e2 + e3 + e4 + e5 + e6) + e7 + Seq::<u8>::empty());
    lemma_dec_opt_str(e1 + e2 + e3 + e4 + e5 + e6, p.subject, Seq::<u8>::empty());
}

// ---------------------------------------------------------------------------
// Executable encoders and decoders.
// ---------------------------------------------------------------------------

fn write_u64(out: &mut Vec<u8>, x: u64)
    ensures
        final(out)@ == old(out)@ + enc_u64(x),
{
    let mut bytes = u64_to_le_bytes(x);
    out.append(&mut bytes);
}

fn write_str(out: &mut Vec<u8>, s: &str)
    ensures
        final(out)@ == old(out)@ + enc_str(s@),
        str_encodable(s@),
{
    let bytes = s.as_bytes();
    write_u64(out, bytes.len() as u64);
    out.extend_from_slice(bytes);
}

fn write_bool(out: &mut Vec<u8>, b: bool)
    ensures
        final(out)@ == old(out)@ + enc_bool(b),
{
    if b {
        out.push(1u8);
    } else {
        out.push(0u8);
    }
    assert(out@ =~= old(out)@ + enc_bool(b));
}

fn write_opt_str(out: &mut Vec<u8>, s: &Option<String>)
    ensures
        match s {
            Some(t) => final(out)@ == old(out)@ + enc_opt_str(Some(t@)) && str_encodable(t@),
            None => final(out)@ == old(out)@ + enc_opt_str(None),
        },
{
    match s {
        None => {
            out.push(0u8);
            assert(out@ =~= old(out)@ + enc_opt_str(None));
        },
        Some(t) => {
            out.push(1u8);
            write_str(out, t.as_str());
            assert(out@ =~= old(out)@ + enc_opt_str(Some(t@)));
        },
    }
}

/// Encode a peer record.
pub fn encode_peer(peer: &Peer) -> (out: Vec<u8>)
    ensures
        out@ == spec_encode_peer(peer@),
        peer_encodable(peer@),
{
    let mut out: Vec<u8> = Vec::new();
    write_str(&mut out, peer.public_key.as_str());
    write_str(&mut out, peer.name.as_str());
    write_u64(&mut out, peer.latest_sequence);
    assert(out@ =~= spec_encode_peer(peer@));
    out
}

/// Encode a post record.
pub fn encode_post(post: &Post) -> (out: Vec<u8>)
    ensures
        out@ == spec_encode_post(post@),
        post_encodable(post@),
{
    let mut out: Vec<u8> = Vec::new();
    write_str(&mut out, post.key.as_str());
    write_str(&mut out, post.text.as_str());
    write_str(&mut out, post.date.as_str());
    write_u64(&mut out, post.sequence);
    write_bool(&mut out, post.read);
    write_u64(&mut out, post.timestamp as u64);
    write_opt_str(&mut out, &post.subject);
    assert(out@ =~= spec_encode_post(post@));
    out
}

fn read_u64(b: &[u8], pos: usize) -> (r: Option<(u64, usize)>)
    ensures
        match r {
            Some((x, j)) => dec_u64_at(b@, pos as int) == Some((x, j as int)),
            None => dec_u64_at(b@, pos as int) is None,
        },
{
    if pos <= b.len() && b.len() - pos >= 8 {
        let s = slice_subrange(b, pos, pos + 8);
        Some((u64_from_le_bytes(s), pos + 8))
    } else {
        None
    }
}

fn read_bool(b: &[u8], pos: usize) -> (r: Option<(bool, usize)>)
    ensures
        match r {
            Some((v, j)) => dec_bool_at(b@, pos as int) == Some((v, j as int)),
            None => dec_bool_at(b@, pos as int) is None,
        },
{
    if pos < b.len() {
        let byte = *vstd::slice::slice_index_get(b, pos);
        if byte == 0u8 {
            Some((false, pos + 1))
        } else if byte == 1u8 {
            Some((true, pos + 1))
        } else {
            None
        }
    } else {
        None
    }
}

fn read_str(b: &[u8], pos: usize) -> (r: Option<(String, usize)>)
    ensures
        match r {
            Some((s, j)) => dec_str_at(b@, pos as int) == Some((s@, j as int)),
            None => dec_str_at(b@, pos as int) is None,
        },
{
    match read_u64(b, pos) {
        None => None,
        Some((n, i)) => {
            if n <= (b.len() - i) as u64 {
                let end = i + (n as usize);
                let bytes = slice_subrange(b, i, end);
                match core::str::from_utf8(bytes) {
                    Ok(s) => Some((s.to_owned(), end)),
                    Err(_) => None,
                }
            } else {
                None
            }
        },
    }
}

fn read_opt_str(b: &[u8], pos: usize) -> (r: Option<(Option<String>, usize)>)
    ensures
        match r {
            Some((s, j)) => {
                &&& dec_opt_str_at(b@, pos as int) matches Some((sv, jv))
                &&& jv == j as int
                &&& match s {
                    Some(t) => sv == Some(t@),
                    None => sv is None,
                }
            },
            None => dec_opt_str_at(b@, pos as int) is None,
        },
{
    if pos < b.len() {
        let byte = *vstd::slice::slice_index_get(b, pos);
        if byte == 0u8 {
            Some((None, pos + 1))
        } else if byte == 1u8 {
            match read_str(b, pos + 1) {
                Some((s, j)) => Some((Some(s), j)),
                None => None,
            }
        } else {
            None
        }
    } else {
        None
    }
}

/// Decode a peer record, if the bytes form a well-formed encoding.
pub fn decode_peer(b: &[u8]) -> (r: Option<Peer>)
    ensures
        match r {
            Some(p) => spec_decode_peer(b@) == Some(p@),
            None => spec_decode_peer(b@) is None,
        },
{
    match read_str(b, 0) {
        None => None,
        Some((public_key, i)) => match read_str(b, i) {
            None => None,
            Some((name, j)) => match read_u64(b, j) {
                None => None,
                Some((latest_sequence, k)) => {
                    if k == b.len() {
                        Some(Peer { public_key, name, latest_sequence })
                    } else {
                        None
                    }
                },
            },
        },
    }
}

/// Decode a post record, if the bytes form a well-formed encoding.
pub fn decode_post(b: &[u8]) -> (r: Option<Post>)
    ensures
        match r {
            Some(p) => spec_decode_post(b@) == Some(p@),
            None => spec_decode_post(b@) is None,
        },
{
    match read_str(b, 0) {
        None => None,
        Some((key, i1)) => match read_str(b, i1) {
            None => None,
            Some((text, i2)) => match read_str(b, i2) {
                None => None,
                Some((date, i3)) => match read_u64(b, i3) {
                    None => None,
                    Some((sequence, i4)) => match read_bool(b, i4) {
                        None => None,
                        Some((read, i5)) => match read_u64(b, i5) {
                            None => None,
                            Some((timestamp_bits, i6)) => match read_opt_str(b, i6) {
                                None => None,
                                Some((subject, i7)) => {
                                    if i7 == b.len() {
                                        Some(
                                            Post {
                                                key,
                                                text,
                                                date,
                                                sequence,
                                                read,
                                                timestamp: timestamp_bits as i64,
                                                subject,
                                            },
                                        )
                                    } else {
                                        None
                                    }
                                },
                            },
                        },
                    },
                },
            },
        },
    }
}

} // verus!
