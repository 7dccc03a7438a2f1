//! The length-prefixed binary format shared by instructions and stored records,
//! and the calls into borsh that read and write it.
use borsh::BorshDeserialize;
use vstd::bytes::*;
use vstd::prelude::*;
use vstd::utf8::*;

verus! {

/// The little-endian `u32` held by the first four bytes of `b`.
pub open spec fn prefix_u32(b: Seq<u8>) -> nat {
    spec_u32_from_le_bytes(b.take(4)) as nat
}

/// A text value as written on the wire: its UTF-8 byte count as a
/// little-endian `u32`, then its UTF-8 bytes.
pub open spec fn text_bytes(s: Seq<char>) -> Seq<u8> {
    spec_u32_to_le_bytes(encode_utf8(s).len() as u32) + encode_utf8(s)
}

/// The text value that `b` starts with, and how many bytes of `b` it takes.
pub open spec fn text_prefix(b: Seq<u8>) -> Option<(Seq<char>, int)> {
    if b.len() < 4 {
        None
    } else {
        let n = prefix_u32(b) as int;
        if b.len() - 4 < n || !valid_utf8(b.subrange(4, 4 + n)) {
            None
        } else {
            Some((decode_utf8(b.subrange(4, 4 + n)), 4 + n))
        }
    }
}

/// The text value that `b` holds, with no byte left over.
pub open spec fn text_of(b: Seq<u8>) -> Option<Seq<char>> {
    match text_prefix(b) {
        Some((s, n)) => if n == b.len() {
            Some(s)
        } else {
            None
        },
        None => None,
    }
}

/// The two text values that `b` holds one after the other, with no byte left over.
pub open spec fn text_pair_of(b: Seq<u8>) -> Option<(Seq<char>, Seq<char>)> {
    match text_prefix(b) {
        Some((s, n)) => match text_of(b.subrange(n, b.len() as int)) {
            Some(t) => Some((s, t)),
            None => None,
        },
        None => None,
    }
}

/// `count` length-prefixed byte blocks that fill `b` exactly.
pub open spec fn blocks_from(b: Seq<u8>, count: nat) -> Option<Seq<Seq<u8>>>
    decreases count,
{
    if count == 0 {
        if b.len() == 0 {
            Some(Seq::empty())
        } else {
            None
        }
    } else if b.len() < 4 {
        None
    } else {
        let n = prefix_u32(b) as int;
        if b.len() - 4 < n {
            None
        } else {
            match blocks_from(b.subrange(4 + n, b.len() as int), (count - 1) as nat) {
                Some(rest) => Some(seq![b.subrange(4, 4 + n)] + rest),
                None => None,
            }
        }
    }
}

/// The sequence of byte blocks that `b` holds: a little-endian `u32` count,
/// then that many length-prefixed blocks, with no byte left over.
pub open spec fn blocks_of(b: Seq<u8>) -> Option<Seq<Seq<u8>>> {
    if b.len() < 4 {
        None
    } else {
        blocks_from(b.skip(4), prefix_u32(b))
    }
}

/// Relies on borsh's `try_from_slice` for `Vec<Vec<u8>>`: a `u32` count, then
/// each block as a `u32` length and its bytes, and every input byte consumed.
#[verifier::external_body]
pub(crate) fn decode_blocks(input: &[u8]) -> (r: Option<Vec<Vec<u8>>>)
    ensures
        match r {
            Some(v) => blocks_of(input@) == Some(v.deep_view()),
            None => blocks_of(input@) is None,
        },
{
    <Vec<Vec<u8>> as BorshDeserialize>::try_from_slice(input).ok()
}

/// Relies on borsh's `try_from_slice` for `String`: a `u32` byte count, that
/// many bytes of valid UTF-8, and every input byte consumed.
#[verifier::external_body]
pub(crate) fn decode_text(input: &[u8]) -> (r: Option<String>)
    ensures
        match r {
            Some(s) => text_of(input@) == Some(s@),
            None => text_of(input@) is None,
        },
{
    <String as BorshDeserialize>::try_from_slice(input).ok()
}

/// Relies on borsh's `try_from_slice` for `(String, String)`: the two text
/// values one after the other, and every input byte consumed.
#[verifier::external_body]
pub(crate) fn decode_text_pair(input: &[u8]) -> (r: Option<(String, String)>)
    ensures
        match r {
            Some(p) => text_pair_of(input@) == Some((p.0@, p.1@)),
            None => text_pair_of(input@) is None,
        },
{
    <(String, String) as BorshDeserialize>::try_from_slice(input).ok()
}

/// Relies on `borsh::to_vec` for a pair of strings: each one's byte count as a
/// little-endian `u32`, then its bytes; it fails only where a count does not fit a `u32`.
#[verifier::external_body]
pub(crate) fn encode_text_pair(first: &String, second: &String) -> (r: Option<Vec<u8>>)
    requires
        encode_utf8(first@).len() <= u32::MAX,
        encode_utf8(second@).len() <= u32::MAX,
    ensures
        r is Some,
        r matches Some(v) ==> v@ == text_bytes(first@) + text_bytes(second@),
{
    borsh::to_vec(&(first, second)).ok()
}

/// The text value at the start of an encoding is read back whole, whatever follows it.
pub proof fn lemma_text_prefix_of_encoding(s: Seq<char>, rest: Seq<u8>)
    requires
        encode_utf8(s).len() <= u32::MAX,
    ensures
        text_prefix(text_bytes(s) + rest) == Some((s, text_bytes(s).len() as int)),
        text_bytes(s).len() == 4 + encode_utf8(s).len(),
{
    let e = encode_utf8(s);
    let b = text_bytes(s) + rest;
    lemma_auto_spec_u32_to_from_le_bytes();
    assert(b.take(4) =~= spec_u32_to_le_bytes(e.len() as u32));
    assert(prefix_u32(b) == e.len());
    assert(b.subrange(4, 4 + e.len() as int) =~= e);
    encode_utf8_valid_utf8(s);
    encode_utf8_decode_utf8(s);
}

/// Two encoded text values are read back as the same pair.
pub proof fn lemma_text_pair_round_trip(a: Seq<char>, b: Seq<char>)
    requires
        encode_utf8(a).len() <= u32::MAX,
        encode_utf8(b).len() <= u32::MAX,
    ensures
        text_pair_of(text_bytes(a) + text_bytes(b)) == Some((a, b)),
{
    let whole = text_bytes(a) + text_bytes(b);
    lemma_text_prefix_of_encoding(a, text_bytes(b));
    let n = text_bytes(a).len() as int;
    assert(whole.subrange(n, whole.len() as int) =~= text_bytes(b));
    lemma_text_prefix_of_encoding(b, Seq::empty());
    assert(text_bytes(b) + Seq::<u8>::empty() =~= text_bytes(b));
}

} // verus!
