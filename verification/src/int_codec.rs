//! The fixed-width little-endian integer codec.
//!
//! Every variable-length type's size prefix is one of these integers, so
//! this codec is the foundation of the whole encoding: exactly four bytes
//! in little-endian order for a `u32`, with decoding consuming exactly
//! that fixed width.

use vstd::prelude::*;

use crate::error::Error;
use crate::safe_split_at;
use crate::FromBytes;
use crate::ToBytes;
use crate::U32_SERIALIZED_LENGTH;

verus! {

/// The canonical little-endian encoding of a `u32`: four bytes, least
/// significant first.
pub open spec fn spec_u32_to_le(v: u32) -> Seq<u8> {
    seq![
        (v & 0xff) as u8,
        ((v >> 8) & 0xff) as u8,
        ((v >> 16) & 0xff) as u8,
        ((v >> 24) & 0xff) as u8,
    ]
}

/// The `u32` whose little-endian bytes are `b0`, `b1`, `b2`, `b3`, least
/// significant first.
pub open spec fn spec_u32_from_le_bytes(b0: u8, b1: u8, b2: u8, b3: u8) -> u32 {
    (b0 as u32) | ((b1 as u32) << 8) | ((b2 as u32) << 16) | ((b3 as u32) << 24)
}

/// Reassembling the four little-endian bytes of `v` yields `v` again.
pub proof fn lemma_u32_le_roundtrip(v: u32)
    ensures
        spec_u32_from_le_bytes(
            (v & 0xff) as u8,
            ((v >> 8) & 0xff) as u8,
            ((v >> 16) & 0xff) as u8,
            ((v >> 24) & 0xff) as u8,
        ) == v,
{
    assert((((v & 0xff) as u8) as u32) | (((((v >> 8) & 0xff) as u8) as u32) << 8) | (((((v >> 16)
        & 0xff) as u8) as u32) << 16) | (((((v >> 24) & 0xff) as u8) as u32) << 24) == v)
        by (bit_vector);
}

/// Splitting a reassembled `u32` back into bytes yields the original bytes.
pub proof fn lemma_u32_le_bytes_roundtrip(b0: u8, b1: u8, b2: u8, b3: u8)
    ensures
        (spec_u32_from_le_bytes(b0, b1, b2, b3) & 0xff) as u8 == b0,
        ((spec_u32_from_le_bytes(b0, b1, b2, b3) >> 8) & 0xff) as u8 == b1,
        ((spec_u32_from_le_bytes(b0, b1, b2, b3) >> 16) & 0xff) as u8 == b2,
        ((spec_u32_from_le_bytes(b0, b1, b2, b3) >> 24) & 0xff) as u8 == b3,
{
    assert((((b0 as u32) | ((b1 as u32) << 8) | ((b2 as u32) << 16) | ((b3 as u32) << 24)) & 0xff)
        as u8 == b0) by (bit_vector);
    assert(((((b0 as u32) | ((b1 as u32) << 8) | ((b2 as u32) << 16) | ((b3 as u32) << 24)) >> 8)
        & 0xff) as u8 == b1) by (bit_vector);
    assert(((((b0 as u32) | ((b1 as u32) << 8) | ((b2 as u32) << 16) | ((b3 as u32) << 24)) >> 16)
        & 0xff) as u8 == b2) by (bit_vector);
    assert(((((b0 as u32) | ((b1 as u32) << 8) | ((b2 as u32) << 16) | ((b3 as u32) << 24)) >> 24)
        & 0xff) as u8 == b3) by (bit_vector);
}

impl ToBytes for u32 {
    open spec fn spec_encodable(v: u32) -> bool {
        true
    }

    open spec fn spec_to_bytes(v: u32) -> Seq<u8> {
        spec_u32_to_le(v)
    }

    proof fn lemma_canonical(v1: u32, v2: u32) {
        if Self::spec_to_bytes(v1) == Self::spec_to_bytes(v2) {
            lemma_u32_le_roundtrip(v1);
            lemma_u32_le_roundtrip(v2);
            assert(spec_u32_to_le(v1)[0] == spec_u32_to_le(v2)[0]);
            assert(spec_u32_to_le(v1)[1] == spec_u32_to_le(v2)[1]);
            assert(spec_u32_to_le(v1)[2] == spec_u32_to_le(v2)[2]);
            assert(spec_u32_to_le(v1)[3] == spec_u32_to_le(v2)[3]);
        }
    }

    fn to_bytes(&self) -> (result: Result<Vec<u8>, Error>) {
        let v = *self;
        let b0 = low_byte(v);
        let b1 = low_byte(v >> 8);
        let b2 = low_byte(v >> 16);
        let b3 = low_byte(v >> 24);
        let mut out: Vec<u8> = Vec::new();
        out.push(b0);
        out.push(b1);
        out.push(b2);
        out.push(b3);
        proof {
            assert(out@ =~= spec_u32_to_le(v));
        }
        Ok(out)
    }

    fn into_bytes(self) -> (result: Result<Vec<u8>, Error>) {
        self.to_bytes()
    }

    fn serialized_length(&self) -> (len: usize) {
        U32_SERIALIZED_LENGTH
    }
}

/// The least significant byte of `v`.
fn low_byte(v: u32) -> (b: u8)
    ensures
        b == (v & 0xff) as u8,
{
    let masked = v & 0xff;
    assert(v & 0xff < 256) by (bit_vector);
    masked as u8
}

impl FromBytes for u32 {
    open spec fn spec_from_bytes(bytes: Seq<u8>) -> Option<(u32, Seq<u8>)> {
        if bytes.len() >= 4 {
            Some(
                (
                    spec_u32_from_le_bytes(bytes[0], bytes[1], bytes[2], bytes[3]),
                    bytes.subrange(4, bytes.len() as int),
                ),
            )
        } else {
            None
        }
    }

    proof fn lemma_roundtrip(v: u32, suffix: Seq<u8>) {
        let encoded = spec_u32_to_le(v);
        let stream = encoded + suffix;
        assert(stream[0] == encoded[0]);
        assert(stream[1] == encoded[1]);
        assert(stream[2] == encoded[2]);
        assert(stream[3] == encoded[3]);
        lemma_u32_le_roundtrip(v);
        assert(stream.subrange(4, stream.len() as int) =~= suffix);
    }

    proof fn lemma_truncation(v: u32, k: int) {
        assert(Self::spec_to_bytes(v).subrange(0, k).len() == k);
    }

    proof fn lemma_decode_inverts_encode(bytes: Seq<u8>) {
        if bytes.len() >= 4 {
            let value = spec_u32_from_le_bytes(bytes[0], bytes[1], bytes[2], bytes[3]);
            lemma_u32_le_bytes_roundtrip(bytes[0], bytes[1], bytes[2], bytes[3]);
            assert(spec_u32_to_le(value) + bytes.subrange(4, bytes.len() as int) =~= bytes);
        }
    }

    fn from_bytes(bytes: &[u8]) -> (result: Result<(u32, &[u8]), Error>) {
        match safe_split_at(bytes, U32_SERIALIZED_LENGTH) {
            Err(e) => Err(e),
            Ok((prefix, remainder)) => {
                let value = le_bytes_to_u32(prefix);
                proof {
                    assert(prefix@[0] == bytes@[0]);
                    assert(prefix@[1] == bytes@[1]);
                    assert(prefix@[2] == bytes@[2]);
                    assert(prefix@[3] == bytes@[3]);
                    assert(remainder@ == bytes@.subrange(4, bytes@.len() as int));
                }
                Ok((value, remainder))
            },
        }
    }

    fn from_vec(bytes: Vec<u8>) -> (result: Result<(u32, Vec<u8>), Error>) {
        if bytes.len() < U32_SERIALIZED_LENGTH {
            Err(Error::EarlyEndOfStream)
        } else {
            let value = le_bytes_to_u32(bytes.as_slice());
            let mut head = bytes;
            let remainder = head.split_off(U32_SERIALIZED_LENGTH);
            Ok((value, remainder))
        }
    }
}

/// Reads the `u32` held in the first four bytes of `bytes`, least
/// significant first.
fn le_bytes_to_u32(bytes: &[u8]) -> (value: u32)
    requires
        bytes@.len() >= 4,
    ensures
        value == spec_u32_from_le_bytes(bytes@[0], bytes@[1], bytes@[2], bytes@[3]),
{
    let b0 = *vstd::slice::slice_index_get(bytes, 0);
    let b1 = *vstd::slice::slice_index_get(bytes, 1);
    let b2 = *vstd::slice::slice_index_get(bytes, 2);
    let b3 = *vstd::slice::slice_index_get(bytes, 3);
    (b0 as u32) | ((b1 as u32) << 8) | ((b2 as u32) << 16) | ((b3 as u32) << 24)
}

} // verus!
