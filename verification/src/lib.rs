//! A deterministic, self-describing binary serialization layer.
//!
//! Values are encoded into byte sequences canonically: one value produces
//! exactly one byte sequence, and decoding consumes exactly the bytes that
//! encoding produced, returning the unconsumed remainder as an explicit
//! output. Decoders never panic on malformed or truncated input; every
//! failure is a typed [`Error`].
//!
//! The layer is built from four pieces: a safe-slicing primitive
//! ([`safe_split_at`]) through which every bounds check is routed, a
//! fixed-width little-endian integer codec, the [`ToBytes`] and [`FromBytes`]
//! contracts, and the [`Bytes`] container demonstrating the canonical
//! "length prefix followed by raw payload" pattern that every
//! variable-length type follows.

use vstd::prelude::*;
use vstd::slice::slice_subrange;

mod bytes;
mod error;
mod int_codec;
mod weight;

pub use bytes::Bytes;
pub use error::Error;
pub use int_codec::spec_u32_from_le_bytes;
pub use int_codec::spec_u32_to_le;
pub use weight::Weight;

verus! {

/// The number of bytes a `u32` occupies in its encoded form.
pub const U32_SERIALIZED_LENGTH: usize = 4;

/// Splits `bytes` into the prefix of length `num_bytes` and the remaining
/// suffix, as two views over the same memory, or fails without panicking
/// when fewer than `num_bytes` bytes are available.
///
/// Every length-prefixed decoder passes untrusted length values through
/// this single choke point before indexing, so no decoder can read past
/// the end of a buffer.
pub fn safe_split_at(bytes: &[u8], num_bytes: usize) -> (result: Result<
    (&[u8], &[u8]),
    Error,
>)
    ensures
        num_bytes <= bytes@.len() ==> (result matches Ok(split) && split.0@ == bytes@.subrange(
            0,
            num_bytes as int,
        ) && split.1@ == bytes@.subrange(num_bytes as int, bytes@.len() as int)),
        num_bytes > bytes@.len() ==> (result matches Err(e) && e == Error::EarlyEndOfStream),
{
    if num_bytes > bytes.len() {
        Err(Error::EarlyEndOfStream)
    } else {
        let prefix = slice_subrange(bytes, 0, num_bytes);
        let suffix = slice_subrange(bytes, num_bytes, bytes.len());
        Ok((prefix, suffix))
    }
}

/// The encoding capability: a value can state its exact encoded length and
/// produce its canonical byte sequence.
///
/// The encoding is specified as a function of the value's mathematical view
/// alone, so equal values always encode identically.
pub trait ToBytes: View + Sized {
    /// Whether a value can be encoded at all: encoding fails exactly when a
    /// value's natural size cannot be represented in its length prefix.
    spec fn spec_encodable(v: Self::V) -> bool;

    /// The canonical encoding of a value.
    spec fn spec_to_bytes(v: Self::V) -> Seq<u8>;

    /// Canonicality: two encodable values are equal exactly when their
    /// encodings are byte-for-byte equal.
    proof fn lemma_canonical(v1: Self::V, v2: Self::V)
        requires
            Self::spec_encodable(v1),
            Self::spec_encodable(v2),
        ensures
            v1 == v2 <==> Self::spec_to_bytes(v1) == Self::spec_to_bytes(v2),
    ;

    /// Produces a freshly allocated canonical encoding of the value.
    fn to_bytes(&self) -> (result: Result<Vec<u8>, Error>)
        ensures
            Self::spec_encodable(self@) ==> (result matches Ok(bytes) && bytes@
                == Self::spec_to_bytes(self@)),
            !Self::spec_encodable(self@) ==> (result matches Err(e) && e
                == Error::NotRepresentable),
    ;

    /// Ownership-consuming variant of [`Self::to_bytes`]: semantically
    /// identical, but permitted to reuse the value's own backing storage.
    fn into_bytes(self) -> (result: Result<Vec<u8>, Error>)
        ensures
            Self::spec_encodable(self@) ==> (result matches Ok(bytes) && bytes@
                == Self::spec_to_bytes(self@)),
            !Self::spec_encodable(self@) ==> (result matches Err(e) && e
                == Error::NotRepresentable),
    ;

    /// Declares the exact encoded length without performing the encode.
    fn serialized_length(&self) -> (len: usize)
        requires
            Self::spec_encodable(self@),
            Self::spec_to_bytes(self@).len() <= usize::MAX,
        ensures
            len == Self::spec_to_bytes(self@).len(),
    ;
}

/// The decoding capability: consume a prefix of a byte buffer and return the
/// decoded value together with the unconsumed remainder.
///
/// Both entry points are pinned to the same specification-level decoder
/// [`Self::spec_from_bytes`], so the borrowed and the owned mode decode
/// identical values from identical inputs; the owned mode exists purely as
/// an ownership-transfer optimization.
pub trait FromBytes: ToBytes {
    /// The specification-level decoder: the view of the decoded value and
    /// the unconsumed remainder, or `None` when the input is exhausted
    /// before the value is complete.
    spec fn spec_from_bytes(bytes: Seq<u8>) -> Option<(Self::V, Seq<u8>)>;

    /// Round trip with remainder preservation: an encoding followed by any
    /// suffix decodes to exactly the encoded value, leaving exactly that
    /// suffix unconsumed.
    proof fn lemma_roundtrip(v: Self::V, suffix: Seq<u8>)
        requires
            Self::spec_encodable(v),
        ensures
            Self::spec_from_bytes(Self::spec_to_bytes(v) + suffix) == Some((v, suffix)),
    ;

    /// Truncation safety: no strict prefix of an encoding decodes; the
    /// decoder reports stream exhaustion instead.
    proof fn lemma_truncation(v: Self::V, k: int)
        requires
            Self::spec_encodable(v),
            0 <= k < Self::spec_to_bytes(v).len(),
        ensures
            Self::spec_from_bytes(Self::spec_to_bytes(v).subrange(0, k)) is None,
    ;

    /// Remainder accounting: every successful decode consumes exactly the
    /// bytes that re-encoding the decoded value would produce, so the
    /// remainder's length is the input's length minus the value's
    /// serialized length.
    proof fn lemma_decode_inverts_encode(bytes: Seq<u8>)
        ensures
            Self::spec_from_bytes(bytes) matches Some(decoded) ==> Self::spec_encodable(decoded.0)
                && bytes == Self::spec_to_bytes(decoded.0) + decoded.1,
    ;

    /// Borrow-mode decode: consumes a prefix of `bytes` and returns the
    /// decoded value plus a borrowed view of the remainder.
    fn from_bytes(bytes: &[u8]) -> (result: Result<(Self, &[u8]), Error>)
        ensures
            (match Self::spec_from_bytes(bytes@) {
                Some(decoded) => result matches Ok(pair) && pair.0@ == decoded.0 && pair.1@
                    == decoded.1,
                None => result matches Err(e) && e == Error::EarlyEndOfStream,
            }),
    ;

    /// Ownership-mode decode: consumes a prefix of an owned buffer and
    /// returns the decoded value plus the remaining owned suffix.
    fn from_vec(bytes: Vec<u8>) -> (result: Result<(Self, Vec<u8>), Error>)
        ensures
            (match Self::spec_from_bytes(bytes@) {
                Some(decoded) => result matches Ok(pair) && pair.0@ == decoded.0 && pair.1@
                    == decoded.1,
                None => result matches Err(e) && e == Error::EarlyEndOfStream,
            }),
    ;
}

/// Decoding an encoding with nothing appended yields exactly the encoded
/// value and an empty remainder.
pub proof fn lemma_roundtrip_exact<T: FromBytes>(v: T::V)
    requires
        T::spec_encodable(v),
    ensures
        T::spec_from_bytes(T::spec_to_bytes(v)) == Some((v, Seq::<u8>::empty())),
{
    T::lemma_roundtrip(v, Seq::<u8>::empty());
    assert(T::spec_to_bytes(v) + Seq::<u8>::empty() =~= T::spec_to_bytes(v));
}

} // verus!
