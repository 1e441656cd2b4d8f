//! The variable-length byte container.
//!
//! [`Bytes`] wraps an arbitrary-length byte sequence and encodes as a
//! four-byte little-endian length prefix followed by exactly that many raw
//! bytes — the template every variable-length type in the system follows.

use vstd::prelude::*;
use vstd::slice::slice_to_vec;

use crate::error::Error;
use crate::int_codec::lemma_u32_le_roundtrip;
use crate::int_codec::spec_u32_to_le;
use crate::safe_split_at;
use crate::FromBytes;
use crate::ToBytes;
use crate::U32_SERIALIZED_LENGTH;

verus! {

/// A newtype wrapper for bytes that has efficient serialization routines.
///
/// Equality and hashing are structural over the contained bytes, consistent
/// with the canonicality of the encoding: two containers are equal exactly
/// when their encoded forms are byte-identical.
#[derive(Clone, Debug, Hash, PartialOrd, Ord)]
pub struct Bytes(Vec<u8>);

impl View for Bytes {
    type V = Seq<u8>;

    closed spec fn view(&self) -> Seq<u8> {
        self.0@
    }
}

impl Bytes {
    /// Constructs a new, empty vector of bytes.
    pub fn new() -> (result: Bytes)
        ensures
            result@ == Seq::<u8>::empty(),
    {
        Bytes::default()
    }

    /// Returns a reference to the inner container.
    pub fn inner_bytes(&self) -> (result: &Vec<u8>)
        ensures
            result@ == self@,
    {
        &self.0
    }

    /// Extracts a slice containing the entire vector.
    pub fn as_slice(&self) -> (result: &[u8])
        ensures
            result@ == self@,
    {
        self.0.as_slice()
    }

    /// Returns the number of bytes held.
    pub fn len(&self) -> (result: usize)
        ensures
            result == self@.len(),
    {
        self.0.len()
    }

    /// Returns whether no bytes are held.
    pub fn is_empty(&self) -> (result: bool)
        ensures
            result == (self@.len() == 0),
    {
        self.0.len() == 0
    }
}

impl Default for Bytes {
    fn default() -> (result: Bytes)
        ensures
            result@ == Seq::<u8>::empty(),
    {
        Bytes(Vec::new())
    }
}

impl PartialEq for Bytes {
    fn eq(&self, other: &Bytes) -> (result: bool) {
        if self.0.len() != other.0.len() {
            return false;
        }
        let mut i: usize = 0;
        while i < self.0.len()
            invariant
                self.0@.len() == other.0@.len(),
                i <= self.0@.len(),
                forall|j: int| 0 <= j < i ==> self.0@[j] == other.0@[j],
            decreases self.0@.len() - i,
        {
            if self.0[i] != other.0[i] {
                return false;
            }
            i = i + 1;
        }
        proof {
            assert(self.0@ =~= other.0@);
        }
        true
    }
}

impl Eq for Bytes {
}

impl vstd::std_specs::cmp::PartialEqSpecImpl for Bytes {
    open spec fn obeys_eq_spec() -> bool {
        true
    }

    open spec fn eq_spec(&self, other: &Bytes) -> bool {
        self@ == other@
    }
}

impl From<Vec<u8>> for Bytes {
    fn from(vec: Vec<u8>) -> (result: Bytes)
        ensures
            result@ == vec@,
    {
        Bytes(vec)
    }
}

impl vstd::std_specs::convert::FromSpecImpl<Vec<u8>> for Bytes {
    open spec fn obeys_from_spec() -> bool {
        true
    }

    closed spec fn from_spec(vec: Vec<u8>) -> Bytes {
        Bytes(vec)
    }
}

impl From<&[u8]> for Bytes {
    fn from(bytes: &[u8]) -> (result: Bytes)
        ensures
            result@ == bytes@,
    {
        Bytes(slice_to_vec(bytes))
    }
}

impl vstd::std_specs::convert::FromSpecImpl<&[u8]> for Bytes {
    open spec fn obeys_from_spec() -> bool {
        false
    }

    closed spec fn from_spec(bytes: &[u8]) -> Bytes {
        choose|result: Bytes| result@ == bytes@
    }
}

impl From<Bytes> for Vec<u8> {
    fn from(bytes: Bytes) -> (result: Vec<u8>)
        ensures
            result@ == bytes@,
    {
        bytes.0
    }
}

impl vstd::std_specs::convert::FromSpecImpl<Bytes> for Vec<u8> {
    open spec fn obeys_from_spec() -> bool {
        true
    }

    closed spec fn from_spec(bytes: Bytes) -> Vec<u8> {
        bytes.0
    }
}

impl ToBytes for Bytes {
    open spec fn spec_encodable(v: Seq<u8>) -> bool {
        v.len() <= u32::MAX
    }

    open spec fn spec_to_bytes(v: Seq<u8>) -> Seq<u8> {
        spec_u32_to_le(v.len() as u32) + v
    }

    proof fn lemma_canonical(v1: Seq<u8>, v2: Seq<u8>) {
        if Self::spec_to_bytes(v1) == Self::spec_to_bytes(v2) {
            let enc1 = Self::spec_to_bytes(v1);
            let enc2 = Self::spec_to_bytes(v2);
            assert(v1 =~= enc1.subrange(4, enc1.len() as int));
            assert(v2 =~= enc2.subrange(4, enc2.len() as int));
        }
    }

    fn to_bytes(&self) -> (result: Result<Vec<u8>, Error>) {
        serialize_byte_vec(&self.0)
    }

    fn into_bytes(self) -> (result: Result<Vec<u8>, Error>) {
        serialize_byte_vec(&self.0)
    }

    fn serialized_length(&self) -> (len: usize) {
        U32_SERIALIZED_LENGTH + self.0.len()
    }
}

/// Encodes `bytes` as a four-byte little-endian length prefix followed by
/// the raw bytes themselves, failing only when the length cannot be
/// represented in the four-byte prefix.
fn serialize_byte_vec(bytes: &Vec<u8>) -> (result: Result<Vec<u8>, Error>)
    ensures
        bytes@.len() <= u32::MAX ==> (result matches Ok(out) && out@ == spec_u32_to_le(
            bytes@.len() as u32,
        ) + bytes@),
        bytes@.len() > u32::MAX ==> (result matches Err(e) && e == Error::NotRepresentable),
{
    if bytes.len() > u32::MAX as usize {
        Err(Error::NotRepresentable)
    } else {
        let length_32: u32 = bytes.len() as u32;
        match length_32.to_bytes() {
            Err(e) => Err(e),
            Ok(out) => {
                let mut out = out;
                proof {
                    assert(out@ =~= spec_u32_to_le(length_32) + bytes@.subrange(0, 0));
                }
                let mut i: usize = 0;
                while i < bytes.len()
                    invariant
                        i <= bytes@.len(),
                        length_32 == bytes@.len() as u32,
                        out@ == spec_u32_to_le(length_32) + bytes@.subrange(0, i as int),
                    decreases bytes@.len() - i,
                {
                    out.push(bytes[i]);
                    i = i + 1;
                    proof {
                        assert(out@ =~= spec_u32_to_le(length_32) + bytes@.subrange(0, i as int));
                    }
                }
                proof {
                    assert(bytes@.subrange(0, bytes@.len() as int) =~= bytes@);
                }
                Ok(out)
            },
        }
    }
}

impl FromBytes for Bytes {
    open spec fn spec_from_bytes(bytes: Seq<u8>) -> Option<(Seq<u8>, Seq<u8>)> {
        match <u32 as FromBytes>::spec_from_bytes(bytes) {
            Some(decoded) => {
                let size = decoded.0;
                let rest = decoded.1;
                if size as int <= rest.len() {
                    Some((rest.subrange(0, size as int), rest.subrange(size as int, rest.len() as int)))
                } else {
                    None
                }
            },
            None => None,
        }
    }

    proof fn lemma_roundtrip(v: Seq<u8>, suffix: Seq<u8>) {
        let len32 = v.len() as u32;
        let stream = Self::spec_to_bytes(v) + suffix;
        assert(stream =~= spec_u32_to_le(len32) + (v + suffix));
        <u32 as FromBytes>::lemma_roundtrip(len32, v + suffix);
        let rest = v + suffix;
        assert(rest.subrange(0, len32 as int) =~= v);
        assert(rest.subrange(len32 as int, rest.len() as int) =~= suffix);
    }

    proof fn lemma_truncation(v: Seq<u8>, k: int) {
        let enc = Self::spec_to_bytes(v);
        let trunc = enc.subrange(0, k);
        let len32 = v.len() as u32;
        if k >= 4 {
            assert(trunc[0] == spec_u32_to_le(len32)[0]);
            assert(trunc[1] == spec_u32_to_le(len32)[1]);
            assert(trunc[2] == spec_u32_to_le(len32)[2]);
            assert(trunc[3] == spec_u32_to_le(len32)[3]);
            lemma_u32_le_roundtrip(len32);
            assert(trunc.subrange(4, k).len() == k - 4);
        }
    }

    proof fn lemma_decode_inverts_encode(bytes: Seq<u8>) {
        <u32 as FromBytes>::lemma_decode_inverts_encode(bytes);
        match <u32 as FromBytes>::spec_from_bytes(bytes) {
            Some(decoded) => {
                let size = decoded.0;
                let rest = decoded.1;
                if size as int <= rest.len() {
                    let payload = rest.subrange(0, size as int);
                    let remainder = rest.subrange(size as int, rest.len() as int);
                    assert(payload.len() as u32 == size);
                    assert(rest =~= payload + remainder);
                    assert(Self::spec_to_bytes(payload) + remainder =~= spec_u32_to_le(size)
                        + rest);
                }
            },
            None => {},
        }
    }

    fn from_bytes(bytes: &[u8]) -> (result: Result<(Bytes, &[u8]), Error>) {
        match <u32 as FromBytes>::from_bytes(bytes) {
            Err(e) => Err(e),
            Ok((size, remainder)) => match safe_split_at(remainder, size as usize) {
                Err(e) => Err(e),
                Ok((payload, rest)) => Ok((Bytes(slice_to_vec(payload)), rest)),
            },
        }
    }

    fn from_vec(stream: Vec<u8>) -> (result: Result<(Bytes, Vec<u8>), Error>) {
        match <u32 as FromBytes>::from_vec(stream) {
            Err(e) => Err(e),
            Ok((size, mut stream)) => {
                if size as usize > stream.len() {
                    Err(Error::EarlyEndOfStream)
                } else {
                    let remainder = stream.split_off(size as usize);
                    Ok((Bytes(stream), remainder))
                }
            },
        }
    }
}

} // verus!
