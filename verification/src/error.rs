//! The closed set of serialization failures.

use vstd::prelude::*;

verus! {

/// A serialization or deserialization failure.
///
/// Every encoder and decoder communicates failure through this type; none
/// panics, whatever the input.
#[derive(Clone, Copy, Debug, PartialEq, Eq, Structural, Hash)]
pub enum Error {
    /// Fewer bytes remain in the input than a declared or fixed length
    /// requires.
    EarlyEndOfStream,
    /// A value's natural size exceeds what its length prefix can represent,
    /// so the value cannot be encoded at all.
    NotRepresentable,
}

} // verus!
