//! Outcomes of the tagged binary codec.
use vstd::prelude::*;

verus! {

/// Why a byte buffer could not be decoded.
#[derive(Clone, Copy, Debug, PartialEq, Eq, Structural)]
pub enum CodecError {
    /// The buffer ended before the value did.
    TruncatedInput,
    /// The buffer does not hold a value of the expected shape.
    MalformedInput,
}

/// The outcome of decoding a buffer, given the first item read from it:
/// a buffer with no item is truncated; otherwise the item's own outcome.
pub fn decoded_item<T>(first: Option<Result<T, CodecError>>) -> (r: Result<T, CodecError>)
    ensures
        first is None ==> r == Err::<T, CodecError>(CodecError::TruncatedInput),
        first is Some ==> r == first->Some_0,
{
    match first {
        Some(item) => item,
        None => Err(CodecError::TruncatedInput),
    }
}

} // verus!
