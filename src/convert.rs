use crate::val::Val;
use vstd::prelude::*;

verus! {

/// Marks a map-like container as a multiset: each occurrence of a key adds
/// one to its count (saturating at the largest count), instead of
/// overwriting the value.
#[derive(Debug, Default)]
pub struct Bag<T>(pub T);

/// Marks a feature as produced by either side of a composed featurizer, with
/// the side forgotten.
#[derive(Debug, Clone, Copy, PartialEq, Eq, Hash)]
pub struct Merged<T>(pub T);

impl<T: Val> Val for Merged<T> {
    type V = T::V;

    open spec fn val(&self) -> T::V {
        self.0.val()
    }
}

/// The conversion of a byte group into text failed: the bytes are not valid
/// UTF-8 (non-ASCII data should be featurized as a sequence of `char`).
#[derive(Debug, Clone, Copy, PartialEq, Eq, Structural)]
pub struct EncodingError;

impl EncodingError {
    /// Explains the failure.
    pub fn message(&self) -> (r: &'static str) {
        "featurizing into text is only supported for valid UTF-8 (ASCII) bytes; convert the input to a Vec<char> first"
    }
}

} // verus!
