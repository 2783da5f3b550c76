use crate::convert::EncodingError;
use crate::feature_from::FeatureFrom;
use crate::val::Val;
use vstd::prelude::*;

verus! {

/// A feature encoded as its hash: `HashedAs<u64>`, or `HashedAs<u32>`,
/// `HashedAs<u16>` and `HashedAs<u8>` (the low bits of the same hash).
/// Equality is then a comparison of integers.
#[derive(Debug, Clone, Copy, PartialEq, Eq, PartialOrd, Ord, Hash)]
pub struct HashedAs<T>(pub T);

impl<T: Val> Val for HashedAs<T> {
    type V = T::V;

    open spec fn val(&self) -> T::V {
        self.0.val()
    }
}

/// The 64-bit fingerprint feature.
pub type Feature64 = HashedAs<u64>;

/// The 64-bit FxHash of a byte slice (its length, then its bytes).
pub uninterp spec fn fx_hash_bytes(b: Seq<u8>) -> u64;

/// Relies on `fxhash::hash64`: the FxHash of the slice, which depends on the
/// bytes of the slice alone.
#[verifier::external_body]
fn fx_hash64(b: &[u8]) -> (r: u64)
    ensures
        r == fx_hash_bytes(b@),
{
    fxhash::hash64(b)
}

impl<'a> FeatureFrom<&'a [u8]> for HashedAs<u64> {
    open spec fn spec_from(t: Seq<u8>) -> Option<u64> {
        Some(fx_hash_bytes(t))
    }

    fn from(t: &'a [u8]) -> (r: Result<Self, EncodingError>) {
        Ok(HashedAs(fx_hash64(t)))
    }
}

impl<const N: usize> FeatureFrom<[u8; N]> for HashedAs<u64> {
    open spec fn spec_from(t: Seq<u8>) -> Option<u64> {
        Some(fx_hash_bytes(t))
    }

    fn from(t: [u8; N]) -> (r: Result<Self, EncodingError>) {
        Ok(HashedAs(fx_hash64(t.as_slice())))
    }
}

impl<'a> FeatureFrom<&'a [u8]> for HashedAs<u32> {
    open spec fn spec_from(t: Seq<u8>) -> Option<u32> {
        Some(fx_hash_bytes(t) as u32)
    }

    fn from(t: &'a [u8]) -> (r: Result<Self, EncodingError>) {
        Ok(HashedAs(fx_hash64(t) as u32))
    }
}

impl<const N: usize> FeatureFrom<[u8; N]> for HashedAs<u32> {
    open spec fn spec_from(t: Seq<u8>) -> Option<u32> {
        Some(fx_hash_bytes(t) as u32)
    }

    fn from(t: [u8; N]) -> (r: Result<Self, EncodingError>) {
        Ok(HashedAs(fx_hash64(t.as_slice()) as u32))
    }
}

impl<'a> FeatureFrom<&'a [u8]> for HashedAs<u16> {
    open spec fn spec_from(t: Seq<u8>) -> Option<u16> {
        Some(fx_hash_bytes(t) as u16)
    }

    fn from(t: &'a [u8]) -> (r: Result<Self, EncodingError>) {
        Ok(HashedAs(fx_hash64(t) as u16))
    }
}

impl<const N: usize> FeatureFrom<[u8; N]> for HashedAs<u16> {
    open spec fn spec_from(t: Seq<u8>) -> Option<u16> {
        Some(fx_hash_bytes(t) as u16)
    }

    fn from(t: [u8; N]) -> (r: Result<Self, EncodingError>) {
        Ok(HashedAs(fx_hash64(t.as_slice()) as u16))
    }
}

impl<'a> FeatureFrom<&'a [u8]> for HashedAs<u8> {
    open spec fn spec_from(t: Seq<u8>) -> Option<u8> {
        Some(fx_hash_bytes(t) as u8)
    }

    fn from(t: &'a [u8]) -> (r: Result<Self, EncodingError>) {
        Ok(HashedAs(fx_hash64(t) as u8))
    }
}

impl<const N: usize> FeatureFrom<[u8; N]> for HashedAs<u8> {
    open spec fn spec_from(t: Seq<u8>) -> Option<u8> {
        Some(fx_hash_bytes(t) as u8)
    }

    fn from(t: [u8; N]) -> (r: Result<Self, EncodingError>) {
        Ok(HashedAs(fx_hash64(t.as_slice()) as u8))
    }
}

} // verus!
