use crate::convert::EncodingError;
use crate::tokengroup::string_of_chars;
use crate::val::Val;
use vstd::prelude::*;
use vstd::string::StringSliceAdditionalSpecFns;
use vstd::utf8::*;

verus! {

/// Conversion from a token group (or any value) into a feature.
///
/// `spec_from` says, over views, what the conversion yields: `None` means the
/// conversion fails (only text made from bytes can fail).
pub trait FeatureFrom<T: Val>: Val + Sized {
    /// The view of the feature made from a value whose view is `t`.
    spec fn spec_from(t: T::V) -> Option<Self::V>;

    /// Converts `t`.
    fn from(t: T) -> (r: Result<Self, EncodingError>)
        ensures
            match Self::spec_from(t.val()) {
                Some(v) => r is Ok && r->Ok_0.val() == v,
                None => r is Err,
            },
    ;
}

/// The text that a byte sequence encodes, if it is valid UTF-8.
pub open spec fn text_of(b: Seq<u8>) -> Option<Seq<char>> {
    if valid_utf8(b) {
        Some(decode_utf8(b))
    } else {
        None
    }
}

/// Relies on `std::str::from_utf8`: it succeeds exactly on valid UTF-8, and the
/// string it returns is made of the same bytes.
#[verifier::external_body]
fn str_from_utf8<'a>(b: &'a [u8]) -> (r: Option<&'a str>)
    ensures
        r is Some <==> valid_utf8(b@),
        r matches Some(s) ==> s.spec_bytes() == b@,
{
    std::str::from_utf8(b).ok()
}

/// Decodes bytes into a string slice borrowed from them.
fn decode_str<'a>(b: &'a [u8]) -> (r: Result<&'a str, EncodingError>)
    ensures
        match text_of(b@) {
            Some(v) => r is Ok && r->Ok_0.val() == v,
            None => r is Err,
        },
{
    match str_from_utf8(b) {
        Some(s) => {
            proof {
                encode_utf8_decode_utf8(s@);
            }
            Ok(s)
        },
        None => Err(EncodingError),
    }
}

impl<'a, T> FeatureFrom<&'a [T]> for &'a [T] {
    open spec fn spec_from(t: Seq<T>) -> Option<Seq<T>> {
        Some(t)
    }

    fn from(t: &'a [T]) -> (r: Result<Self, EncodingError>) {
        Ok(t)
    }
}

impl<'a> FeatureFrom<&'a [u8]> for &'a str {
    open spec fn spec_from(t: Seq<u8>) -> Option<Seq<char>> {
        text_of(t)
    }

    fn from(t: &'a [u8]) -> (r: Result<Self, EncodingError>) {
        decode_str(t)
    }
}

impl<T, const N: usize> FeatureFrom<[T; N]> for [T; N] {
    open spec fn spec_from(t: Seq<T>) -> Option<Seq<T>> {
        Some(t)
    }

    fn from(t: [T; N]) -> (r: Result<Self, EncodingError>) {
        Ok(t)
    }
}

impl<T: Copy, const N: usize> FeatureFrom<[T; N]> for Vec<T> {
    open spec fn spec_from(t: Seq<T>) -> Option<Seq<T>> {
        Some(t)
    }

    fn from(t: [T; N]) -> (r: Result<Self, EncodingError>) {
        Ok(vstd::slice::slice_to_vec(t.as_slice()))
    }
}

impl<'a, T: Copy> FeatureFrom<&'a [T]> for Vec<T> {
    open spec fn spec_from(t: Seq<T>) -> Option<Seq<T>> {
        Some(t)
    }

    fn from(t: &'a [T]) -> (r: Result<Self, EncodingError>) {
        Ok(vstd::slice::slice_to_vec(t))
    }
}

impl<const N: usize> FeatureFrom<[u8; N]> for String {
    open spec fn spec_from(t: Seq<u8>) -> Option<Seq<char>> {
        text_of(t)
    }

    fn from(t: [u8; N]) -> (r: Result<Self, EncodingError>) {
        match decode_str(t.as_slice()) {
            Ok(s) => Ok(s.to_owned()),
            Err(e) => Err(e),
        }
    }
}

impl<'a> FeatureFrom<&'a [u8]> for String {
    open spec fn spec_from(t: Seq<u8>) -> Option<Seq<char>> {
        text_of(t)
    }

    fn from(t: &'a [u8]) -> (r: Result<Self, EncodingError>) {
        match decode_str(t) {
            Ok(s) => Ok(s.to_owned()),
            Err(e) => Err(e),
        }
    }
}

impl<const N: usize> FeatureFrom<[char; N]> for String {
    open spec fn spec_from(t: Seq<char>) -> Option<Seq<char>> {
        Some(t)
    }

    fn from(t: [char; N]) -> (r: Result<Self, EncodingError>) {
        Ok(string_of_chars(t.as_slice()))
    }
}

impl<'a> FeatureFrom<&'a [char]> for String {
    open spec fn spec_from(t: Seq<char>) -> Option<Seq<char>> {
        Some(t)
    }

    fn from(t: &'a [char]) -> (r: Result<Self, EncodingError>) {
        Ok(string_of_chars(t))
    }
}

impl<'a> FeatureFrom<&'a str> for &'a str {
    open spec fn spec_from(t: Seq<char>) -> Option<Seq<char>> {
        Some(t)
    }

    fn from(t: &'a str) -> (r: Result<Self, EncodingError>) {
        Ok(t)
    }
}

impl<'a> FeatureFrom<&'a str> for String {
    open spec fn spec_from(t: Seq<char>) -> Option<Seq<char>> {
        Some(t)
    }

    fn from(t: &'a str) -> (r: Result<Self, EncodingError>) {
        Ok(t.to_owned())
    }
}

impl FeatureFrom<String> for String {
    open spec fn spec_from(t: Seq<char>) -> Option<Seq<char>> {
        Some(t)
    }

    fn from(t: String) -> (r: Result<Self, EncodingError>) {
        Ok(t)
    }
}

/// Slice groups taken as slice features all convert, each to itself.
pub proof fn lemma_convert_slices<T>(ts: Seq<Seq<T>>)
    ensures
        crate::accum_ftzr::convert_all::<&[T], &[T]>(ts) == Some(ts),
    decreases ts.len(),
{
    if ts.len() > 0 {
        lemma_convert_slices::<T>(ts.drop_last());
        assert(ts.drop_last().push(ts.last()) =~= ts);
    }
}

/// Array groups taken as array features all convert, each to itself.
pub proof fn lemma_convert_arrays<T, const N: usize>(ts: Seq<Seq<T>>)
    ensures
        crate::accum_ftzr::convert_all::<[T; N], [T; N]>(ts) == Some(ts),
    decreases ts.len(),
{
    if ts.len() > 0 {
        lemma_convert_arrays::<T, N>(ts.drop_last());
        assert(ts.drop_last().push(ts.last()) =~= ts);
    }
}

/// Round trips: an array or a slice group converted to a vector, and a char
/// group converted to a string, keep exactly their elements, in order (so
/// `chars_of` gives the chars back); a byte group converted to text encodes
/// back to the very same bytes.
pub proof fn lemma_round_trip<'a, T: Copy, const N: usize>(
    elems: Seq<T>,
    chars: Seq<char>,
    bytes: Seq<u8>,
)
    ensures
        <Vec<T> as FeatureFrom<[T; N]>>::spec_from(elems) == Some(elems),
        <Vec<T> as FeatureFrom<&'a [T]>>::spec_from(elems) == Some(elems),
        <String as FeatureFrom<&'a [char]>>::spec_from(chars) == Some(chars),
        <String as FeatureFrom<[char; N]>>::spec_from(chars) == Some(chars),
        valid_utf8(bytes) ==> <String as FeatureFrom<&'a [u8]>>::spec_from(bytes) is Some
            && encode_utf8(<String as FeatureFrom<&'a [u8]>>::spec_from(bytes)->0) == bytes,
{
    if valid_utf8(bytes) {
        decode_utf8_encode_utf8(bytes);
    }
}

/// Conversion is a pure function of the token group's value: two successful
/// conversions of equal groups give equal features.
pub proof fn lemma_conversion_is_pure<T: Val, F: FeatureFrom<T>>(a: T, b: T, fa: F, fb: F)
    requires
        a.val() == b.val(),
        F::spec_from(a.val()) == Some(fa.val()),
        F::spec_from(b.val()) == Some(fb.val()),
    ensures
        fa.val() == fb.val(),
{
}

} // verus!
