use vstd::prelude::*;

verus! {

/// The mathematical value of an input, a token group or a feature, over which
/// the contracts of featurizers, conversions and accumulators are stated.
pub trait Val {
    type V;

    spec fn val(&self) -> Self::V;
}

impl<'a, T> Val for &'a [T] {
    type V = Seq<T>;

    open spec fn val(&self) -> Seq<T> {
        (**self)@
    }
}

impl<T, const N: usize> Val for [T; N] {
    type V = Seq<T>;

    open spec fn val(&self) -> Seq<T> {
        self@
    }
}

impl<T> Val for Vec<T> {
    type V = Seq<T>;

    open spec fn val(&self) -> Seq<T> {
        self@
    }
}

impl<'a> Val for &'a str {
    type V = Seq<char>;

    open spec fn val(&self) -> Seq<char> {
        (**self)@
    }
}

impl Val for String {
    type V = Seq<char>;

    open spec fn val(&self) -> Seq<char> {
        self@
    }
}

impl Val for u64 {
    type V = u64;

    open spec fn val(&self) -> u64 {
        *self
    }
}

impl Val for u16 {
    type V = u16;

    open spec fn val(&self) -> u16 {
        *self
    }
}

impl Val for u8 {
    type V = u8;

    open spec fn val(&self) -> u8 {
        *self
    }
}

impl Val for u32 {
    type V = u32;

    open spec fn val(&self) -> u32 {
        *self
    }
}

impl<A: Val, B: Val> Val for (A, B) {
    type V = (A::V, B::V);

    open spec fn val(&self) -> (A::V, B::V) {
        (self.0.val(), self.1.val())
    }
}

impl<A: Val, B: Val> Val for Result<A, B> {
    type V = Result<A::V, B::V>;

    open spec fn val(&self) -> Result<A::V, B::V> {
        match self {
            Ok(a) => Ok(a.val()),
            Err(b) => Err(b.val()),
        }
    }
}

/// The values of the items of a sequence.
pub open spec fn vals<T: Val>(s: Seq<T>) -> Seq<T::V> {
    s.map_values(|t: T| t.val())
}

/// An input that can be cut into contiguous pieces without copying.
pub trait Sliceable: Val + Copy + Sized {
    /// The length of an input whose value is `v`.
    spec fn spec_len(v: Self::V) -> nat;

    /// The value of the piece `[i, j)` of an input whose value is `v`.
    spec fn spec_sub(v: Self::V, i: int, j: int) -> Self::V;

    fn length(&self) -> (r: usize)
        ensures
            r as nat == Self::spec_len(self.val()),
    ;

    fn piece(&self, i: usize, j: usize) -> (r: Self)
        requires
            i <= j <= Self::spec_len(self.val()),
        ensures
            r.val() == Self::spec_sub(self.val(), i as int, j as int),
    ;
}

impl<'a, T> Sliceable for &'a [T] {
    open spec fn spec_len(v: Seq<T>) -> nat {
        v.len()
    }

    open spec fn spec_sub(v: Seq<T>, i: int, j: int) -> Seq<T> {
        v.subrange(i, j)
    }

    fn length(&self) -> (r: usize) {
        self.len()
    }

    fn piece(&self, i: usize, j: usize) -> (r: Self) {
        vstd::slice::slice_subrange(*self, i, j)
    }
}

} // verus!
