use crate::accum_ftzr::{
    lemma_fold_push, Accumulates, Ftzr, IterFtzr, LinearFixed, TokenIter,
};
use crate::convert::EncodingError;
use crate::feature_from::FeatureFrom;
use crate::val::Val;
use vstd::utf8::encode_utf8;
use vstd::prelude::*;

verus! {

/// The identity featurizer: one token group, the whole input.
#[derive(Debug, Clone, Copy, PartialEq, Eq, Structural)]
pub struct Whole;

/// The empty featurizer: no token group at all.
#[derive(Debug, Clone, Copy, PartialEq, Eq, Structural)]
pub struct Empty;

/// The token group type of `Empty`; no value of it is ever produced.
#[derive(Debug, Clone, Copy, PartialEq, Eq, Structural)]
pub struct EmptyAtom;

impl Val for EmptyAtom {
    type V = ();

    open spec fn val(&self) -> () {
        ()
    }
}

/// The identity featurizer.
pub fn whole() -> (r: Whole) {
    Whole
}

/// The empty featurizer.
pub fn empty() -> (r: Empty) {
    Empty
}

impl LinearFixed for Empty {
    open spec fn spec_chunk_size(&self) -> nat {
        0
    }

    fn chunk_size(&self) -> (r: usize) {
        0
    }
}

impl<'a, T> Ftzr<&'a [T]> for Whole {
    type TokenGroup = &'a [T];

    open spec fn spec_wf(&self) -> bool {
        true
    }

    open spec fn spec_groups(&self, input: Seq<T>) -> Seq<Seq<T>> {
        seq![input]
    }

    fn push_tokens<Acc: Accumulates<&'a [T]>>(&self, input: &'a [T], state: &mut Acc::State) {
        let ghost m0 = Acc::spec_model(state);
        Acc::accum_token(state, input);
        proof {
            lemma_fold_push::<&'a [T], Acc>(m0, Seq::empty(), input.val());
            assert(Seq::<Seq<T>>::empty().push(input.val()) =~= seq![input.val()]);
        }
    }
}

impl<'a> Ftzr<&'a str> for Whole {
    type TokenGroup = &'a [u8];

    open spec fn spec_wf(&self) -> bool {
        true
    }

    /// A text is featurized as the sequence of its bytes.
    open spec fn spec_groups(&self, input: Seq<char>) -> Seq<Seq<u8>> {
        seq![encode_utf8(input)]
    }

    fn push_tokens<Acc: Accumulates<&'a [u8]>>(&self, input: &'a str, state: &mut Acc::State) {
        let bytes = input.as_bytes();
        <Whole as Ftzr<&'a [u8]>>::push_tokens::<Acc>(self, bytes, state);
    }
}

impl<'a, T> Ftzr<&'a [T]> for Empty {
    type TokenGroup = EmptyAtom;

    open spec fn spec_wf(&self) -> bool {
        true
    }

    open spec fn spec_groups(&self, input: Seq<T>) -> Seq<()> {
        Seq::empty()
    }

    fn push_tokens<Acc: Accumulates<EmptyAtom>>(&self, input: &'a [T], state: &mut Acc::State) {
    }
}

/// An iterator that yields at most one token group.
#[derive(Debug, Clone, Copy)]
pub struct OnceIter<G>(pub Option<G>);

impl<G: Val> TokenIter for OnceIter<G> {
    type Item = G;

    open spec fn spec_ok(&self) -> bool {
        true
    }

    open spec fn spec_remaining(&self) -> Seq<G::V> {
        match self.0 {
            Some(g) => seq![g.val()],
            None => Seq::empty(),
        }
    }

    fn next(&mut self) -> (r: Option<G>) {
        let r = self.0.take();
        proof {
            if r is Some {
                assert(seq![r->0.val()].drop_first() =~= Seq::<G::V>::empty());
            }
        }
        r
    }
}

impl<'a, T> IterFtzr<&'a [T]> for Whole {
    type Iter = OnceIter<&'a [T]>;

    fn iterate_features(&self, input: &'a [T]) -> (r: OnceIter<&'a [T]>) {
        OnceIter(Some(input))
    }
}

impl<'a, T> IterFtzr<&'a [T]> for Empty {
    type Iter = OnceIter<EmptyAtom>;

    fn iterate_features(&self, input: &'a [T]) -> (r: OnceIter<EmptyAtom>) {
        let r = OnceIter(None);
        assert(r.spec_remaining() =~= Seq::<()>::empty());
        r
    }
}

impl FeatureFrom<EmptyAtom> for String {
    open spec fn spec_from(t: ()) -> Option<Seq<char>> {
        Some(Seq::empty())
    }

    fn from(t: EmptyAtom) -> (r: Result<Self, EncodingError>) {
        Ok(String::new())
    }
}

} // verus!
