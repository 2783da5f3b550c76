use crate::accum_ftzr::{
    lemma_fold_concat, lemma_tagged_fold, tag_all, Accumulates, Ftzr, IterFtzr, Tagged,
    Tagging, TokenIter,
};
use crate::convert::{EncodingError, Merged};
use crate::feature_from::FeatureFrom;
use crate::val::Val;
use std::marker::PhantomData;
use vstd::prelude::*;

verus! {

/// The union of two featurizers: runs the first, then the second, over the
/// same input. Nest it on the right for more than two.
#[derive(Debug, Clone, Copy)]
pub struct MultiFtzr<A, B>(pub A, pub B);

/// A token group of a union, tagged with the featurizer that produced it.
/// Converting it into `Merged<C>` forgets the side, so that equal groups of
/// both sides become equal features.
#[derive(Debug, Clone, Copy, PartialEq, Eq)]
pub enum EitherGroup<A, B> {
    /// Produced by the first featurizer.
    Left(A),
    /// Produced by the second featurizer.
    Right(B),
}

impl<A: Val, B: Val> Val for EitherGroup<A, B> {
    type V = EitherGroup<A::V, B::V>;

    open spec fn val(&self) -> EitherGroup<A::V, B::V> {
        match self {
            EitherGroup::Left(a) => EitherGroup::Left(a.val()),
            EitherGroup::Right(b) => EitherGroup::Right(b.val()),
        }
    }
}

/// Tags a token group as produced by the first featurizer of a union.
#[derive(Debug)]
pub struct LeftTag<B>(pub PhantomData<B>);

/// Tags a token group as produced by the second featurizer of a union.
#[derive(Debug)]
pub struct RightTag<A>(pub PhantomData<A>);

impl<A: Val, B: Val> Tagging<A> for LeftTag<B> {
    type Out = EitherGroup<A, B>;

    open spec fn spec_tag(t: A::V) -> EitherGroup<A::V, B::V> {
        EitherGroup::Left(t)
    }

    fn tag(t: A) -> (r: EitherGroup<A, B>) {
        let r = EitherGroup::<A, B>::Left(t);
        assert(r.val() == EitherGroup::<A::V, B::V>::Left(t.val()));
        r
    }
}

impl<A: Val, B: Val> Tagging<B> for RightTag<A> {
    type Out = EitherGroup<A, B>;

    open spec fn spec_tag(t: B::V) -> EitherGroup<A::V, B::V> {
        EitherGroup::Right(t)
    }

    fn tag(t: B) -> (r: EitherGroup<A, B>) {
        let r = EitherGroup::<A, B>::Right(t);
        assert(r.val() == EitherGroup::<A::V, B::V>::Right(t.val()));
        r
    }
}

/// Runs `a` then `b` over the same input.
pub fn multi<A, B>(a: A, b: B) -> (r: MultiFtzr<A, B>)
    ensures
        r.0 == a,
        r.1 == b,
{
    MultiFtzr(a, b)
}

impl<I: Val + Copy, A: Ftzr<I>, B: Ftzr<I>> Ftzr<I> for MultiFtzr<A, B> {
    type TokenGroup = EitherGroup<A::TokenGroup, B::TokenGroup>;

    open spec fn spec_wf(&self) -> bool {
        self.0.spec_wf() && self.1.spec_wf()
    }

    open spec fn spec_groups(&self, input: I::V) -> Seq<<Self::TokenGroup as Val>::V> {
        tag_all::<A::TokenGroup, LeftTag<B::TokenGroup>>(self.0.spec_groups(input)) + tag_all::<
            B::TokenGroup,
            RightTag<A::TokenGroup>,
        >(self.1.spec_groups(input))
    }

    fn push_tokens<Acc: Accumulates<Self::TokenGroup>>(&self, input: I, state: &mut Acc::State) {
        let ghost m0 = Acc::spec_model(state);
        self.0.push_tokens::<Tagged<LeftTag<B::TokenGroup>, Acc>>(input, state);
        let ghost m1 = Acc::spec_model(state);
        self.1.push_tokens::<Tagged<RightTag<A::TokenGroup>, Acc>>(input, state);
        proof {
            let ga = self.0.spec_groups(input.val());
            let gb = self.1.spec_groups(input.val());
            lemma_tagged_fold::<A::TokenGroup, LeftTag<B::TokenGroup>, Acc>(m0, ga);
            lemma_tagged_fold::<B::TokenGroup, RightTag<A::TokenGroup>, Acc>(m1, gb);
            lemma_fold_concat::<Self::TokenGroup, Acc>(
                m0,
                tag_all::<A::TokenGroup, LeftTag<B::TokenGroup>>(ga),
                tag_all::<B::TokenGroup, RightTag<A::TokenGroup>>(gb),
            );
        }
    }
}


impl<A: Val, B: Val, C: FeatureFrom<A> + FeatureFrom<B>> FeatureFrom<EitherGroup<A, B>> for Merged<
    C,
> {
    open spec fn spec_from(t: EitherGroup<A::V, B::V>) -> Option<C::V> {
        match t {
            EitherGroup::Left(a) => <C as FeatureFrom<A>>::spec_from(a),
            EitherGroup::Right(b) => <C as FeatureFrom<B>>::spec_from(b),
        }
    }

    fn from(t: EitherGroup<A, B>) -> (r: Result<Self, EncodingError>) {
        let c = match t {
            EitherGroup::Left(a) => <C as FeatureFrom<A>>::from(a),
            EitherGroup::Right(b) => <C as FeatureFrom<B>>::from(b),
        };
        match c {
            Ok(c) => Ok(Merged(c)),
            Err(e) => Err(e),
        }
    }
}

impl<A: Val, B: Val, X: FeatureFrom<A>, Y: FeatureFrom<B>> FeatureFrom<EitherGroup<A, B>> for Result<
    X,
    Y,
> {
    open spec fn spec_from(t: EitherGroup<A::V, B::V>) -> Option<Result<X::V, Y::V>> {
        match t {
            EitherGroup::Left(a) => match X::spec_from(a) {
                Some(x) => Some(Ok(x)),
                None => None,
            },
            EitherGroup::Right(b) => match Y::spec_from(b) {
                Some(y) => Some(Err(y)),
                None => None,
            },
        }
    }

    fn from(t: EitherGroup<A, B>) -> (r: Result<Self, EncodingError>) {
        match t {
            EitherGroup::Left(a) => match X::from(a) {
                Ok(x) => Ok(Ok(x)),
                Err(e) => Err(e),
            },
            EitherGroup::Right(b) => match Y::from(b) {
                Ok(y) => Ok(Err(y)),
                Err(e) => Err(e),
            },
        }
    }
}

/// The iterator of a union: the first featurizer's groups, then the
/// second's, each tagged with its side. The flag is set while the first
/// featurizer may still have groups.
#[derive(Debug, Clone, Copy)]
pub struct MultiFtzrIter<A, B>(pub bool, pub A, pub B);

impl<A: TokenIter, B: TokenIter> TokenIter for MultiFtzrIter<A, B> {
    type Item = EitherGroup<A::Item, B::Item>;

    open spec fn spec_ok(&self) -> bool {
        self.1.spec_ok() && self.2.spec_ok()
    }

    open spec fn spec_remaining(&self) -> Seq<EitherGroup<<A::Item as Val>::V, <B::Item as Val>::V>> {
        let right = tag_all::<B::Item, RightTag<A::Item>>(self.2.spec_remaining());
        if self.0 {
            tag_all::<A::Item, LeftTag<B::Item>>(self.1.spec_remaining()) + right
        } else {
            right
        }
    }

    fn next(&mut self) -> (r: Option<EitherGroup<A::Item, B::Item>>) {
        let ghost ra = self.1.spec_remaining();
        let ghost rb = self.2.spec_remaining();
        if self.0 {
            match self.1.next() {
                Some(a) => {
                    proof {
                        assert(tag_all::<A::Item, LeftTag<B::Item>>(ra).drop_first() =~= tag_all::<
                            A::Item,
                            LeftTag<B::Item>,
                        >(self.1.spec_remaining()));
                        let right = tag_all::<B::Item, RightTag<A::Item>>(rb);
                        assert((tag_all::<A::Item, LeftTag<B::Item>>(ra) + right).drop_first()
                            =~= tag_all::<A::Item, LeftTag<B::Item>>(ra).drop_first() + right);
                    }
                    return Some(<LeftTag<B::Item> as Tagging<A::Item>>::tag(a));
                },
                None => {
                    self.0 = false;
                    assert(tag_all::<A::Item, LeftTag<B::Item>>(ra) =~= Seq::empty());
                    assert(old(self).spec_remaining() =~= tag_all::<B::Item, RightTag<A::Item>>(
                        rb,
                    ));
                },
            }
        }
        match self.2.next() {
            Some(b) => {
                assert(tag_all::<B::Item, RightTag<A::Item>>(rb).drop_first() =~= tag_all::<
                    B::Item,
                    RightTag<A::Item>,
                >(self.2.spec_remaining()));
                Some(<RightTag<A::Item> as Tagging<B::Item>>::tag(b))
            },
            None => None,
        }
    }
}

impl<I: Val + Copy, A: IterFtzr<I>, B: IterFtzr<I>> IterFtzr<I> for MultiFtzr<A, B> {
    type Iter = MultiFtzrIter<A::Iter, B::Iter>;

    fn iterate_features(&self, input: I) -> (r: MultiFtzrIter<A::Iter, B::Iter>) {
        MultiFtzrIter(true, self.0.iterate_features(input), self.1.iterate_features(input))
    }
}

/// A union gives as many token groups as its two featurizers give when each
/// is run alone on the same input.
pub proof fn lemma_multi_len<I: Val + Copy, A: Ftzr<I>, B: Ftzr<I>>(f: MultiFtzr<A, B>, input: I::V)
    ensures
        f.spec_groups(input).len() == f.0.spec_groups(input).len() + f.1.spec_groups(input).len(),
{
}

} // verus!
