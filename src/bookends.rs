use crate::accum_ftzr::{
    lemma_fold_concat, lemma_tagged_fold, next_of, ok_of, rem_of, tag_all, Accumulates,
    Ftzr, IterFtzr, Tagged, Tagging, TokenIter,
};
use crate::convert::{EncodingError, Merged};
use crate::feature_from::FeatureFrom;
use crate::val::{Sliceable, Val};
use std::marker::PhantomData;
use vstd::prelude::*;

verus! {

/// Runs one featurizer on the first `front_size` elements of the input and
/// another on the last `back_size` elements, skipping what lies between.
/// Created with `bookends((front, front_size), (back, back_size))`.
#[derive(Debug, Clone, Copy)]
pub struct BookEnds<A, B> {
    /// The featurizer of the prefix.
    pub front: A,
    /// The featurizer of the suffix.
    pub back: B,
    /// The length of the prefix.
    pub front_size: usize,
    /// The length of the suffix.
    pub back_size: usize,
}

/// A token group of a pair of bookends, tagged with the end it comes from, so
/// that a prefix is never confused with an equal suffix.
#[derive(Debug, Clone, Copy, PartialEq, Eq, Hash)]
pub enum FrontBack<A, B> {
    /// Produced by the front featurizer on the prefix.
    Front(A),
    /// Produced by the back featurizer on the suffix.
    Back(B),
}

impl<A: Val, B: Val> Val for FrontBack<A, B> {
    type V = FrontBack<A::V, B::V>;

    open spec fn val(&self) -> FrontBack<A::V, B::V> {
        match self {
            FrontBack::Front(a) => FrontBack::Front(a.val()),
            FrontBack::Back(b) => FrontBack::Back(b.val()),
        }
    }
}

/// Tags a token group as coming from the prefix.
#[derive(Debug)]
pub struct FrontTag<B>(pub PhantomData<B>);

/// Tags a token group as coming from the suffix.
#[derive(Debug)]
pub struct BackTag<A>(pub PhantomData<A>);

impl<A: Val, B: Val> Tagging<A> for FrontTag<B> {
    type Out = FrontBack<A, B>;

    open spec fn spec_tag(t: A::V) -> FrontBack<A::V, B::V> {
        FrontBack::Front(t)
    }

    fn tag(t: A) -> (r: FrontBack<A, B>) {
        let r = FrontBack::<A, B>::Front(t);
        assert(r.val() == FrontBack::<A::V, B::V>::Front(t.val()));
        r
    }
}

impl<A: Val, B: Val> Tagging<B> for BackTag<A> {
    type Out = FrontBack<A, B>;

    open spec fn spec_tag(t: B::V) -> FrontBack<A::V, B::V> {
        FrontBack::Back(t)
    }

    fn tag(t: B) -> (r: FrontBack<A, B>) {
        let r = FrontBack::<A, B>::Back(t);
        assert(r.val() == FrontBack::<A::V, B::V>::Back(t.val()));
        r
    }
}

/// Runs `front.0` on the first `front.1` elements and `back.0` on the last
/// `back.1` elements of the input.
pub fn bookends<A, B>(front: (A, usize), back: (B, usize)) -> (r: BookEnds<A, B>)
    ensures
        r.front == front.0,
        r.front_size == front.1,
        r.back == back.0,
        r.back_size == back.1,
{
    BookEnds { front: front.0, front_size: front.1, back_size: back.1, back: back.0 }
}

/// The tagged token groups of the front featurizer of `be`, if the input is
/// long enough for it.
pub open spec fn front_groups<I: Sliceable, A: Ftzr<I>, B: Ftzr<I>>(
    be: BookEnds<A, B>,
    input: I::V,
) -> Seq<FrontBack<<A::TokenGroup as Val>::V, <B::TokenGroup as Val>::V>> {
    if be.front_size <= I::spec_len(input) {
        tag_all::<A::TokenGroup, FrontTag<B::TokenGroup>>(
            be.front.spec_groups(I::spec_sub(input, 0, be.front_size as int)),
        )
    } else {
        Seq::empty()
    }
}

/// The tagged token groups of the back featurizer of `be`, if the input is
/// long enough for it.
pub open spec fn back_groups<I: Sliceable, A: Ftzr<I>, B: Ftzr<I>>(
    be: BookEnds<A, B>,
    input: I::V,
) -> Seq<FrontBack<<A::TokenGroup as Val>::V, <B::TokenGroup as Val>::V>> {
    let len = I::spec_len(input);
    if be.back_size <= len {
        tag_all::<B::TokenGroup, BackTag<A::TokenGroup>>(
            be.back.spec_groups(I::spec_sub(input, len - be.back_size, len as int)),
        )
    } else {
        Seq::empty()
    }
}

impl<I: Sliceable, A: Ftzr<I>, B: Ftzr<I>> Ftzr<I> for BookEnds<A, B> {
    type TokenGroup = FrontBack<A::TokenGroup, B::TokenGroup>;

    open spec fn spec_wf(&self) -> bool {
        self.front.spec_wf() && self.back.spec_wf()
    }

    open spec fn spec_groups(&self, input: I::V) -> Seq<<Self::TokenGroup as Val>::V> {
        front_groups::<I, A, B>(*self, input) + back_groups::<I, A, B>(*self, input)
    }

    fn push_tokens<Acc: Accumulates<Self::TokenGroup>>(&self, input: I, state: &mut Acc::State) {
        let ghost m0 = Acc::spec_model(state);
        let len = input.length();
        if self.front_size <= len {
            let p = input.piece(0, self.front_size);
            self.front.push_tokens::<Tagged<FrontTag<B::TokenGroup>, Acc>>(p, state);
            proof {
                lemma_tagged_fold::<A::TokenGroup, FrontTag<B::TokenGroup>, Acc>(
                    m0,
                    self.front.spec_groups(p.val()),
                );
            }
        }
        let ghost m1 = Acc::spec_model(state);
        if self.back_size <= len {
            let q = input.piece(len - self.back_size, len);
            self.back.push_tokens::<Tagged<BackTag<A::TokenGroup>, Acc>>(q, state);
            proof {
                lemma_tagged_fold::<B::TokenGroup, BackTag<A::TokenGroup>, Acc>(
                    m1,
                    self.back.spec_groups(q.val()),
                );
            }
        }
        proof {
            lemma_fold_concat::<Self::TokenGroup, Acc>(
                m0,
                front_groups::<I, A, B>(*self, input.val()),
                back_groups::<I, A, B>(*self, input.val()),
            );
        }
    }
}


impl<A: Val, B: Val, C: FeatureFrom<A> + FeatureFrom<B>> FeatureFrom<FrontBack<A, B>> for Merged<
    C,
> {
    open spec fn spec_from(t: FrontBack<A::V, B::V>) -> Option<C::V> {
        match t {
            FrontBack::Front(a) => <C as FeatureFrom<A>>::spec_from(a),
            FrontBack::Back(b) => <C as FeatureFrom<B>>::spec_from(b),
        }
    }

    fn from(t: FrontBack<A, B>) -> (r: Result<Self, EncodingError>) {
        let c = match t {
            FrontBack::Front(a) => <C as FeatureFrom<A>>::from(a),
            FrontBack::Back(b) => <C as FeatureFrom<B>>::from(b),
        };
        match c {
            Ok(c) => Ok(Merged(c)),
            Err(e) => Err(e),
        }
    }
}

impl<A: Val, B: Val, X: FeatureFrom<A>, Y: FeatureFrom<B>> FeatureFrom<FrontBack<A, B>> for Result<
    X,
    Y,
> {
    open spec fn spec_from(t: FrontBack<A::V, B::V>) -> Option<Result<X::V, Y::V>> {
        match t {
            FrontBack::Front(a) => match X::spec_from(a) {
                Some(x) => Some(Ok(x)),
                None => None,
            },
            FrontBack::Back(b) => match Y::spec_from(b) {
                Some(y) => Some(Err(y)),
                None => None,
            },
        }
    }

    fn from(t: FrontBack<A, B>) -> (r: Result<Self, EncodingError>) {
        match t {
            FrontBack::Front(a) => match X::from(a) {
                Ok(x) => Ok(Ok(x)),
                Err(e) => Err(e),
            },
            FrontBack::Back(b) => match Y::from(b) {
                Ok(y) => Ok(Err(y)),
                Err(e) => Err(e),
            },
        }
    }
}

impl<A: Val, B: Val, X: FeatureFrom<A>, Y: FeatureFrom<B>> FeatureFrom<FrontBack<A, B>> for FrontBack<
    X,
    Y,
> {
    open spec fn spec_from(t: FrontBack<A::V, B::V>) -> Option<FrontBack<X::V, Y::V>> {
        match t {
            FrontBack::Front(a) => match X::spec_from(a) {
                Some(x) => Some(FrontBack::Front(x)),
                None => None,
            },
            FrontBack::Back(b) => match Y::spec_from(b) {
                Some(y) => Some(FrontBack::Back(y)),
                None => None,
            },
        }
    }

    fn from(t: FrontBack<A, B>) -> (r: Result<Self, EncodingError>) {
        match t {
            FrontBack::Front(a) => match X::from(a) {
                Ok(x) => {
                    let r = FrontBack::<X, Y>::Front(x);
                    assert(r.val() == FrontBack::<X::V, Y::V>::Front(x.val()));
                    Ok(r)
                },
                Err(e) => Err(e),
            },
            FrontBack::Back(b) => match Y::from(b) {
                Ok(y) => {
                    let r = FrontBack::<X, Y>::Back(y);
                    assert(r.val() == FrontBack::<X::V, Y::V>::Back(y.val()));
                    Ok(r)
                },
                Err(e) => Err(e),
            },
        }
    }
}

/// The iterator of a pair of bookends: the front featurizer's groups, then
/// the back featurizer's, each tagged with its end. A side whose end does not
/// fit in the input has no iterator. The flag is set while the front may
/// still have groups.
#[derive(Debug, Clone, Copy)]
pub struct BookEndsIter<A, B>(pub bool, pub Option<A>, pub Option<B>);

impl<A: TokenIter, B: TokenIter> TokenIter for BookEndsIter<A, B> {
    type Item = FrontBack<A::Item, B::Item>;

    open spec fn spec_ok(&self) -> bool {
        ok_of(self.1) && ok_of(self.2)
    }

    open spec fn spec_remaining(&self) -> Seq<FrontBack<<A::Item as Val>::V, <B::Item as Val>::V>> {
        let back = tag_all::<B::Item, BackTag<A::Item>>(rem_of(self.2));
        if self.0 {
            tag_all::<A::Item, FrontTag<B::Item>>(rem_of(self.1)) + back
        } else {
            back
        }
    }

    fn next(&mut self) -> (r: Option<FrontBack<A::Item, B::Item>>) {
        let ghost ra = rem_of(self.1);
        let ghost rb = rem_of(self.2);
        if self.0 {
            match next_of(&mut self.1) {
                Some(a) => {
                    proof {
                        assert(tag_all::<A::Item, FrontTag<B::Item>>(ra).drop_first() =~= tag_all::<
                            A::Item,
                            FrontTag<B::Item>,
                        >(rem_of(self.1)));
                        let back = tag_all::<B::Item, BackTag<A::Item>>(rb);
                        assert((tag_all::<A::Item, FrontTag<B::Item>>(ra) + back).drop_first()
                            =~= tag_all::<A::Item, FrontTag<B::Item>>(ra).drop_first() + back);
                    }
                    return Some(<FrontTag<B::Item> as Tagging<A::Item>>::tag(a));
                },
                None => {
                    self.0 = false;
                    assert(tag_all::<A::Item, FrontTag<B::Item>>(ra) =~= Seq::empty());
                    assert(old(self).spec_remaining() =~= tag_all::<B::Item, BackTag<A::Item>>(
                        rb,
                    ));
                },
            }
        }
        match next_of(&mut self.2) {
            Some(b) => {
                assert(tag_all::<B::Item, BackTag<A::Item>>(rb).drop_first() =~= tag_all::<
                    B::Item,
                    BackTag<A::Item>,
                >(rem_of(self.2)));
                Some(<BackTag<A::Item> as Tagging<B::Item>>::tag(b))
            },
            None => None,
        }
    }
}

impl<I: Sliceable, A: IterFtzr<I>, B: IterFtzr<I>> IterFtzr<I> for BookEnds<A, B> {
    type Iter = BookEndsIter<A::Iter, B::Iter>;

    fn iterate_features(&self, input: I) -> (r: BookEndsIter<A::Iter, B::Iter>) {
        let len = input.length();
        let front = if self.front_size <= len {
            Some(self.front.iterate_features(input.piece(0, self.front_size)))
        } else {
            None
        };
        let back = if self.back_size <= len {
            Some(self.back.iterate_features(input.piece(len - self.back_size, len)))
        } else {
            None
        };
        let r = BookEndsIter(true, front, back);
        assert(tag_all::<A::TokenGroup, FrontTag<B::TokenGroup>>(Seq::empty()) =~= Seq::empty());
        assert(tag_all::<B::TokenGroup, BackTag<A::TokenGroup>>(Seq::empty()) =~= Seq::empty());
        r
    }
}

/// On an input of length `L >= f + b`, bookends of sizes `f` and `b` run the
/// front featurizer on the elements `[0, f)` alone and the back featurizer
/// on `[L - b, L)` alone, front groups first; so two inputs of one length that
/// agree on those two ends give the same token groups, whatever lies between.
pub proof fn lemma_bookends_ends<'a, T: 'a, A: Ftzr<&'a [T]>, B: Ftzr<&'a [T]>>(
    be: BookEnds<A, B>,
    s1: Seq<T>,
    s2: Seq<T>,
)
    requires
        be.front_size + be.back_size <= s1.len(),
        s1.len() == s2.len(),
        s1.take(be.front_size as int) == s2.take(be.front_size as int),
        s1.subrange(s1.len() - be.back_size, s1.len() as int) == s2.subrange(
            s2.len() - be.back_size,
            s2.len() as int,
        ),
    ensures
        be.spec_groups(s1) == tag_all::<A::TokenGroup, FrontTag<B::TokenGroup>>(
            be.front.spec_groups(s1.take(be.front_size as int)),
        ) + tag_all::<B::TokenGroup, BackTag<A::TokenGroup>>(
            be.back.spec_groups(s1.subrange(s1.len() - be.back_size, s1.len() as int)),
        ),
        be.spec_groups(s1) == be.spec_groups(s2),
{
    assert(s1.subrange(0, be.front_size as int) == s1.take(be.front_size as int));
    assert(s2.subrange(0, be.front_size as int) == s2.take(be.front_size as int));
}

} // verus!
