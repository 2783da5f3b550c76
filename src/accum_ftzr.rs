use crate::convert::EncodingError;
use crate::feature_from::FeatureFrom;
use crate::val::{vals, Val};
use std::marker::PhantomData;
use vstd::prelude::*;

verus! {

/// The values of the features made from a sequence of token groups, in order;
/// `None` if any one of the conversions fails.
pub open spec fn convert_all<T: Val, F: FeatureFrom<T>>(ts: Seq<T::V>) -> Option<Seq<F::V>>
    decreases ts.len(),
{
    if ts.len() == 0 {
        Some(Seq::empty())
    } else {
        match (convert_all::<T, F>(ts.drop_last()), F::spec_from(ts.last())) {
            (Some(fs), Some(f)) => Some(fs.push(f)),
            _ => None,
        }
    }
}

/// A container that can be built by visiting tokens one at a time: start from
/// a fresh state, fold each token into it, then finish it into the container.
///
/// The state and the container are described by a mathematical model: a fresh
/// state has the model `spec_init()`, and folding a token whose value is `t`
/// turns the model `m` into `spec_step(m, t)`.
pub trait Accumulates<Token: Val>: Sized {
    /// The state while tokens are folded in.
    type State;

    /// The mathematical model of a state and of a finished container.
    type Model;

    spec fn spec_model(state: &Self::State) -> Self::Model;

    spec fn spec_result(out: &Self) -> Self::Model;

    spec fn spec_init() -> Self::Model;

    spec fn spec_step(m: Self::Model, t: Token::V) -> Self::Model;

    /// A fresh state, before any token.
    fn new_state() -> (s: Self::State)
        ensures
            Self::spec_model(&s) == Self::spec_init(),
    ;

    /// Folds one token into the state.
    fn accum_token(state: &mut Self::State, token: Token)
        ensures
            Self::spec_model(final(state)) == Self::spec_step(
                Self::spec_model(old(state)),
                token.val(),
            ),
    ;

    /// Produces the container.
    fn finish(state: Self::State) -> (r: Self)
        ensures
            Self::spec_result(&r) == Self::spec_model(&state),
    ;
}

/// The model reached from `m` by folding the tokens whose values are `ts`.
pub open spec fn fold<T: Val, A: Accumulates<T>>(m: A::Model, ts: Seq<T::V>) -> A::Model
    decreases ts.len(),
{
    if ts.len() == 0 {
        m
    } else {
        A::spec_step(fold::<T, A>(m, ts.drop_last()), ts.last())
    }
}

/// The model of the container that folding `ts` into a fresh state builds.
pub open spec fn collect<T: Val, A: Accumulates<T>>(ts: Seq<T::V>) -> A::Model {
    fold::<T, A>(A::spec_init(), ts)
}

/// Folding one more token is one more step.
pub proof fn lemma_fold_push<T: Val, A: Accumulates<T>>(m: A::Model, ts: Seq<T::V>, t: T::V)
    ensures
        fold::<T, A>(m, ts.push(t)) == A::spec_step(fold::<T, A>(m, ts), t),
{
    assert(ts.push(t).drop_last() =~= ts);
}

/// Folding a concatenation folds one part, then the other.
pub proof fn lemma_fold_concat<T: Val, A: Accumulates<T>>(
    m: A::Model,
    a: Seq<T::V>,
    b: Seq<T::V>,
)
    ensures
        fold::<T, A>(m, a + b) == fold::<T, A>(fold::<T, A>(m, a), b),
    decreases b.len(),
{
    if b.len() == 0 {
        assert(a + b =~= a);
    } else {
        lemma_fold_concat::<T, A>(m, a, b.drop_last());
        assert((a + b).drop_last() =~= a + b.drop_last());
    }
}

impl<Token: Val> Accumulates<Token> for Vec<Token> {
    type State = Vec<Token>;

    type Model = Seq<Token::V>;

    open spec fn spec_model(state: &Vec<Token>) -> Seq<Token::V> {
        vals(state@)
    }

    open spec fn spec_result(out: &Vec<Token>) -> Seq<Token::V> {
        vals(out@)
    }

    open spec fn spec_init() -> Seq<Token::V> {
        Seq::empty()
    }

    open spec fn spec_step(m: Seq<Token::V>, t: Token::V) -> Seq<Token::V> {
        m.push(t)
    }

    fn new_state() -> (s: Vec<Token>) {
        let s = Vec::new();
        assert(vals(s@) =~= Seq::empty());
        s
    }

    fn accum_token(state: &mut Vec<Token>, token: Token) {
        state.push(token);
        assert(vals(state@) =~= vals(old(state)@).push(token.val()));
    }

    fn finish(state: Vec<Token>) -> (r: Vec<Token>) {
        state
    }
}

/// A vector collects exactly the tokens, in order.
pub proof fn lemma_vec_collects<T: Val>(ts: Seq<T::V>)
    ensures
        collect::<T, Vec<T>>(ts) == ts,
    decreases ts.len(),
{
    if ts.len() > 0 {
        lemma_vec_collects::<T>(ts.drop_last());
        assert(ts.drop_last().push(ts.last()) =~= ts);
    } else {
        assert(ts =~= Seq::<T::V>::empty());
    }
}

/// An accumulator that converts each token group into a feature `F` before it
/// folds it into `A`; the first failed conversion is kept as the result.
#[derive(Debug)]
pub struct Converted<F, A>(pub Result<A, EncodingError>, pub PhantomData<F>);

impl<T: Val, F: FeatureFrom<T>, A: Accumulates<F>> Accumulates<T> for Converted<F, A> {
    type State = Result<A::State, EncodingError>;

    type Model = Option<A::Model>;

    open spec fn spec_model(state: &Self::State) -> Option<A::Model> {
        match state {
            Ok(s) => Some(A::spec_model(s)),
            Err(_) => None,
        }
    }

    open spec fn spec_result(out: &Self) -> Option<A::Model> {
        match &out.0 {
            Ok(a) => Some(A::spec_result(a)),
            Err(_) => None,
        }
    }

    open spec fn spec_init() -> Option<A::Model> {
        Some(A::spec_init())
    }

    open spec fn spec_step(m: Option<A::Model>, t: T::V) -> Option<A::Model> {
        match (m, F::spec_from(t)) {
            (Some(a), Some(f)) => Some(A::spec_step(a, f)),
            _ => None,
        }
    }

    fn new_state() -> (s: Self::State) {
        Ok(A::new_state())
    }

    fn accum_token(state: &mut Self::State, token: T) {
        match state {
            Ok(s) => match F::from(token) {
                Ok(f) => A::accum_token(s, f),
                Err(e) => {
                    *state = Err(e);
                },
            },
            Err(_) => {},
        }
    }

    fn finish(state: Self::State) -> (r: Self) {
        match state {
            Ok(s) => Converted(Ok(A::finish(s)), PhantomData),
            Err(e) => Converted(Err(e), PhantomData),
        }
    }
}

/// Folding token groups through conversions succeeds exactly when every
/// conversion does, and then folds the converted features.
pub proof fn lemma_converted_fold<T: Val, F: FeatureFrom<T>, A: Accumulates<F>>(
    m: A::Model,
    ts: Seq<T::V>,
)
    ensures
        fold::<T, Converted<F, A>>(Some(m), ts) == match convert_all::<T, F>(ts) {
            Some(fs) => Some(fold::<F, A>(m, fs)),
            None => None::<A::Model>,
        },
    decreases ts.len(),
{
    if ts.len() > 0 {
        lemma_converted_fold::<T, F, A>(m, ts.drop_last());
        match convert_all::<T, F>(ts.drop_last()) {
            Some(fs) => {
                match F::spec_from(ts.last()) {
                    Some(f) => lemma_fold_push::<F, A>(m, fs, f),
                    None => {},
                }
            },
            None => {},
        }
    }
}

impl<Token: Val + Copy, A: Accumulates<Token>, B: Accumulates<Token>> Accumulates<Token> for (
    A,
    B,
) {
    type State = (A::State, B::State);

    type Model = (A::Model, B::Model);

    open spec fn spec_model(state: &Self::State) -> (A::Model, B::Model) {
        (A::spec_model(&state.0), B::spec_model(&state.1))
    }

    open spec fn spec_result(out: &Self) -> (A::Model, B::Model) {
        (A::spec_result(&out.0), B::spec_result(&out.1))
    }

    open spec fn spec_init() -> (A::Model, B::Model) {
        (A::spec_init(), B::spec_init())
    }

    open spec fn spec_step(m: (A::Model, B::Model), t: Token::V) -> (A::Model, B::Model) {
        (A::spec_step(m.0, t), B::spec_step(m.1, t))
    }

    fn new_state() -> (s: Self::State) {
        let a = A::new_state();
        let b = B::new_state();
        let s = (a, b);
        assert(Self::spec_model(&s) == (A::spec_model(&s.0), B::spec_model(&s.1)));
        assert(Self::spec_init() == (A::spec_init(), B::spec_init()));
        s
    }

    fn accum_token(state: &mut Self::State, token: Token) {
        A::accum_token(&mut state.0, token);
        B::accum_token(&mut state.1, token);
    }

    fn finish(state: Self::State) -> (r: Self) {
        let (a, b) = state;
        (A::finish(a), B::finish(b))
    }
}

/// Folding into a pair of accumulators folds into each one.
pub proof fn lemma_pair_fold<T: Val + Copy, A: Accumulates<T>, B: Accumulates<T>>(
    m: (A::Model, B::Model),
    ts: Seq<T::V>,
)
    ensures
        fold::<T, (A, B)>(m, ts) == (fold::<T, A>(m.0, ts), fold::<T, B>(m.1, ts)),
    decreases ts.len(),
{
    if ts.len() > 0 {
        lemma_pair_fold::<T, A, B>(m, ts.drop_last());
    }
}

/// A featurizer: it visits, in order, each group of tokens that it finds in
/// an input, and folds each one into the state of an accumulator.
///
/// `spec_groups(input)` is the sequence of the values of the token groups
/// that the featurizer finds in an input whose value is `input`.
pub trait Ftzr<Input: Val>: Sized {
    /// The type of one group of tokens.
    type TokenGroup: Val;

    /// The featurizer is well formed: no primitive window is empty, and its
    /// widths fit in a `usize`.
    spec fn spec_wf(&self) -> bool;

    spec fn spec_groups(&self, input: Input::V) -> Seq<<Self::TokenGroup as Val>::V>;

    /// Folds every token group of `input`, in order, into `state`.
    fn push_tokens<Acc: Accumulates<Self::TokenGroup>>(
        &self,
        input: Input,
        state: &mut Acc::State,
    )
        requires
            self.spec_wf(),
        ensures
            Acc::spec_model(final(state)) == fold::<Self::TokenGroup, Acc>(
                Acc::spec_model(old(state)),
                self.spec_groups(input.val()),
            ),
    ;

    /// Like `push_tokens`, but each token group is first converted into the
    /// feature type `F`; the state becomes the first conversion error, if any.
    fn push_tokens_from<F: FeatureFrom<Self::TokenGroup>, A: Accumulates<F>>(
        &self,
        input: Input,
        state: &mut Result<A::State, EncodingError>,
    )
        requires
            self.spec_wf(),
        ensures
            match (*old(state), convert_all::<Self::TokenGroup, F>(self.spec_groups(input.val()))) {
                (Ok(s), Some(fs)) => *final(state) is Ok && A::spec_model(&final(state)->Ok_0)
                    == fold::<F, A>(A::spec_model(&s), fs),
                _ => *final(state) is Err,
            },
    {
        self.push_tokens::<Converted<F, A>>(input, state);
        proof {
            if let Ok(s) = *old(state) {
                lemma_converted_fold::<Self::TokenGroup, F, A>(
                    A::spec_model(&s),
                    self.spec_groups(input.val()),
                );
            } else {
                lemma_fold_none::<Self::TokenGroup, F, A>(self.spec_groups(input.val()));
            }
        }
    }

    /// Converts every token group of `input` into a feature `F` and collects
    /// the features into the container `A`, in one traversal.
    fn featurize<F: FeatureFrom<Self::TokenGroup>, A: Accumulates<F>>(&self, input: Input) -> (r:
        Result<A, EncodingError>)
        requires
            self.spec_wf(),
        ensures
            match convert_all::<Self::TokenGroup, F>(self.spec_groups(input.val())) {
                Some(fs) => r is Ok && A::spec_result(&r->Ok_0) == collect::<F, A>(fs),
                None => r is Err,
            },
    {
        let mut state = Converted::<F, A>::new_state();
        self.push_tokens::<Converted<F, A>>(input, &mut state);
        proof {
            lemma_converted_fold::<Self::TokenGroup, F, A>(
                A::spec_init(),
                self.spec_groups(input.val()),
            );
        }
        let c = Converted::<F, A>::finish(state);
        c.0
    }

    /// Like `featurize`, but builds two containers, each with its own feature
    /// type, in one traversal of the input.
    fn featurize_x2<F1, A1, F2, A2>(&self, input: Input) -> (r: Result<(A1, A2), EncodingError>) where
        Self::TokenGroup: Copy,
        F1: FeatureFrom<Self::TokenGroup>,
        A1: Accumulates<F1>,
        F2: FeatureFrom<Self::TokenGroup>,
        A2: Accumulates<F2>,

        requires
            self.spec_wf(),
        ensures
            match (
                convert_all::<Self::TokenGroup, F1>(self.spec_groups(input.val())),
                convert_all::<Self::TokenGroup, F2>(self.spec_groups(input.val())),
            ) {
                (Some(fs1), Some(fs2)) => r is Ok && A1::spec_result(&r->Ok_0.0) == collect::<
                    F1,
                    A1,
                >(fs1) && A2::spec_result(&r->Ok_0.1) == collect::<F2, A2>(fs2),
                _ => r is Err,
            },
    {
        let mut state = <(Converted<F1, A1>, Converted<F2, A2>)>::new_state();
        self.push_tokens::<(Converted<F1, A1>, Converted<F2, A2>)>(input, &mut state);
        proof {
            let groups = self.spec_groups(input.val());
            lemma_pair_fold::<Self::TokenGroup, Converted<F1, A1>, Converted<F2, A2>>(
                (Some(A1::spec_init()), Some(A2::spec_init())),
                groups,
            );
            lemma_converted_fold::<Self::TokenGroup, F1, A1>(A1::spec_init(), groups);
            lemma_converted_fold::<Self::TokenGroup, F2, A2>(A2::spec_init(), groups);
        }
        let (c1, c2) = <(Converted<F1, A1>, Converted<F2, A2>)>::finish(state);
        match (c1.0, c2.0) {
            (Ok(a1), Ok(a2)) => Ok((a1, a2)),
            (Err(e), _) => Err(e),
            (_, Err(e)) => Err(e),
        }
    }
    /// Like `featurize`, but builds three containers, each with its own
    /// feature type, in one traversal of the input.
    fn featurize_x3<F1, A1, F2, A2, F3, A3>(&self, input: Input) -> (r: Result<
        (A1, A2, A3),
        EncodingError,
    >) where
        Self::TokenGroup: Copy,
        F1: FeatureFrom<Self::TokenGroup>,
        A1: Accumulates<F1>,
        F2: FeatureFrom<Self::TokenGroup>,
        A2: Accumulates<F2>,
        F3: FeatureFrom<Self::TokenGroup>,
        A3: Accumulates<F3>,

        requires
            self.spec_wf(),
        ensures
            match (
                convert_all::<Self::TokenGroup, F1>(self.spec_groups(input.val())),
                convert_all::<Self::TokenGroup, F2>(self.spec_groups(input.val())),
                convert_all::<Self::TokenGroup, F3>(self.spec_groups(input.val())),
            ) {
                (Some(fs1), Some(fs2), Some(fs3)) => r is Ok && A1::spec_result(&r->Ok_0.0)
                    == collect::<F1, A1>(fs1) && A2::spec_result(&r->Ok_0.1) == collect::<F2, A2>(
                    fs2,
                ) && A3::spec_result(&r->Ok_0.2) == collect::<F3, A3>(fs3),
                _ => r is Err,
            },
    {
        let mut state = <(Converted<F1, A1>, (Converted<F2, A2>, Converted<F3, A3>))>::new_state();
        self.push_tokens::<(Converted<F1, A1>, (Converted<F2, A2>, Converted<F3, A3>))>(
            input,
            &mut state,
        );
        proof {
            let groups = self.spec_groups(input.val());
            lemma_pair_fold::<
                Self::TokenGroup,
                Converted<F1, A1>,
                (Converted<F2, A2>, Converted<F3, A3>),
            >((Some(A1::spec_init()), (Some(A2::spec_init()), Some(A3::spec_init()))), groups);
            lemma_pair_fold::<Self::TokenGroup, Converted<F2, A2>, Converted<F3, A3>>(
                (Some(A2::spec_init()), Some(A3::spec_init())),
                groups,
            );
            lemma_converted_fold::<Self::TokenGroup, F1, A1>(A1::spec_init(), groups);
            lemma_converted_fold::<Self::TokenGroup, F2, A2>(A2::spec_init(), groups);
            lemma_converted_fold::<Self::TokenGroup, F3, A3>(A3::spec_init(), groups);
        }
        let (c1, (c2, c3)) = <(
            Converted<F1, A1>,
            (Converted<F2, A2>, Converted<F3, A3>),
        )>::finish(state);
        match (c1.0, c2.0, c3.0) {
            (Ok(a1), Ok(a2), Ok(a3)) => Ok((a1, a2, a3)),
            (Err(e), _, _) => Err(e),
            (_, Err(e), _) => Err(e),
            (_, _, Err(e)) => Err(e),
        }
    }
}

/// Once a conversion has failed, folding more token groups keeps the failure.
pub proof fn lemma_fold_none<T: Val, F: FeatureFrom<T>, A: Accumulates<F>>(ts: Seq<T::V>)
    ensures
        fold::<T, Converted<F, A>>(None, ts) == None::<A::Model>,
    decreases ts.len(),
{
    if ts.len() > 0 {
        lemma_fold_none::<T, F, A>(ts.drop_last());
    }
}

/// A source of token groups, handed out one at a time on demand.
///
/// `spec_remaining()` is the sequence of the values of the groups that are
/// still to come; `spec_ok()` is the iterator's own invariant.
pub trait TokenIter: Sized {
    type Item: Val;

    spec fn spec_ok(&self) -> bool;

    spec fn spec_remaining(&self) -> Seq<<Self::Item as Val>::V>;

    /// The next token group, if any is left.
    fn next(&mut self) -> (r: Option<Self::Item>)
        requires
            old(self).spec_ok(),
        ensures
            final(self).spec_ok(),
            match r {
                Some(t) => old(self).spec_remaining().len() > 0 && t.val() == old(
                    self,
                ).spec_remaining()[0] && final(self).spec_remaining() == old(
                    self,
                ).spec_remaining().drop_first(),
                None => old(self).spec_remaining().len() == 0 && final(self).spec_remaining().len()
                    == 0,
            },
    ;
}

/// The groups still to come from an iterator that may be absent.
pub open spec fn rem_of<It: TokenIter>(o: Option<It>) -> Seq<<It::Item as Val>::V> {
    match o {
        Some(it) => it.spec_remaining(),
        None => Seq::empty(),
    }
}

/// An iterator that may be absent is well formed.
pub open spec fn ok_of<It: TokenIter>(o: Option<It>) -> bool {
    match o {
        Some(it) => it.spec_ok(),
        None => true,
    }
}

/// The next token group of an iterator that may be absent.
pub fn next_of<It: TokenIter>(o: &mut Option<It>) -> (r: Option<It::Item>)
    requires
        ok_of(*old(o)),
    ensures
        ok_of(*final(o)),
        match r {
            Some(t) => rem_of(*old(o)).len() > 0 && t.val() == rem_of(*old(o))[0] && rem_of(
                *final(o),
            ) == rem_of(*old(o)).drop_first(),
            None => rem_of(*old(o)).len() == 0 && rem_of(*final(o)).len() == 0,
        },
{
    match o {
        Some(it) => it.next(),
        None => None,
    }
}

/// A featurizer that can also hand out its token groups one at a time: the
/// iterator yields exactly the groups that `push_tokens` visits, in the same
/// order.
pub trait IterFtzr<Input: Val>: Ftzr<Input> {
    /// The iterator over the token groups of one input.
    type Iter: TokenIter<Item = Self::TokenGroup>;

    fn iterate_features(&self, input: Input) -> (r: Self::Iter)
        requires
            self.spec_wf(),
        ensures
            r.spec_ok(),
            r.spec_remaining() == self.spec_groups(input.val()),
    ;
}

/// A featurizer that reads its input left to right with windows of one fixed
/// total width (the `n` of an n-gram, or the whole stretch of a gapped pair).
pub trait LinearFixed {
    spec fn spec_chunk_size(&self) -> nat;

    /// The width of the window.
    fn chunk_size(&self) -> (r: usize)
        requires
            self.spec_chunk_size() <= usize::MAX,
        ensures
            r as nat == self.spec_chunk_size(),
    ;
}

/// A way of wrapping a token into a tagged token (the side of a union, the
/// end of a pair of bookends).
pub trait Tagging<T: Val> {
    type Out: Val;

    spec fn spec_tag(t: T::V) -> <Self::Out as Val>::V;

    fn tag(t: T) -> (r: Self::Out)
        ensures
            r.val() == Self::spec_tag(t.val()),
    ;
}

/// The tagged values of a sequence of token values.
pub open spec fn tag_all<T: Val, G: Tagging<T>>(ts: Seq<T::V>) -> Seq<<G::Out as Val>::V> {
    ts.map_values(|t: T::V| G::spec_tag(t))
}

/// An accumulator that tags each token with `G` before it folds it into `A`.
#[derive(Debug)]
pub struct Tagged<G, A>(pub A, pub PhantomData<G>);

impl<T: Val, G: Tagging<T>, A: Accumulates<G::Out>> Accumulates<T> for Tagged<G, A> {
    type State = A::State;

    type Model = A::Model;

    open spec fn spec_model(state: &A::State) -> A::Model {
        A::spec_model(state)
    }

    open spec fn spec_result(out: &Self) -> A::Model {
        A::spec_result(&out.0)
    }

    open spec fn spec_init() -> A::Model {
        A::spec_init()
    }

    open spec fn spec_step(m: A::Model, t: T::V) -> A::Model {
        A::spec_step(m, G::spec_tag(t))
    }

    fn new_state() -> (s: A::State) {
        A::new_state()
    }

    fn accum_token(state: &mut A::State, token: T) {
        A::accum_token(state, G::tag(token));
    }

    fn finish(state: A::State) -> (r: Self) {
        Tagged(A::finish(state), PhantomData)
    }
}

/// Folding through a tagging accumulator folds the tagged tokens.
pub proof fn lemma_tagged_fold<T: Val, G: Tagging<T>, A: Accumulates<G::Out>>(
    m: A::Model,
    ts: Seq<T::V>,
)
    ensures
        fold::<T, Tagged<G, A>>(m, ts) == fold::<G::Out, A>(m, tag_all::<T, G>(ts)),
    decreases ts.len(),
{
    if ts.len() > 0 {
        lemma_tagged_fold::<T, G, A>(m, ts.drop_last());
        assert(tag_all::<T, G>(ts).drop_last() =~= tag_all::<T, G>(ts.drop_last()));
    }
}

} // verus!
