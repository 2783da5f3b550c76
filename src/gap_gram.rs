use crate::accum_ftzr::{
    fold, lemma_fold_push, lemma_vec_collects, Accumulates, Ftzr, IterFtzr, LinearFixed,
    TokenIter,
};
use crate::convert::EncodingError;
use crate::feature_from::FeatureFrom;
use crate::n_slice::{lemma_windows, window_count, SliceGram};
use crate::val::{vals, Sliceable, Val};
use vstd::prelude::*;

verus! {

/// Two featurizers separated by a gap: at each offset `x`, the first one's
/// window `[x, x + wa)` is paired with the second one's window that starts
/// `gap` elements after it. Created with `gap_gram(a, gap, b)`.
#[derive(Debug, Clone, Copy)]
pub struct GapGram<A, B> {
    /// The featurizer of the left window.
    pub a: A,
    /// The number of elements skipped between the two windows.
    pub gap: usize,
    /// The featurizer of the right window.
    pub b: B,
}

/// The token group of a gapped pair: the two groups, and the gap between them.
#[derive(Debug, Clone, Copy, PartialEq, Eq, Hash)]
pub struct GapPair<A, B>(pub A, pub B, pub u16);

impl<A: Val, B: Val> Val for GapPair<A, B> {
    type V = (A::V, B::V, u16);

    open spec fn val(&self) -> (A::V, B::V, u16) {
        (self.0.val(), self.1.val(), self.2)
    }
}

/// Pairs `a` and `b` with `gap` elements between their windows.
pub fn gap_gram<A, B>(a: A, gap: usize, b: B) -> (r: GapGram<A, B>)
    ensures
        r.a == a,
        r.gap == gap,
        r.b == b,
{
    GapGram { a, gap, b }
}

impl<A: LinearFixed, B: LinearFixed> LinearFixed for GapGram<A, B> {
    open spec fn spec_chunk_size(&self) -> nat {
        self.a.spec_chunk_size() + self.gap as nat + self.b.spec_chunk_size()
    }

    fn chunk_size(&self) -> (r: usize) {
        self.a.chunk_size() + self.gap + self.b.chunk_size()
    }
}

/// The pair found at offset `x`: the first group of each side's window, if
/// both sides find one there.
pub open spec fn gap_pair_at<I: Sliceable, A: Ftzr<I> + LinearFixed, B: Ftzr<I> + LinearFixed>(
    g: GapGram<A, B>,
    input: I::V,
    x: int,
) -> Seq<(<A::TokenGroup as Val>::V, <B::TokenGroup as Val>::V, u16)> {
    let wa = g.a.spec_chunk_size() as int;
    let wb = g.b.spec_chunk_size() as int;
    let ga = g.a.spec_groups(I::spec_sub(input, x, x + wa));
    let gb = g.b.spec_groups(I::spec_sub(input, x + wa + g.gap, x + wa + g.gap + wb));
    if ga.len() > 0 && gb.len() > 0 {
        seq![(ga[0], gb[0], g.gap as u16)]
    } else {
        Seq::empty()
    }
}

/// The pairs found at the offsets below `k`, in order.
pub open spec fn gap_pairs_upto<
    I: Sliceable,
    A: Ftzr<I> + LinearFixed,
    B: Ftzr<I> + LinearFixed,
>(g: GapGram<A, B>, input: I::V, k: nat) -> Seq<
    (<A::TokenGroup as Val>::V, <B::TokenGroup as Val>::V, u16),
>
    decreases k,
{
    if k == 0 {
        Seq::empty()
    } else {
        gap_pairs_upto::<I, A, B>(g, input, (k - 1) as nat) + gap_pair_at::<I, A, B>(
            g,
            input,
            k - 1,
        )
    }
}

/// Runs `f` alone on `input`, collecting its token groups.
fn groups_of<I: Sliceable, F: Ftzr<I>>(f: &F, input: I) -> (r: Vec<F::TokenGroup>)
    requires
        f.spec_wf(),
    ensures
        vals(r@) == f.spec_groups(input.val()),
{
    let mut v: Vec<F::TokenGroup> = Vec::new();
    proof {
        assert(vals(v@) =~= Seq::<<F::TokenGroup as Val>::V>::empty());
    }
    f.push_tokens::<Vec<F::TokenGroup>>(input, &mut v);
    proof {
        lemma_vec_collects::<F::TokenGroup>(f.spec_groups(input.val()));
    }
    v
}

impl<A, B> GapGram<A, B> {
    /// The pair found at offset `x` of `input`, if both sides find a group in
    /// their windows there.
    pub fn pair_at<I: Sliceable>(&self, input: I, x: usize) -> (r: Option<
        GapPair<A::TokenGroup, B::TokenGroup>,
    >) where A: Ftzr<I> + LinearFixed, B: Ftzr<I> + LinearFixed
        requires
            self.spec_wf(),
            x + self.spec_chunk_size() <= I::spec_len(input.val()),
        ensures
            match r {
                Some(p) => gap_pair_at::<I, A, B>(*self, input.val(), x as int) == seq![p.val()],
                None => gap_pair_at::<I, A, B>(*self, input.val(), x as int) == Seq::<
                    (<A::TokenGroup as Val>::V, <B::TokenGroup as Val>::V, u16),
                >::empty(),
            },
    {
        let _len = input.length();
        let wa = self.a.chunk_size();
        let wb = self.b.chunk_size();
        let sa = input.piece(x, x + wa);
        let sb = input.piece(x + wa + self.gap, x + wa + self.gap + wb);
        let mut va = groups_of(&self.a, sa);
        let mut vb = groups_of(&self.b, sb);
        if va.len() > 0 && vb.len() > 0 {
            let ta = va.remove(0);
            let tb = vb.remove(0);
            let pair = GapPair(ta, tb, #[verifier::truncate] (self.gap as u16));
            assert(gap_pair_at::<I, A, B>(*self, input.val(), x as int) =~= seq![pair.val()]);
            Some(pair)
        } else {
            assert(gap_pair_at::<I, A, B>(*self, input.val(), x as int) =~= Seq::<
                (<A::TokenGroup as Val>::V, <B::TokenGroup as Val>::V, u16),
            >::empty());
            None
        }
    }
}

impl<I: Sliceable, A: Ftzr<I> + LinearFixed, B: Ftzr<I> + LinearFixed> Ftzr<I> for GapGram<
    A,
    B,
> {
    type TokenGroup = GapPair<A::TokenGroup, B::TokenGroup>;

    open spec fn spec_wf(&self) -> bool {
        &&& self.a.spec_wf()
        &&& self.b.spec_wf()
        &&& 0 < self.spec_chunk_size() <= usize::MAX
    }

    open spec fn spec_groups(&self, input: I::V) -> Seq<<Self::TokenGroup as Val>::V> {
        gap_pairs_upto::<I, A, B>(
            *self,
            input,
            window_count(I::spec_len(input), self.spec_chunk_size()),
        )
    }

    fn push_tokens<Acc: Accumulates<Self::TokenGroup>>(&self, input: I, state: &mut Acc::State) {
        let ghost m0 = Acc::spec_model(state);
        let len = input.length();
        let wa = self.a.chunk_size();
        let wb = self.b.chunk_size();
        let total = wa + self.gap + wb;
        if len < total {
            return;
        }
        let last = len - total;
        let mut x: usize = 0;
        while x <= last
            invariant
                self.spec_wf(),
                wa == self.a.spec_chunk_size(),
                wb == self.b.spec_chunk_size(),
                total == wa + self.gap + wb,
                len == I::spec_len(input.val()),
                last == len - total,
                total > 0,
                x <= last + 1,
                Acc::spec_model(state) == fold::<Self::TokenGroup, Acc>(
                    m0,
                    gap_pairs_upto::<I, A, B>(*self, input.val(), x as nat),
                ),
            decreases last + 1 - x,
        {
            match self.pair_at(input, x) {
                Some(pair) => {
                    Acc::accum_token(state, pair);
                    proof {
                        lemma_fold_push::<Self::TokenGroup, Acc>(
                            m0,
                            gap_pairs_upto::<I, A, B>(*self, input.val(), x as nat),
                            pair.val(),
                        );
                        assert(gap_pairs_upto::<I, A, B>(*self, input.val(), x as nat).push(
                            pair.val(),
                        ) =~= gap_pairs_upto::<I, A, B>(*self, input.val(), (x + 1) as nat));
                    }
                },
                None => {
                    assert(gap_pairs_upto::<I, A, B>(*self, input.val(), x as nat)
                        =~= gap_pairs_upto::<I, A, B>(*self, input.val(), (x + 1) as nat));
                },
            }
            x = x + 1;
        }
    }
}

impl<A1: Val, B1: Val, A2: FeatureFrom<A1>, B2: FeatureFrom<B1>> FeatureFrom<GapPair<A1, B1>> for (
    A2,
    B2,
) {
    open spec fn spec_from(t: (A1::V, B1::V, u16)) -> Option<(A2::V, B2::V)> {
        match (A2::spec_from(t.0), B2::spec_from(t.1)) {
            (Some(a), Some(b)) => Some((a, b)),
            _ => None,
        }
    }

    fn from(t: GapPair<A1, B1>) -> (r: Result<Self, EncodingError>) {
        let GapPair(x, y, _) = t;
        match A2::from(x) {
            Ok(a) => match B2::from(y) {
                Ok(b) => Ok((a, b)),
                Err(e) => Err(e),
            },
            Err(e) => Err(e),
        }
    }
}

/// The pairs found at the offsets in `[x, k)`, in order.
pub open spec fn gap_pairs_between<
    I: Sliceable,
    A: Ftzr<I> + LinearFixed,
    B: Ftzr<I> + LinearFixed,
>(g: GapGram<A, B>, input: I::V, x: int, k: int) -> Seq<
    (<A::TokenGroup as Val>::V, <B::TokenGroup as Val>::V, u16),
>
    decreases k - x,
{
    if x >= k {
        Seq::empty()
    } else {
        gap_pair_at::<I, A, B>(g, input, x) + gap_pairs_between::<I, A, B>(g, input, x + 1, k)
    }
}

proof fn lemma_between_extend<I: Sliceable, A: Ftzr<I> + LinearFixed, B: Ftzr<I> + LinearFixed>(
    g: GapGram<A, B>,
    input: I::V,
    x: int,
    k: int,
)
    requires
        x <= k,
    ensures
        gap_pairs_between::<I, A, B>(g, input, x, k + 1) == gap_pairs_between::<I, A, B>(
            g,
            input,
            x,
            k,
        ) + gap_pair_at::<I, A, B>(g, input, k),
    decreases k - x,
{
    if x < k {
        lemma_between_extend::<I, A, B>(g, input, x + 1, k);
        assert(gap_pair_at::<I, A, B>(g, input, x) + (gap_pairs_between::<I, A, B>(
            g,
            input,
            x + 1,
            k,
        ) + gap_pair_at::<I, A, B>(g, input, k)) =~= (gap_pair_at::<I, A, B>(g, input, x)
            + gap_pairs_between::<I, A, B>(g, input, x + 1, k)) + gap_pair_at::<I, A, B>(
            g,
            input,
            k,
        ));
    } else {
        assert(gap_pairs_between::<I, A, B>(g, input, k + 1, k + 1) =~= Seq::empty());
        assert(gap_pair_at::<I, A, B>(g, input, k) + Seq::empty() =~= Seq::empty()
            + gap_pair_at::<I, A, B>(g, input, k));
    }
}

proof fn lemma_upto_between<I: Sliceable, A: Ftzr<I> + LinearFixed, B: Ftzr<I> + LinearFixed>(
    g: GapGram<A, B>,
    input: I::V,
    k: nat,
)
    ensures
        gap_pairs_upto::<I, A, B>(g, input, k) == gap_pairs_between::<I, A, B>(g, input, 0, k as int),
    decreases k,
{
    if k > 0 {
        lemma_upto_between::<I, A, B>(g, input, (k - 1) as nat);
        lemma_between_extend::<I, A, B>(g, input, 0, k - 1);
    }
}

/// The iterator of a gapped pairing: it moves over the offsets and yields
/// the pair found at each one.
#[derive(Debug, Clone, Copy)]
pub struct GapGramIter<A, B, T> {
    /// The featurizer.
    pub ftzr: GapGram<A, B>,
    /// The input.
    pub data: T,
    /// The next offset.
    pub idx: usize,
    /// The number of offsets at which the whole stretch fits.
    pub count: usize,
}

impl<A: Copy, B: Copy, I: Sliceable> GapGramIter<A, B, I> {
    /// The iterator over the pairs of `gap_gram(af, gap, bf)` in `origin`.
    pub fn new(origin: I, af: &A, gap: usize, bf: &B) -> (r: Self) where
        A: Ftzr<I> + LinearFixed,
        B: Ftzr<I> + LinearFixed,

        requires
            (GapGram { a: *af, gap, b: *bf }).spec_wf(),
        ensures
            r.spec_ok(),
            r.ftzr == (GapGram { a: *af, gap, b: *bf }),
            r.spec_remaining() == r.ftzr.spec_groups(origin.val()),
    {
        let ftzr = GapGram { a: *af, gap, b: *bf };
        let len = origin.length();
        let total = ftzr.chunk_size();
        let count = if len >= total {
            len - total + 1
        } else {
            0
        };
        proof {
            lemma_upto_between::<I, A, B>(ftzr, origin.val(), count as nat);
        }
        GapGramIter { ftzr, data: origin, idx: 0, count }
    }
}

impl<I: Sliceable, A: Ftzr<I> + LinearFixed, B: Ftzr<I> + LinearFixed> TokenIter for GapGramIter<
    A,
    B,
    I,
> {
    type Item = GapPair<A::TokenGroup, B::TokenGroup>;

    open spec fn spec_ok(&self) -> bool {
        &&& self.ftzr.spec_wf()
        &&& self.count == window_count(I::spec_len(self.data.val()), self.ftzr.spec_chunk_size())
        &&& self.idx <= self.count
    }

    open spec fn spec_remaining(&self) -> Seq<
        (<A::TokenGroup as Val>::V, <B::TokenGroup as Val>::V, u16),
    > {
        gap_pairs_between::<I, A, B>(self.ftzr, self.data.val(), self.idx as int, self.count as int)
    }

    fn next(&mut self) -> (r: Option<GapPair<A::TokenGroup, B::TokenGroup>>) {
        while self.idx < self.count
            invariant
                self.spec_ok(),
                self.ftzr == old(self).ftzr,
                self.data == old(self).data,
                self.count == old(self).count,
                old(self).spec_remaining() == self.spec_remaining(),
            decreases self.count - self.idx,
        {
            let x = self.idx;
            let found = self.ftzr.pair_at(self.data, x);
            self.idx = x + 1;
            match found {
                Some(p) => {
                    assert(seq![p.val()] + self.spec_remaining() == old(self).spec_remaining());
                    assert((seq![p.val()] + self.spec_remaining()).drop_first() =~= self.spec_remaining());
                    return Some(p);
                },
                None => {
                    assert(Seq::empty() + self.spec_remaining() =~= self.spec_remaining());
                },
            }
        }
        None
    }
}

impl<I: Sliceable, A: Ftzr<I> + LinearFixed + Copy, B: Ftzr<I> + LinearFixed + Copy> IterFtzr<
    I,
> for GapGram<A, B> {
    type Iter = GapGramIter<A, B, I>;

    fn iterate_features(&self, input: I) -> (r: GapGramIter<A, B, I>) {
        GapGramIter::new(input, &self.a, self.gap, &self.b)
    }
}

/// The pair of slice windows found at offset `x` with widths `wa`, `wb` and
/// `gap` elements between them.
pub open spec fn slice_pair<T>(s: Seq<T>, wa: nat, gap: nat, wb: nat, x: int) -> (
    Seq<T>,
    Seq<T>,
    u16,
) {
    (s.subrange(x, x + wa), s.subrange(x + wa + gap, x + wa + gap + wb), gap as u16)
}

proof fn lemma_slice_pairs_upto<T>(g: GapGram<SliceGram, SliceGram>, s: Seq<T>, k: nat)
    requires
        g.a.n > 0,
        g.b.n > 0,
        k <= window_count(s.len(), g.spec_chunk_size()),
    ensures
        gap_pairs_upto::<&[T], SliceGram, SliceGram>(g, s, k).len() == k,
        forall|x: int|
            0 <= x < k ==> #[trigger] gap_pairs_upto::<&[T], SliceGram, SliceGram>(g, s, k)[x]
                == slice_pair(s, g.a.n as nat, g.gap as nat, g.b.n as nat, x),
    decreases k,
{
    if k > 0 {
        lemma_slice_pairs_upto::<T>(g, s, (k - 1) as nat);
        let x = k - 1;
        let wa = g.a.n as int;
        let wb = g.b.n as int;
        let sa = s.subrange(x, x + wa);
        let sb = s.subrange(x + wa + g.gap, x + wa + g.gap + wb);
        lemma_windows(sa, wa as nat);
        lemma_windows(sb, wb as nat);
        assert(sa.subrange(0, wa) =~= sa);
        assert(sb.subrange(0, wb) =~= sb);
        assert(gap_pair_at::<&[T], SliceGram, SliceGram>(g, s, x) =~= seq![
            slice_pair(s, g.a.n as nat, g.gap as nat, g.b.n as nat, x),
        ]);
    }
}

/// A gapped pair of slice windows of widths `wa` and `wb` with `gap`
/// elements between them, over an input of length `L`, gives one pair per
/// offset `x` with `x + wa + gap + wb <= L`, in order; the pair at `x` is made
/// of the elements `[x, x + wa)` and `[x + wa + gap, x + wa + gap + wb)`. With
/// a gap of 0 and `wa + wb <= L` that is `L - (wa + wb) + 1` pairs.
pub proof fn lemma_gap_gram_slices<'a, T>(g: GapGram<SliceGram, SliceGram>, input: Seq<T>)
    requires
        <GapGram<SliceGram, SliceGram> as Ftzr<&'a [T]>>::spec_wf(&g),
    ensures
        <GapGram<SliceGram, SliceGram> as Ftzr<&'a [T]>>::spec_groups(&g, input).len()
            == window_count(input.len(), (g.a.n + g.gap + g.b.n) as nat),
        forall|x: int|
            0 <= x < <GapGram<SliceGram, SliceGram> as Ftzr<&'a [T]>>::spec_groups(
                &g,
                input,
            ).len() ==> #[trigger] <GapGram<SliceGram, SliceGram> as Ftzr<&'a [T]>>::spec_groups(
                &g,
                input,
            )[x] == slice_pair(input, g.a.n as nat, g.gap as nat, g.b.n as nat, x),
        g.gap == 0 && g.a.n + g.b.n <= input.len() ==> <GapGram<SliceGram, SliceGram> as Ftzr<
            &'a [T],
        >>::spec_groups(&g, input).len() == input.len() - (g.a.n + g.b.n) + 1,
{
    lemma_slice_pairs_upto::<T>(
        g,
        input,
        window_count(input.len(), g.spec_chunk_size()),
    );
}

} // verus!
