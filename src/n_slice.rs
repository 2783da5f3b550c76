use crate::accum_ftzr::{
    fold, lemma_fold_push, Accumulates, Ftzr, IterFtzr, LinearFixed, TokenIter,
};
use crate::val::Val;
use vstd::utf8::encode_utf8;
use vstd::prelude::*;

verus! {

/// The number of windows of width `n` in a sequence of length `len`.
pub open spec fn window_count(len: nat, n: nat) -> nat {
    if len >= n {
        (len - n + 1) as nat
    } else {
        0
    }
}

/// The windows of width `n` of `s`, from left to right, one step apart.
pub open spec fn windows<T>(s: Seq<T>, n: nat) -> Seq<Seq<T>> {
    Seq::new(window_count(s.len(), n), |i: int| s.subrange(i, i + n))
}

/// A fixed-width n-gram over borrowed data: each token group is a sub-slice
/// of the input. Created with `n_slice(n)`.
#[derive(Debug, Clone, Copy, PartialEq, Eq, Structural)]
pub struct SliceGram {
    /// The width of a window.
    pub n: usize,
}

/// N-grams of width `n` as sub-slices of the input.
pub fn n_slice(n: usize) -> (r: SliceGram)
    ensures
        r.n == n,
{
    SliceGram { n }
}

/// Bigrams as sub-slices of the input.
pub fn bislice() -> (r: SliceGram)
    ensures
        r.n == 2,
{
    SliceGram { n: 2 }
}

/// Trigrams as sub-slices of the input.
pub fn trislice() -> (r: SliceGram)
    ensures
        r.n == 3,
{
    SliceGram { n: 3 }
}

impl LinearFixed for SliceGram {
    open spec fn spec_chunk_size(&self) -> nat {
        self.n as nat
    }

    fn chunk_size(&self) -> (r: usize) {
        self.n
    }
}

impl<'a, T> Ftzr<&'a [T]> for SliceGram {
    type TokenGroup = &'a [T];

    open spec fn spec_wf(&self) -> bool {
        self.n > 0
    }

    open spec fn spec_groups(&self, input: Seq<T>) -> Seq<Seq<T>> {
        windows(input, self.n as nat)
    }

    fn push_tokens<Acc: Accumulates<&'a [T]>>(&self, input: &'a [T], state: &mut Acc::State) {
        let ghost m0 = Acc::spec_model(state);
        let ghost w = windows(input.val(), self.n as nat);
        let len = input.len();
        if len < self.n {
            assert(w =~= Seq::<Seq<T>>::empty());
            return;
        }
        let last = len - self.n;
        let mut i: usize = 0;
        while i <= last
            invariant
                self.n > 0,
                last == len - self.n,
                len == input@.len(),
                w == windows(input.val(), self.n as nat),
                w.len() == last + 1,
                i <= last + 1,
                Acc::spec_model(state) == fold::<&'a [T], Acc>(m0, w.take(i as int)),
            decreases last + 1 - i,
        {
            let g: &'a [T] = vstd::slice::slice_subrange(input, i, i + self.n);
            Acc::accum_token(state, g);
            proof {
                lemma_fold_push::<&'a [T], Acc>(m0, w.take(i as int), g.val());
                assert(w.take(i as int).push(g.val()) =~= w.take(i + 1));
            }
            i = i + 1;
        }
        assert(w.take(i as int) =~= w);
    }
}

impl<'a> Ftzr<&'a str> for SliceGram {
    type TokenGroup = &'a [u8];

    open spec fn spec_wf(&self) -> bool {
        self.n > 0
    }

    /// A text is featurized as the sequence of its bytes.
    open spec fn spec_groups(&self, input: Seq<char>) -> Seq<Seq<u8>> {
        windows(encode_utf8(input), self.n as nat)
    }

    fn push_tokens<Acc: Accumulates<&'a [u8]>>(&self, input: &'a str, state: &mut Acc::State) {
        let bytes = input.as_bytes();
        <SliceGram as Ftzr<&'a [u8]>>::push_tokens::<Acc>(self, bytes, state);
    }
}

/// The iterator over the windows of a `SliceGram`.
#[derive(Debug, Clone, Copy)]
pub struct SliceGramIter<Origin> {
    /// The width of a window.
    pub n: usize,
    /// The start of the next window.
    pub idx: usize,
    /// The input.
    pub data: Origin,
}

impl<'a, T> TokenIter for SliceGramIter<&'a [T]> {
    type Item = &'a [T];

    open spec fn spec_ok(&self) -> bool {
        &&& self.n > 0
        &&& self.idx <= window_count(self.data@.len(), self.n as nat)
    }

    open spec fn spec_remaining(&self) -> Seq<Seq<T>> {
        windows(self.data@, self.n as nat).skip(self.idx as int)
    }

    fn next(&mut self) -> (r: Option<&'a [T]>) {
        let len = self.data.len();
        if self.idx < len && self.n <= len - self.idx {
            let jdx = self.idx + self.n;
            let g = vstd::slice::slice_subrange(self.data, self.idx, jdx);
            self.idx = self.idx + 1;
            proof {
                assert(old(self).spec_remaining().drop_first() =~= self.spec_remaining());
            }
            Some(g)
        } else {
            None
        }
    }
}

impl<'a, T> IterFtzr<&'a [T]> for SliceGram {
    type Iter = SliceGramIter<&'a [T]>;

    fn iterate_features(&self, input: &'a [T]) -> (r: SliceGramIter<&'a [T]>) {
        let r = SliceGramIter { n: self.n, idx: 0, data: input };
        assert(r.spec_remaining() =~= windows(input@, self.n as nat));
        r
    }
}

/// A window of width `n` over an input of length `len` at least `n` gives
/// exactly `len - n + 1` token groups, the `i`-th one being the elements
/// `[i, i + n)`, so that their starting offsets increase one by one; a
/// shorter input gives none.
pub proof fn lemma_windows<T>(s: Seq<T>, n: nat)
    requires
        n >= 1,
    ensures
        n <= s.len() ==> windows(s, n).len() == s.len() - n + 1,
        s.len() < n ==> windows(s, n).len() == 0,
        forall|i: int|
            0 <= i < windows(s, n).len() ==> #[trigger] windows(s, n)[i] == s.subrange(i, i + n),
{
}

/// The n-slice featurizer of width `n >= 1` over an input of length `L >= n`
/// gives exactly `L - n + 1` sub-slices, in the order of their starting
/// offsets `0, 1, 2, ...`; over a shorter input it gives none.
pub proof fn lemma_n_slice_groups<'a, T>(f: SliceGram, input: Seq<T>)
    requires
        <SliceGram as Ftzr<&'a [T]>>::spec_wf(&f),
    ensures
        f.n <= input.len() ==> <SliceGram as Ftzr<&'a [T]>>::spec_groups(&f, input).len()
            == input.len() - f.n + 1,
        input.len() < f.n ==> <SliceGram as Ftzr<&'a [T]>>::spec_groups(&f, input).len() == 0,
        forall|i: int|
            0 <= i < <SliceGram as Ftzr<&'a [T]>>::spec_groups(&f, input).len() ==> #[trigger]
            <SliceGram as Ftzr<&'a [T]>>::spec_groups(&f, input)[i] == input.subrange(i, i + f.n),
{
    lemma_windows(input, f.n as nat);
}

} // verus!
