use crate::accum_ftzr::{
    fold, lemma_fold_push, Accumulates, Ftzr, IterFtzr, LinearFixed, TokenIter,
};
use crate::n_slice::{lemma_windows, window_count, windows};
use crate::val::Val;
use vstd::utf8::encode_utf8;
use vstd::prelude::*;

verus! {

/// A fixed-width n-gram over copied data: each token group is an array of the
/// `N` elements of a window. Created with `n_gram::<N>()`.
#[derive(Debug, Clone, Copy)]
pub struct NGram<const N: usize>();

/// N-grams of width `N`, copied into arrays.
pub fn n_gram<const N: usize>() -> (r: NGram<N>) {
    NGram::<N>()
}

/// Bigrams copied into arrays.
pub fn bigram() -> (r: NGram<2>) {
    NGram::<2>()
}

/// Trigrams copied into arrays.
pub fn trigram() -> (r: NGram<3>) {
    NGram::<3>()
}

impl<const N: usize> LinearFixed for NGram<N> {
    open spec fn spec_chunk_size(&self) -> nat {
        N as nat
    }

    fn chunk_size(&self) -> (r: usize) {
        N
    }
}

/// Copies the window of width `N` that starts at `start`.
fn copy_window<T: Copy, const N: usize>(input: &[T], start: usize) -> (r: [T; N])
    requires
        N > 0,
        start + N <= input@.len(),
    ensures
        r@ == input@.subrange(start as int, start + N),
{
    let mut arr: [T; N] = vstd::array::array_fill_for_copy_types::<T, N>(input[start]);
    let len = input.len();
    let mut k: usize = 0;
    while k < N
        invariant
            k <= N,
            len == input@.len(),
            start + N <= input@.len(),
            arr@.len() == N,
            forall|j: int| 0 <= j < k ==> arr@[j] == input@[start + j],
        decreases N - k,
    {
        arr[k] = input[start + k];
        k = k + 1;
    }
    assert(arr@ =~= input@.subrange(start as int, start + N));
    arr
}

impl<'a, T: Copy, const N: usize> Ftzr<&'a [T]> for NGram<N> {
    type TokenGroup = [T; N];

    open spec fn spec_wf(&self) -> bool {
        N > 0
    }

    open spec fn spec_groups(&self, input: Seq<T>) -> Seq<Seq<T>> {
        windows(input, N as nat)
    }

    fn push_tokens<Acc: Accumulates<[T; N]>>(&self, input: &'a [T], state: &mut Acc::State) {
        let ghost m0 = Acc::spec_model(state);
        let ghost w = windows(input.val(), N as nat);
        let len = input.len();
        if len < N {
            assert(w =~= Seq::<Seq<T>>::empty());
            return;
        }
        let last = len - N;
        let mut i: usize = 0;
        while i <= last
            invariant
                N > 0,
                last == len - N,
                len == input@.len(),
                w == windows(input.val(), N as nat),
                w.len() == last + 1,
                i <= last + 1,
                Acc::spec_model(state) == fold::<[T; N], Acc>(m0, w.take(i as int)),
            decreases last + 1 - i,
        {
            let g: [T; N] = copy_window(input, i);
            Acc::accum_token(state, g);
            proof {
                lemma_fold_push::<[T; N], Acc>(m0, w.take(i as int), g.val());
                assert(w.take(i as int).push(g.val()) =~= w.take(i + 1));
            }
            i = i + 1;
        }
        assert(w.take(i as int) =~= w);
    }
}

impl<'a, const N: usize> Ftzr<&'a str> for NGram<N> {
    type TokenGroup = [u8; N];

    open spec fn spec_wf(&self) -> bool {
        N > 0
    }

    /// A text is featurized as the sequence of its bytes.
    open spec fn spec_groups(&self, input: Seq<char>) -> Seq<Seq<u8>> {
        windows(encode_utf8(input), N as nat)
    }

    fn push_tokens<Acc: Accumulates<[u8; N]>>(&self, input: &'a str, state: &mut Acc::State) {
        let bytes = input.as_bytes();
        <NGram<N> as Ftzr<&'a [u8]>>::push_tokens::<Acc>(self, bytes, state);
    }
}

/// The iterator over the windows of an `NGram<N>`, copied into arrays.
#[derive(Debug, Clone, Copy)]
pub struct NGramIter<'a, T, const N: usize> {
    /// The start of the next window.
    pub idx: usize,
    /// The input.
    pub data: &'a [T],
}

impl<'a, T: Copy, const N: usize> TokenIter for NGramIter<'a, T, N> {
    type Item = [T; N];

    open spec fn spec_ok(&self) -> bool {
        &&& N > 0
        &&& self.idx <= window_count(self.data@.len(), N as nat)
    }

    open spec fn spec_remaining(&self) -> Seq<Seq<T>> {
        windows(self.data@, N as nat).skip(self.idx as int)
    }

    fn next(&mut self) -> (r: Option<[T; N]>) {
        let len = self.data.len();
        if self.idx < len && N <= len - self.idx {
            let g: [T; N] = copy_window(self.data, self.idx);
            self.idx = self.idx + 1;
            proof {
                assert(old(self).spec_remaining().drop_first() =~= self.spec_remaining());
            }
            Some(g)
        } else {
            None
        }
    }
}

impl<'a, T: Copy, const N: usize> IterFtzr<&'a [T]> for NGram<N> {
    type Iter = NGramIter<'a, T, N>;

    fn iterate_features(&self, input: &'a [T]) -> (r: NGramIter<'a, T, N>) {
        let r = NGramIter { idx: 0, data: input };
        assert(r.spec_remaining() =~= windows(input@, N as nat));
        r
    }
}

/// The n-gram featurizer of width `N >= 1` over an input of length `L >= N`
/// gives exactly `L - N + 1` arrays, in the order of their starting offsets
/// `0, 1, 2, ...`; over a shorter input it gives none.
pub proof fn lemma_n_gram_groups<'a, T: Copy, const N: usize>(f: NGram<N>, input: Seq<T>)
    requires
        <NGram<N> as Ftzr<&'a [T]>>::spec_wf(&f),
    ensures
        N <= input.len() ==> <NGram<N> as Ftzr<&'a [T]>>::spec_groups(&f, input).len()
            == input.len() - N + 1,
        input.len() < N ==> <NGram<N> as Ftzr<&'a [T]>>::spec_groups(&f, input).len() == 0,
        forall|i: int|
            0 <= i < <NGram<N> as Ftzr<&'a [T]>>::spec_groups(&f, input).len() ==> #[trigger]
            <NGram<N> as Ftzr<&'a [T]>>::spec_groups(&f, input)[i] == input.subrange(i, i + N),
{
    lemma_windows(input, N as nat);
}

} // verus!
