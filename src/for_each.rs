use crate::accum_ftzr::{
    fold, lemma_fold_concat, next_of, ok_of, rem_of, Accumulates, Ftzr, IterFtzr, LinearFixed,
    TokenIter,
};
use crate::val::Val;
use vstd::prelude::*;

verus! {

/// Lifts a featurizer of items to a featurizer of sequences of items: it runs
/// the inner featurizer on each item in turn. Created with `for_each(f)`.
#[derive(Debug, Clone, Copy)]
pub struct ForEach<F>(pub F);

/// Runs `f` on each item of a sequence.
pub fn for_each<F>(f: F) -> (r: ForEach<F>)
    ensures
        r.0 == f,
{
    ForEach(f)
}

impl<F: LinearFixed> LinearFixed for ForEach<F> {
    open spec fn spec_chunk_size(&self) -> nat {
        self.0.spec_chunk_size()
    }

    fn chunk_size(&self) -> (r: usize) {
        self.0.chunk_size()
    }
}

/// The token groups of the items below `k`, item after item.
pub open spec fn each_groups<I: Val, F: Ftzr<I>>(f: F, items: Seq<I>, k: nat) -> Seq<
    <F::TokenGroup as Val>::V,
>
    decreases k,
{
    if k == 0 {
        Seq::empty()
    } else {
        each_groups::<I, F>(f, items, (k - 1) as nat) + f.spec_groups(items[k - 1].val())
    }
}

impl<'a, I: Val + Copy, F: Ftzr<I>> Ftzr<&'a [I]> for ForEach<F> {
    type TokenGroup = F::TokenGroup;

    open spec fn spec_wf(&self) -> bool {
        self.0.spec_wf()
    }

    open spec fn spec_groups(&self, input: Seq<I>) -> Seq<<F::TokenGroup as Val>::V> {
        each_groups::<I, F>(self.0, input, input.len())
    }

    fn push_tokens<Acc: Accumulates<F::TokenGroup>>(&self, input: &'a [I], state: &mut Acc::State) {
        let ghost m0 = Acc::spec_model(state);
        let len = input.len();
        let mut i: usize = 0;
        while i < len
            invariant
                self.0.spec_wf(),
                len == input@.len(),
                i <= len,
                Acc::spec_model(state) == fold::<F::TokenGroup, Acc>(
                    m0,
                    each_groups::<I, F>(self.0, input@, i as nat),
                ),
            decreases len - i,
        {
            let item: I = input[i];
            let ghost mi = Acc::spec_model(state);
            self.0.push_tokens::<Acc>(item, state);
            proof {
                lemma_fold_concat::<F::TokenGroup, Acc>(
                    m0,
                    each_groups::<I, F>(self.0, input@, i as nat),
                    self.0.spec_groups(item.val()),
                );
            }
            i = i + 1;
        }
    }
}

/// The token groups of the items in `[i, k)`, item after item.
pub open spec fn each_between<I: Val, F: Ftzr<I>>(f: F, items: Seq<I>, i: int, k: int) -> Seq<
    <F::TokenGroup as Val>::V,
>
    decreases k - i,
{
    if i >= k {
        Seq::empty()
    } else {
        f.spec_groups(items[i].val()) + each_between::<I, F>(f, items, i + 1, k)
    }
}

proof fn lemma_each_between_extend<I: Val, F: Ftzr<I>>(f: F, items: Seq<I>, i: int, k: int)
    requires
        i <= k,
    ensures
        each_between::<I, F>(f, items, i, k + 1) == each_between::<I, F>(f, items, i, k)
            + f.spec_groups(items[k].val()),
    decreases k - i,
{
    if i < k {
        lemma_each_between_extend::<I, F>(f, items, i + 1, k);
        assert(f.spec_groups(items[i].val()) + (each_between::<I, F>(f, items, i + 1, k)
            + f.spec_groups(items[k].val())) =~= (f.spec_groups(items[i].val())
            + each_between::<I, F>(f, items, i + 1, k)) + f.spec_groups(items[k].val()));
    } else {
        assert(each_between::<I, F>(f, items, k + 1, k + 1) =~= Seq::empty());
        assert(f.spec_groups(items[k].val()) + Seq::empty() =~= Seq::empty() + f.spec_groups(
            items[k].val(),
        ));
    }
}

proof fn lemma_each_groups_between<I: Val, F: Ftzr<I>>(f: F, items: Seq<I>, k: nat)
    ensures
        each_groups::<I, F>(f, items, k) == each_between::<I, F>(f, items, 0, k as int),
    decreases k,
{
    if k > 0 {
        lemma_each_groups_between::<I, F>(f, items, (k - 1) as nat);
        lemma_each_between_extend::<I, F>(f, items, 0, k - 1);
    }
}

/// The iterator of a `ForEach`: the token groups of the item being read,
/// then those of the items after it.
#[derive(Debug, Clone, Copy)]
pub struct ForEachIter<'a, F, I, It> {
    /// The featurizer of one item.
    pub ftzr: F,
    /// The items.
    pub sentence: &'a [I],
    /// The next item to read.
    pub idx: usize,
    /// The iterator over the groups of the item being read, if any.
    pub current: Option<It>,
}

impl<'a, I: Val + Copy, F: IterFtzr<I> + Copy> TokenIter for ForEachIter<'a, F, I, F::Iter> {
    type Item = F::TokenGroup;

    open spec fn spec_ok(&self) -> bool {
        &&& self.ftzr.spec_wf()
        &&& self.idx <= self.sentence@.len()
        &&& ok_of(self.current)
    }

    open spec fn spec_remaining(&self) -> Seq<<F::TokenGroup as Val>::V> {
        rem_of(self.current) + each_between::<I, F>(
            self.ftzr,
            self.sentence@,
            self.idx as int,
            self.sentence@.len() as int,
        )
    }

    fn next(&mut self) -> (r: Option<F::TokenGroup>) {
        let len = self.sentence.len();
        loop
            invariant
                self.spec_ok(),
                len == self.sentence@.len(),
                old(self).spec_remaining() == self.spec_remaining(),
            decreases len - self.idx,
        {
            let ghost rest = each_between::<I, F>(
                self.ftzr,
                self.sentence@,
                self.idx as int,
                len as int,
            );
            let ghost cur = rem_of(self.current);
            match next_of(&mut self.current) {
                Some(t) => {
                    assert((cur + rest).drop_first() =~= cur.drop_first() + rest);
                    return Some(t);
                },
                None => {
                    if self.idx < len {
                        let item: I = self.sentence[self.idx];
                        self.current = Some(self.ftzr.iterate_features(item));
                        self.idx = self.idx + 1;
                        assert(cur + rest =~= rest);
                    } else {
                        assert(cur + rest =~= Seq::<<F::TokenGroup as Val>::V>::empty());
                        return None;
                    }
                },
            }
        }
    }
}

impl<'a, I: Val + Copy, F: IterFtzr<I> + Copy> IterFtzr<&'a [I]> for ForEach<F> {
    type Iter = ForEachIter<'a, F, I, F::Iter>;

    fn iterate_features(&self, input: &'a [I]) -> (r: ForEachIter<'a, F, I, F::Iter>) {
        proof {
            lemma_each_groups_between::<I, F>(self.0, input@, input@.len());
        }
        let r = ForEachIter { ftzr: self.0, sentence: input, idx: 0, current: None };
        assert(r.spec_remaining() =~= each_between::<I, F>(self.0, input@, 0, input@.len() as int));
        r
    }
}

} // verus!
