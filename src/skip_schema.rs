use crate::accum_ftzr::{fold, lemma_fold_concat, lemma_fold_push, Accumulates, Ftzr};
use crate::gap_gram::GapPair;
use crate::multiftzr::EitherGroup;
use crate::val::Val;
use vstd::prelude::*;

verus! {

/// Skip-grams with ranges of widths: a left group whose width lies in
/// `group_a`, then a gap whose width lies in `gap`, then a right group whose
/// width lies in `group_b` (each range inclusive). Where the gap may be 0,
/// the contiguous groups whose width lies in `group_a.0 + group_b.0 ..=
/// group_a.1 + group_b.1` are produced as well. Created with `skipgram`.
#[derive(Debug, Clone, Copy)]
pub struct SkipSchema {
    /// The least and the greatest width of the left group.
    pub group_a: (usize, usize),
    /// The least and the greatest width of the gap.
    pub gap: (usize, usize),
    /// The least and the greatest width of the right group.
    pub group_b: (usize, usize),
}

/// Skip-grams of a left group of width `a` and a right group of width `b`,
/// with a gap whose width lies in `gap` (inclusive).
pub fn skipgram(a: usize, gap: (usize, usize), b: usize) -> (r: SkipSchema)
    ensures
        r.group_a == (a, a),
        r.gap == gap,
        r.group_b == (b, b),
{
    SkipSchema { group_a: (a, a), gap, group_b: (b, b) }
}

/// The value of a token group of a skip schema: a contiguous group, or a pair
/// of groups with the width of the gap between them.
pub type SkipVal<T> = EitherGroup<Seq<T>, (Seq<T>, Seq<T>, u16)>;

/// `base + w`, or `len` if that is larger than `len`.
pub open spec fn clip(base: int, w: int, len: int) -> int {
    if base + w > len {
        len
    } else {
        base + w
    }
}

impl SkipSchema {
    /// The least gap of a pair.
    pub open spec fn min_gap(&self) -> int {
        if self.gap.0 >= 1 {
            self.gap.0 as int
        } else {
            1
        }
    }

    /// The least stretch of input that yields anything.
    pub open spec fn min_len(&self) -> int {
        self.group_a.0 + self.gap.0 + self.group_b.0
    }
}

/// The pair with left group `[x, ga)` and right group `[sp, gb)`, if both
/// groups are non-empty.
pub open spec fn pair_item<T>(s: Seq<T>, x: int, ga: int, sp: int, gb: int) -> Seq<SkipVal<T>> {
    if ga > x && gb > sp {
        seq![EitherGroup::Right((s.subrange(x, ga), s.subrange(sp, gb), (sp - ga) as u16))]
    } else {
        Seq::empty()
    }
}

/// The pairs whose right group ends in `[sp + group_b.0, e)`.
pub open spec fn pairs_b<T>(k: SkipSchema, s: Seq<T>, x: int, ga: int, sp: int, e: int) -> Seq<
    SkipVal<T>,
>
    decreases e - (sp + k.group_b.0),
{
    if e <= sp + k.group_b.0 {
        Seq::empty()
    } else {
        pairs_b(k, s, x, ga, sp, e - 1) + pair_item(s, x, ga, sp, e - 1)
    }
}

/// The pairs whose right group starts at `sp`.
pub open spec fn pairs_at_space<T>(k: SkipSchema, s: Seq<T>, x: int, ga: int, sp: int) -> Seq<
    SkipVal<T>,
> {
    if sp + k.group_b.0 > s.len() {
        Seq::empty()
    } else {
        pairs_b(k, s, x, ga, sp, clip(sp, k.group_b.1 as int, s.len() as int) + 1)
    }
}

/// The pairs whose right group starts in `[ga + min_gap, e)`.
pub open spec fn pairs_sp<T>(k: SkipSchema, s: Seq<T>, x: int, ga: int, e: int) -> Seq<SkipVal<T>>
    decreases e - (ga + k.min_gap()),
{
    if e <= ga + k.min_gap() {
        Seq::empty()
    } else {
        pairs_sp(k, s, x, ga, e - 1) + pairs_at_space(k, s, x, ga, e - 1)
    }
}

/// The pairs whose left group is `[x, ga)`.
pub open spec fn pairs_at_a<T>(k: SkipSchema, s: Seq<T>, x: int, ga: int) -> Seq<SkipVal<T>> {
    if ga + k.min_gap() > s.len() {
        Seq::empty()
    } else {
        pairs_sp(k, s, x, ga, clip(ga, k.gap.1 as int, s.len() as int) + 1)
    }
}

/// The pairs whose left group starts at `x` and ends in `[x + group_a.0, e)`.
pub open spec fn pairs_a<T>(k: SkipSchema, s: Seq<T>, x: int, e: int) -> Seq<SkipVal<T>>
    decreases e - (x + k.group_a.0),
{
    if e <= x + k.group_a.0 {
        Seq::empty()
    } else {
        pairs_a(k, s, x, e - 1) + pairs_at_a(k, s, x, e - 1)
    }
}

/// The pairs whose left group starts at `x`.
pub open spec fn pairs_at_x<T>(k: SkipSchema, s: Seq<T>, x: int) -> Seq<SkipVal<T>> {
    pairs_a(k, s, x, clip(x, k.group_a.1 as int, s.len() as int) + 1)
}

/// The pairs whose left group starts in `[0, e)`.
pub open spec fn pairs_x<T>(k: SkipSchema, s: Seq<T>, e: int) -> Seq<SkipVal<T>>
    decreases e,
{
    if e <= 0 {
        Seq::empty()
    } else {
        pairs_x(k, s, e - 1) + pairs_at_x(k, s, e - 1)
    }
}

/// The contiguous group `[x, y)`, if it is not empty.
pub open spec fn run_item<T>(s: Seq<T>, x: int, y: int) -> Seq<SkipVal<T>> {
    if x != y {
        seq![EitherGroup::Left(s.subrange(x, y))]
    } else {
        Seq::empty()
    }
}

/// The contiguous groups that start at `x` and end in
/// `[x + group_a.0 + group_b.0, e)`.
pub open spec fn runs_y<T>(k: SkipSchema, s: Seq<T>, x: int, e: int) -> Seq<SkipVal<T>>
    decreases e - (x + k.group_a.0 + k.group_b.0),
{
    if e <= x + k.group_a.0 + k.group_b.0 {
        Seq::empty()
    } else {
        runs_y(k, s, x, e - 1) + run_item(s, x, e - 1)
    }
}

/// The contiguous groups that start at `x`.
pub open spec fn runs_at_x<T>(k: SkipSchema, s: Seq<T>, x: int) -> Seq<SkipVal<T>> {
    runs_y(k, s, x, clip(x, k.group_a.1 + k.group_b.1, s.len() as int) + 1)
}

/// The contiguous groups that start in `[0, e)`.
pub open spec fn runs_x<T>(k: SkipSchema, s: Seq<T>, e: int) -> Seq<SkipVal<T>>
    decreases e,
{
    if e <= 0 {
        Seq::empty()
    } else {
        runs_x(k, s, e - 1) + runs_at_x(k, s, e - 1)
    }
}

/// All the token groups of a skip schema over `s`: the pairs, offset after
/// offset, then the contiguous groups.
pub open spec fn skip_groups<T>(k: SkipSchema, s: Seq<T>) -> Seq<SkipVal<T>> {
    if s.len() < k.min_len() {
        Seq::empty()
    } else {
        (if k.gap.1 > 0 {
            pairs_x(k, s, s.len() - k.min_len() + 1)
        } else {
            Seq::empty()
        }) + (if k.gap.0 == 0 {
            runs_x(k, s, s.len() - (k.group_a.0 + k.group_b.0) + 1)
        } else {
            Seq::empty()
        })
    }
}

impl SkipSchema {
    /// Folds the pairs whose left group is `[x, ga)`.
    fn push_sp<'a, T, Acc: Accumulates<EitherGroup<&'a [T], GapPair<&'a [T], &'a [T]>>>>(
        &self,
        s: &'a [T],
        x: usize,
        ga: usize,
        state: &mut Acc::State,
    )
        requires
            x <= ga <= s@.len(),
        ensures
            Acc::spec_model(final(state)) == fold::<EitherGroup<&'a [T], GapPair<&'a [T], &'a [T]>>, Acc>(
                Acc::spec_model(old(state)),
                pairs_at_a(*self, s@, x as int, ga as int),
            ),
    {
        let ghost m0 = Acc::spec_model(state);
        let len = s.len();
        let mg: usize = if self.gap.0 >= 1 {
            self.gap.0
        } else {
            1
        };
        if mg > len - ga {
            return;
        }
        let lo = ga + mg;
        let hi = if self.gap.1 > len - ga {
            len
        } else {
            ga + self.gap.1
        };
        if lo > hi {
            assert(pairs_sp(*self, s@, x as int, ga as int, hi + 1) =~= Seq::empty());
            return;
        }
        let mut sp = lo;
        assert(pairs_sp(*self, s@, x as int, ga as int, lo as int) =~= Seq::empty());
        loop
            invariant_except_break
                Acc::spec_model(state) == fold::<EitherGroup<&'a [T], GapPair<&'a [T], &'a [T]>>, Acc>(
                    m0,
                    pairs_sp(*self, s@, x as int, ga as int, sp as int),
                ),
            invariant
                lo <= sp <= hi <= len,
                len == s@.len(),
                x <= ga,
                lo == ga + self.min_gap(),
            ensures
                Acc::spec_model(state) == fold::<EitherGroup<&'a [T], GapPair<&'a [T], &'a [T]>>, Acc>(m0, pairs_sp(*self, s@, x as int, ga as int, hi + 1)),
            decreases hi - sp,
        {
            let ghost done = pairs_sp(*self, s@, x as int, ga as int, sp as int);
            let ghost mid = Acc::spec_model(state);
            self.push_b::<T, Acc>(s, x, ga, sp, state);
            proof {
                lemma_fold_concat::<EitherGroup<&'a [T], GapPair<&'a [T], &'a [T]>>, Acc>(m0, done, pairs_at_space(*self, s@, x as int, ga as int, sp as int));
                assert(pairs_sp(*self, s@, x as int, ga as int, sp + 1) == done + pairs_at_space(*self, s@, x as int, ga as int, sp as int));
            }
            if sp == hi {
                break ;
            }
            sp = sp + 1;
        }
    }

    /// Folds the pairs whose left group starts at `x`.
    fn push_a<'a, T, Acc: Accumulates<EitherGroup<&'a [T], GapPair<&'a [T], &'a [T]>>>>(
        &self,
        s: &'a [T],
        x: usize,
        state: &mut Acc::State,
    )
        requires
            x + self.group_a.0 <= s@.len(),
        ensures
            Acc::spec_model(final(state)) == fold::<EitherGroup<&'a [T], GapPair<&'a [T], &'a [T]>>, Acc>(
                Acc::spec_model(old(state)),
                pairs_at_x(*self, s@, x as int),
            ),
    {
        let ghost m0 = Acc::spec_model(state);
        let len = s.len();
        let lo = x + self.group_a.0;
        let hi = if self.group_a.1 > len - x {
            len
        } else {
            x + self.group_a.1
        };
        if lo > hi {
            assert(pairs_a(*self, s@, x as int, hi + 1) =~= Seq::empty());
            return;
        }
        let mut ga = lo;
        assert(pairs_a(*self, s@, x as int, lo as int) =~= Seq::empty());
        loop
            invariant_except_break
                Acc::spec_model(state) == fold::<EitherGroup<&'a [T], GapPair<&'a [T], &'a [T]>>, Acc>(
                    m0,
                    pairs_a(*self, s@, x as int, ga as int),
                ),
            invariant
                lo <= ga <= hi <= len,
                len == s@.len(),
                lo == x + self.group_a.0,
            ensures
                Acc::spec_model(state) == fold::<EitherGroup<&'a [T], GapPair<&'a [T], &'a [T]>>, Acc>(m0, pairs_a(*self, s@, x as int, hi + 1)),
            decreases hi - ga,
        {
            let ghost done = pairs_a(*self, s@, x as int, ga as int);
            let ghost mid = Acc::spec_model(state);
            self.push_sp::<T, Acc>(s, x, ga, state);
            proof {
                lemma_fold_concat::<EitherGroup<&'a [T], GapPair<&'a [T], &'a [T]>>, Acc>(m0, done, pairs_at_a(*self, s@, x as int, ga as int));
                assert(pairs_a(*self, s@, x as int, ga + 1) == done + pairs_at_a(*self, s@, x as int, ga as int));
            }
            if ga == hi {
                break ;
            }
            ga = ga + 1;
        }
    }

    /// Folds the contiguous groups that start at `x`.
    fn push_runs<'a, T, Acc: Accumulates<EitherGroup<&'a [T], GapPair<&'a [T], &'a [T]>>>>(
        &self,
        s: &'a [T],
        x: usize,
        state: &mut Acc::State,
    )
        requires
            x + self.group_a.0 + self.group_b.0 <= s@.len(),
            self.group_a.1 + self.group_b.1 <= usize::MAX,
        ensures
            Acc::spec_model(final(state)) == fold::<EitherGroup<&'a [T], GapPair<&'a [T], &'a [T]>>, Acc>(
                Acc::spec_model(old(state)),
                runs_at_x(*self, s@, x as int),
            ),
    {
        let ghost m0 = Acc::spec_model(state);
        let len = s.len();
        let lo = x + self.group_a.0 + self.group_b.0;
        let wmax = self.group_a.1 + self.group_b.1;
        let hi = if wmax > len - x {
            len
        } else {
            x + wmax
        };
        if lo > hi {
            assert(runs_y(*self, s@, x as int, hi + 1) =~= Seq::empty());
            return;
        }
        let mut y = lo;
        assert(runs_y(*self, s@, x as int, lo as int) =~= Seq::empty());
        loop
            invariant_except_break
                Acc::spec_model(state) == fold::<EitherGroup<&'a [T], GapPair<&'a [T], &'a [T]>>, Acc>(m0, runs_y(*self, s@, x as int, y as int)),
            invariant
                lo <= y <= hi <= len,
                len == s@.len(),
                lo == x + self.group_a.0 + self.group_b.0,
            ensures
                Acc::spec_model(state) == fold::<EitherGroup<&'a [T], GapPair<&'a [T], &'a [T]>>, Acc>(m0, runs_y(*self, s@, x as int, hi + 1)),
            decreases hi - y,
        {
            let ghost done = runs_y(*self, s@, x as int, y as int);
            if x != y {
                let g: EitherGroup<&'a [T], GapPair<&'a [T], &'a [T]>> = EitherGroup::Left(vstd::slice::slice_subrange(s, x, y));
                Acc::accum_token(state, g);
                proof {
                    lemma_fold_push::<EitherGroup<&'a [T], GapPair<&'a [T], &'a [T]>>, Acc>(m0, done, g.val());
                    assert(run_item(s@, x as int, y as int) =~= seq![g.val()]);
                    assert(done.push(g.val()) =~= done + seq![g.val()]);
                }
            } else {
                assert(done + run_item(s@, x as int, y as int) =~= done);
            }
            assert(runs_y(*self, s@, x as int, y + 1) == done + run_item(s@, x as int, y as int));
            if y == hi {
                break ;
            }
            y = y + 1;
        }
    }

    /// Folds the pairs whose right group starts at `sp`.
    fn push_b<'a, T, Acc: Accumulates<EitherGroup<&'a [T], GapPair<&'a [T], &'a [T]>>>>(
        &self,
        s: &'a [T],
        x: usize,
        ga: usize,
        sp: usize,
        state: &mut Acc::State,
    )
        requires
            x <= ga <= sp <= s@.len(),
        ensures
            Acc::spec_model(final(state)) == fold::<EitherGroup<&'a [T], GapPair<&'a [T], &'a [T]>>, Acc>(
                Acc::spec_model(old(state)),
                pairs_at_space(*self, s@, x as int, ga as int, sp as int),
            ),
    {
        let ghost m0 = Acc::spec_model(state);
        let len = s.len();
        if self.group_b.0 > len - sp {
            return;
        }
        let lo = sp + self.group_b.0;
        let hi = if self.group_b.1 > len - sp {
            len
        } else {
            sp + self.group_b.1
        };
        if lo > hi {
            assert(pairs_b(*self, s@, x as int, ga as int, sp as int, hi + 1) =~= Seq::empty());
            return;
        }
        let mut gb = lo;
        assert(pairs_b(*self, s@, x as int, ga as int, sp as int, lo as int) =~= Seq::empty());
        loop
            invariant_except_break
                Acc::spec_model(state) == fold::<EitherGroup<&'a [T], GapPair<&'a [T], &'a [T]>>, Acc>(
                    m0,
                    pairs_b(*self, s@, x as int, ga as int, sp as int, gb as int),
                ),
            invariant
                lo <= gb <= hi <= len,
                len == s@.len(),
                x <= ga <= sp,
                lo == sp + self.group_b.0,
            ensures
                Acc::spec_model(state) == fold::<EitherGroup<&'a [T], GapPair<&'a [T], &'a [T]>>, Acc>(
                    m0,
                    pairs_b(*self, s@, x as int, ga as int, sp as int, hi + 1),
                ),
            decreases hi - gb,
        {
            let ghost done = pairs_b(*self, s@, x as int, ga as int, sp as int, gb as int);
            if ga > x && gb > sp {
                let left = vstd::slice::slice_subrange(s, x, ga);
                let right = vstd::slice::slice_subrange(s, sp, gb);
                let g: EitherGroup<&'a [T], GapPair<&'a [T], &'a [T]>> = EitherGroup::Right(
                    GapPair(left, right, #[verifier::truncate] ((sp - ga) as u16)),
                );
                Acc::accum_token(state, g);
                proof {
                    lemma_fold_push::<EitherGroup<&'a [T], GapPair<&'a [T], &'a [T]>>, Acc>(m0, done, g.val());
                    assert(pair_item(s@, x as int, ga as int, sp as int, gb as int) =~= seq![
                        g.val(),
                    ]);
                    assert(done.push(g.val()) =~= done + seq![g.val()]);
                }
            }
            assert(pairs_b(*self, s@, x as int, ga as int, sp as int, gb + 1) == done + pair_item(
                s@,
                x as int,
                ga as int,
                sp as int,
                gb as int,
            ));
            proof {
                if !(ga > x && gb > sp) {
                    assert(done + pair_item(s@, x as int, ga as int, sp as int, gb as int) =~= done);
                }
            }
            assert(Acc::spec_model(state) == fold::<EitherGroup<&'a [T], GapPair<&'a [T], &'a [T]>>, Acc>(
                m0,
                pairs_b(*self, s@, x as int, ga as int, sp as int, gb + 1),
            ));
            if gb == hi {
                break ;
            }
            gb = gb + 1;
        }
    }
}

impl<'a, T> Ftzr<&'a [T]> for SkipSchema {
    type TokenGroup = EitherGroup<&'a [T], GapPair<&'a [T], &'a [T]>>;

    open spec fn spec_wf(&self) -> bool {
        &&& self.group_a.0 + self.gap.0 + self.group_b.0 <= usize::MAX
        &&& self.group_a.1 + self.group_b.1 <= usize::MAX
    }

    open spec fn spec_groups(&self, input: Seq<T>) -> Seq<SkipVal<T>> {
        skip_groups(*self, input)
    }

    fn push_tokens<Acc: Accumulates<EitherGroup<&'a [T], GapPair<&'a [T], &'a [T]>>>>(&self, input: &'a [T], state: &mut Acc::State) {
        let ghost m0 = Acc::spec_model(state);
        let s = input;
        let len = s.len();
        let min = self.group_a.0 + self.gap.0 + self.group_b.0;
        if len < min {
            return;
        }
        if self.gap.1 > 0 {
            let last = len - min;
            let mut x: usize = 0;
            assert(pairs_x(*self, s@, 0) =~= Seq::empty());
            loop
                invariant_except_break
                    Acc::spec_model(state) == fold::<EitherGroup<&'a [T], GapPair<&'a [T], &'a [T]>>, Acc>(m0, pairs_x(*self, s@, x as int)),
                invariant
                    x <= last,
                    last == len - min,
                    len == s@.len(),
                    min == self.min_len(),
                ensures
                    Acc::spec_model(state) == fold::<EitherGroup<&'a [T], GapPair<&'a [T], &'a [T]>>, Acc>(m0, pairs_x(*self, s@, last + 1)),
                decreases last - x,
            {
                let ghost done = pairs_x(*self, s@, x as int);
                self.push_a::<T, Acc>(s, x, state);
                proof {
                    lemma_fold_concat::<EitherGroup<&'a [T], GapPair<&'a [T], &'a [T]>>, Acc>(m0, done, pairs_at_x(*self, s@, x as int));
                }
                if x == last {
                    break ;
                }
                x = x + 1;
            }
        }
        let ghost m1 = Acc::spec_model(state);
        let ghost part1 = if self.gap.1 > 0 {
            pairs_x(*self, s@, len - min + 1)
        } else {
            Seq::empty()
        };
        assert(m1 == fold::<EitherGroup<&'a [T], GapPair<&'a [T], &'a [T]>>, Acc>(m0, part1));
        if self.gap.0 == 0 {
            let last = len - (self.group_a.0 + self.group_b.0);
            let mut x: usize = 0;
            assert(runs_x(*self, s@, 0) =~= Seq::empty());
            loop
                invariant_except_break
                    Acc::spec_model(state) == fold::<EitherGroup<&'a [T], GapPair<&'a [T], &'a [T]>>, Acc>(m1, runs_x(*self, s@, x as int)),
                invariant
                    x <= last,
                    last == len - (self.group_a.0 + self.group_b.0),
                    len == s@.len(),
                    self.group_a.1 + self.group_b.1 <= usize::MAX,
                ensures
                    Acc::spec_model(state) == fold::<EitherGroup<&'a [T], GapPair<&'a [T], &'a [T]>>, Acc>(m1, runs_x(*self, s@, last + 1)),
                decreases last - x,
            {
                let ghost done = runs_x(*self, s@, x as int);
                self.push_runs::<T, Acc>(s, x, state);
                proof {
                    lemma_fold_concat::<EitherGroup<&'a [T], GapPair<&'a [T], &'a [T]>>, Acc>(m1, done, runs_at_x(*self, s@, x as int));
                }
                if x == last {
                    break ;
                }
                x = x + 1;
            }
        }
        proof {
            let part2 = if self.gap.0 == 0 {
                runs_x(*self, s@, len - (self.group_a.0 + self.group_b.0) + 1)
            } else {
                Seq::empty()
            };
            lemma_fold_concat::<EitherGroup<&'a [T], GapPair<&'a [T], &'a [T]>>, Acc>(m0, part1, part2);
            if self.gap.0 != 0 {
                assert(part1 + part2 =~= part1);
            }
            if self.gap.1 == 0 {
                assert(part1 + part2 =~= part2);
            }
        }
    }
}

} // verus!
