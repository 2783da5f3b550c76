use crate::accum_ftzr::{collect, Accumulates};
use crate::convert::Bag;
use crate::tokengroup::{push_char, push_text};
use crate::val::{vals, Val};
use std::collections::{BTreeMap, BTreeSet, HashMap, HashSet, VecDeque};
use std::hash::Hash;
use vstd::prelude::*;
use vstd::laws_cmp::obeys_cmp;
use vstd::std_specs::hash::obeys_key_model;

verus! {

broadcast use vstd::std_specs::hash::group_hash_axioms;

impl<Token: Val> Accumulates<Token> for VecDeque<Token> {
    type State = VecDeque<Token>;

    type Model = Seq<Token::V>;

    open spec fn spec_model(state: &VecDeque<Token>) -> Seq<Token::V> {
        vals(state@)
    }

    open spec fn spec_result(out: &VecDeque<Token>) -> Seq<Token::V> {
        vals(out@)
    }

    open spec fn spec_init() -> Seq<Token::V> {
        Seq::empty()
    }

    open spec fn spec_step(m: Seq<Token::V>, t: Token::V) -> Seq<Token::V> {
        m.push(t)
    }

    fn new_state() -> (s: VecDeque<Token>) {
        let s = VecDeque::new();
        assert(vals(s@) =~= Seq::empty());
        s
    }

    fn accum_token(state: &mut VecDeque<Token>, token: Token) {
        state.push_back(token);
        assert(vals(state@) =~= vals(old(state)@).push(token.val()));
    }

    fn finish(state: VecDeque<Token>) -> (r: VecDeque<Token>) {
        state
    }
}

/// The values of the members of a set.
pub open spec fn set_vals<T: Val>(s: Set<T>) -> Set<T::V> {
    s.map(|t: T| t.val())
}

impl<Token: Val + Eq + Hash> Accumulates<Token> for HashSet<Token> {
    type State = HashSet<Token>;

    type Model = Set<Token::V>;

    /// Tracked where the hash table's keys behave as values (integers).
    open spec fn spec_model(state: &HashSet<Token>) -> Set<Token::V> {
        if obeys_key_model::<Token>() {
            set_vals(state@)
        } else {
            Set::empty()
        }
    }

    open spec fn spec_result(out: &HashSet<Token>) -> Set<Token::V> {
        Self::spec_model(out)
    }

    open spec fn spec_init() -> Set<Token::V> {
        Set::empty()
    }

    open spec fn spec_step(m: Set<Token::V>, t: Token::V) -> Set<Token::V> {
        if obeys_key_model::<Token>() {
            m.insert(t)
        } else {
            m
        }
    }

    fn new_state() -> (s: HashSet<Token>) {
        let s = HashSet::new();
        assert(set_vals(s@) =~= Set::empty());
        s
    }

    fn accum_token(state: &mut HashSet<Token>, token: Token) {
        let ghost t = token;
        state.insert(token);
        proof {
            if obeys_key_model::<Token>() {
                let a = set_vals(state@);
                let b = set_vals(old(state)@).insert(t.val());
                assert forall|v: Token::V| #[trigger] a.contains(v) <==> b.contains(v) by {
                    if a.contains(v) {
                        let k = choose|k: Token| state@.contains(k) && k.val() == v;
                        if k != t {
                            assert(old(state)@.contains(k));
                        }
                    }
                    if b.contains(v) && v != t.val() {
                        let k = choose|k: Token| old(state)@.contains(k) && k.val() == v;
                        assert(state@.contains(k));
                    }
                    if v == t.val() {
                        assert(state@.contains(t));
                    }
                }
                assert(a =~= b);
            }
        }
    }

    fn finish(state: HashSet<Token>) -> (r: HashSet<Token>) {
        state
    }
}

/// Distinct tokens have distinct values.
pub open spec fn val_injective<T: Val>() -> bool {
    forall|a: T, b: T| #[trigger] a.val() == #[trigger] b.val() ==> a == b
}

/// Integer tokens are tracked exactly by the hash-based containers: their
/// hash table keys behave as values, and distinct integers have distinct
/// values.
pub proof fn lemma_integers_are_tracked()
    ensures
        obeys_key_model::<u64>(),
        val_injective::<u64>(),
        obeys_key_model::<u32>(),
        val_injective::<u32>(),
{
}

/// The counts of a bag, keyed by the values of its tokens.
pub open spec fn bag_counts<T: Val>(m: Map<T, u64>) -> Map<T::V, u64> {
    Map::new(
        |v: T::V| exists|k: T| m.contains_key(k) && k.val() == v,
        |v: T::V| m[choose|k: T| m.contains_key(k) && k.val() == v],
    )
}

/// One more occurrence of a count, saturating at the largest `u64`.
pub open spec fn count_up(c: u64) -> u64 {
    if c < u64::MAX {
        (c + 1) as u64
    } else {
        c
    }
}

/// The counts after one more occurrence of `t`.
pub open spec fn bag_add<V>(m: Map<V, u64>, t: V) -> Map<V, u64> {
    m.insert(
        t,
        if m.contains_key(t) {
            count_up(m[t])
        } else {
            1
        },
    )
}

/// Where tokens have distinct values, a bag's counts can be read through
/// the tokens themselves.
pub proof fn lemma_bag_counts_at<T: Val>(m: Map<T, u64>, t: T)
    requires
        val_injective::<T>(),
    ensures
        bag_counts(m).contains_key(t.val()) <==> m.contains_key(t),
        m.contains_key(t) ==> bag_counts(m)[t.val()] == m[t],
{
    if m.contains_key(t) {
        let k = choose|k: T| m.contains_key(k) && k.val() == t.val();
        assert(k.val() == t.val());
    }
    if bag_counts(m).contains_key(t.val()) {
        let k = choose|k: T| m.contains_key(k) && k.val() == t.val();
        assert(k.val() == t.val());
    }
}

/// Setting the count of one token sets the count of its value.
pub proof fn lemma_bag_counts_insert<T: Val>(m: Map<T, u64>, t: T, n: u64)
    requires
        val_injective::<T>(),
    ensures
        bag_counts(m.insert(t, n)) == bag_counts(m).insert(t.val(), n),
{
    let a = bag_counts(m.insert(t, n));
    let b = bag_counts(m).insert(t.val(), n);
    assert forall|v: T::V| #[trigger] a.contains_key(v) <==> b.contains_key(v) by {
        if v == t.val() {
            assert(m.insert(t, n).contains_key(t));
        } else if b.contains_key(v) {
            let k = choose|k: T| m.contains_key(k) && k.val() == v;
            assert(m.insert(t, n).contains_key(k) && k.val() == v);
        } else if a.contains_key(v) {
            let k = choose|k: T| m.insert(t, n).contains_key(k) && k.val() == v;
            assert(m.contains_key(k) && k.val() == v);
        }
    }
    assert forall|v: T::V| #[trigger] a.contains_key(v) implies a[v] == b[v] by {
        let k = choose|k: T| m.insert(t, n).contains_key(k) && k.val() == v;
        if v == t.val() {
            assert(k.val() == t.val());
        } else {
            let j = choose|j: T| m.contains_key(j) && j.val() == v;
            assert(j.val() == k.val());
        }
    }
    assert(a =~= b);
}

impl<Token: Val + Eq + Hash> Accumulates<Token> for Bag<HashMap<Token, u64>> {
    type State = Bag<HashMap<Token, u64>>;

    type Model = Map<Token::V, u64>;

    /// The count of each token value, tracked where the hash table's keys
    /// behave as values (integers) and distinct tokens have distinct values.
    open spec fn spec_model(state: &Self::State) -> Map<Token::V, u64> {
        if obeys_key_model::<Token>() && val_injective::<Token>() {
            bag_counts(state.0@)
        } else {
            Map::empty()
        }
    }

    open spec fn spec_result(out: &Self) -> Map<Token::V, u64> {
        Self::spec_model(out)
    }

    open spec fn spec_init() -> Map<Token::V, u64> {
        Map::empty()
    }

    open spec fn spec_step(m: Map<Token::V, u64>, t: Token::V) -> Map<Token::V, u64> {
        if obeys_key_model::<Token>() && val_injective::<Token>() {
            bag_add(m, t)
        } else {
            m
        }
    }

    fn new_state() -> (s: Self::State) {
        let s = Bag(HashMap::new());
        assert(bag_counts(s.0@) =~= Map::empty());
        s
    }

    fn accum_token(state: &mut Self::State, token: Token) {
        let c: u64 = match state.0.get(&token) {
            Some(v) => *v,
            None => 0,
        };
        let n: u64 = if c < u64::MAX {
            c + 1
        } else {
            c
        };
        let ghost t = token;
        let ghost before = state.0@;
        state.0.insert(token, n);
        proof {
            if obeys_key_model::<Token>() && val_injective::<Token>() {
                lemma_bag_counts_at(before, t);
                lemma_bag_counts_insert(before, t, n);
            }
        }
    }

    fn finish(state: Self::State) -> (r: Self) {
        state
    }
}

/// The number of occurrences of each value of `ts`, saturating at the
/// largest `u64`.
pub open spec fn occurrence_counts<V>(ts: Seq<V>) -> Map<V, u64> {
    Map::new(
        |v: V| ts.contains(v),
        |v: V|
            if ts.to_multiset().count(v) < u64::MAX {
                ts.to_multiset().count(v) as u64
            } else {
                u64::MAX
            },
    )
}

proof fn lemma_bag_add_occurrences<V>(ts: Seq<V>, t: V)
    ensures
        bag_add(occurrence_counts(ts), t) == occurrence_counts(ts.push(t)),
{
    broadcast use vstd::seq_lib::group_to_multiset_ensures;

    let a = bag_add(occurrence_counts(ts), t);
    let b = occurrence_counts(ts.push(t));
    assert forall|v: V| #[trigger] a.contains_key(v) <==> b.contains_key(v) by {
        assert(ts.push(t).to_multiset().count(v) == ts.to_multiset().count(v) + if v == t {
            1int
        } else {
            0int
        });
    }
    assert forall|v: V| #[trigger] a.contains_key(v) implies a[v] == b[v] by {
        assert(ts.push(t).to_multiset().count(v) == ts.to_multiset().count(v) + if v == t {
            1int
        } else {
            0int
        });
    }
    assert(a =~= b);
}

/// A bag of tracked tokens (integers, say) holds exactly the values that
/// occur, each with its number of occurrences (saturating at the largest
/// `u64`): a true multiset, never a last-write map.
pub proof fn lemma_bag_collects<T: Val + Eq + Hash>(ts: Seq<T::V>)
    requires
        obeys_key_model::<T>(),
        val_injective::<T>(),
    ensures
        collect::<T, Bag<HashMap<T, u64>>>(ts) == occurrence_counts(ts),
    decreases ts.len(),
{
    if ts.len() == 0 {
        assert(occurrence_counts(ts) =~= Map::<T::V, u64>::empty());
    } else {
        lemma_bag_collects::<T>(ts.drop_last());
        lemma_bag_add_occurrences(ts.drop_last(), ts.last());
        assert(ts.drop_last().push(ts.last()) =~= ts);
    }
}

impl<Token: Val + Ord> Accumulates<Token> for BTreeSet<Token> {
    type State = BTreeSet<Token>;

    type Model = Set<Token::V>;

    /// Tracked where the order of the tokens behaves as a total order.
    open spec fn spec_model(state: &BTreeSet<Token>) -> Set<Token::V> {
        if obeys_cmp::<Token>() {
            set_vals(state@)
        } else {
            Set::empty()
        }
    }

    open spec fn spec_result(out: &BTreeSet<Token>) -> Set<Token::V> {
        Self::spec_model(out)
    }

    open spec fn spec_init() -> Set<Token::V> {
        Set::empty()
    }

    open spec fn spec_step(m: Set<Token::V>, t: Token::V) -> Set<Token::V> {
        if obeys_cmp::<Token>() {
            m.insert(t)
        } else {
            m
        }
    }

    fn new_state() -> (s: BTreeSet<Token>) {
        let s = BTreeSet::new();
        assert(set_vals(s@) =~= Set::empty());
        s
    }

    fn accum_token(state: &mut BTreeSet<Token>, token: Token) {
        let ghost t = token;
        state.insert(token);
        proof {
            if obeys_cmp::<Token>() {
                let a = set_vals(state@);
                let b = set_vals(old(state)@).insert(t.val());
                assert forall|v: Token::V| #[trigger] a.contains(v) <==> b.contains(v) by {
                    if a.contains(v) {
                        let k = choose|k: Token| state@.contains(k) && k.val() == v;
                        if k != t {
                            assert(old(state)@.contains(k));
                        }
                    }
                    if b.contains(v) && v != t.val() {
                        let k = choose|k: Token| old(state)@.contains(k) && k.val() == v;
                        assert(state@.contains(k));
                    }
                    if v == t.val() {
                        assert(state@.contains(t));
                    }
                }
                assert(a =~= b);
            }
        }
    }

    fn finish(state: BTreeSet<Token>) -> (r: BTreeSet<Token>) {
        state
    }
}

impl<Token: Val + Ord> Accumulates<Token> for Bag<BTreeMap<Token, u64>> {
    type State = Bag<BTreeMap<Token, u64>>;

    type Model = Map<Token::V, u64>;

    /// The count of each token value, tracked where the order of the tokens
    /// behaves as a total order and distinct tokens have distinct values.
    open spec fn spec_model(state: &Self::State) -> Map<Token::V, u64> {
        if obeys_cmp::<Token>() && val_injective::<Token>() {
            bag_counts(state.0@)
        } else {
            Map::empty()
        }
    }

    open spec fn spec_result(out: &Self) -> Map<Token::V, u64> {
        Self::spec_model(out)
    }

    open spec fn spec_init() -> Map<Token::V, u64> {
        Map::empty()
    }

    open spec fn spec_step(m: Map<Token::V, u64>, t: Token::V) -> Map<Token::V, u64> {
        if obeys_cmp::<Token>() && val_injective::<Token>() {
            bag_add(m, t)
        } else {
            m
        }
    }

    fn new_state() -> (s: Self::State) {
        let s = Bag(BTreeMap::new());
        assert(bag_counts(s.0@) =~= Map::empty());
        s
    }

    fn accum_token(state: &mut Self::State, token: Token) {
        let c: u64 = match state.0.get(&token) {
            Some(v) => *v,
            None => 0,
        };
        let n: u64 = if c < u64::MAX {
            c + 1
        } else {
            c
        };
        let ghost t = token;
        let ghost before = state.0@;
        state.0.insert(token, n);
        proof {
            if obeys_cmp::<Token>() && val_injective::<Token>() {
                lemma_bag_counts_at(before, t);
                lemma_bag_counts_insert(before, t, n);
            }
        }
    }

    fn finish(state: Self::State) -> (r: Self) {
        state
    }
}

/// The entries of a map, keyed and valued by the values of its keys and
/// values.
pub open spec fn map_vals<K: Val, W: Val>(m: Map<K, W>) -> Map<K::V, W::V> {
    Map::new(
        |v: K::V| exists|k: K| m.contains_key(k) && k.val() == v,
        |v: K::V| m[choose|k: K| m.contains_key(k) && k.val() == v].val(),
    )
}

/// Setting the entry of one key sets the entry of its value.
pub proof fn lemma_map_vals_insert<K: Val, W: Val>(m: Map<K, W>, k: K, w: W)
    requires
        val_injective::<K>(),
    ensures
        map_vals(m.insert(k, w)) == map_vals(m).insert(k.val(), w.val()),
{
    let a = map_vals(m.insert(k, w));
    let b = map_vals(m).insert(k.val(), w.val());
    assert forall|v: K::V| #[trigger] a.contains_key(v) <==> b.contains_key(v) by {
        if v == k.val() {
            assert(m.insert(k, w).contains_key(k));
        } else if b.contains_key(v) {
            let j = choose|j: K| m.contains_key(j) && j.val() == v;
            assert(m.insert(k, w).contains_key(j) && j.val() == v);
        } else if a.contains_key(v) {
            let j = choose|j: K| m.insert(k, w).contains_key(j) && j.val() == v;
            assert(m.contains_key(j) && j.val() == v);
        }
    }
    assert forall|v: K::V| #[trigger] a.contains_key(v) implies a[v] == b[v] by {
        let j = choose|j: K| m.insert(k, w).contains_key(j) && j.val() == v;
        if v == k.val() {
            assert(j.val() == k.val());
        } else {
            let i = choose|i: K| m.contains_key(i) && i.val() == v;
            assert(i.val() == j.val());
        }
    }
    assert(a =~= b);
}

/// A map keeps, for each key, the value of its last occurrence.
impl<K: Val + Eq + Hash, W: Val> Accumulates<(K, W)> for HashMap<K, W> {
    type State = HashMap<K, W>;

    type Model = Map<K::V, W::V>;

    /// Tracked where the hash table's keys behave as values (integers) and
    /// distinct keys have distinct values.
    open spec fn spec_model(state: &HashMap<K, W>) -> Map<K::V, W::V> {
        if obeys_key_model::<K>() && val_injective::<K>() {
            map_vals(state@)
        } else {
            Map::empty()
        }
    }

    open spec fn spec_result(out: &HashMap<K, W>) -> Map<K::V, W::V> {
        Self::spec_model(out)
    }

    open spec fn spec_init() -> Map<K::V, W::V> {
        Map::empty()
    }

    open spec fn spec_step(m: Map<K::V, W::V>, t: (K::V, W::V)) -> Map<K::V, W::V> {
        if obeys_key_model::<K>() && val_injective::<K>() {
            m.insert(t.0, t.1)
        } else {
            m
        }
    }

    fn new_state() -> (s: HashMap<K, W>) {
        let s = HashMap::new();
        assert(map_vals(s@) =~= Map::empty());
        s
    }

    fn accum_token(state: &mut HashMap<K, W>, token: (K, W)) {
        let ghost before = state@;
        let ghost t = token;
        let (k, w) = token;
        state.insert(k, w);
        proof {
            if obeys_key_model::<K>() && val_injective::<K>() {
                lemma_map_vals_insert(before, t.0, t.1);
            }
        }
    }

    fn finish(state: HashMap<K, W>) -> (r: HashMap<K, W>) {
        state
    }
}

impl<'a> Accumulates<&'a [char]> for String {
    type State = String;

    type Model = Seq<char>;

    open spec fn spec_model(state: &String) -> Seq<char> {
        state@
    }

    open spec fn spec_result(out: &String) -> Seq<char> {
        out@
    }

    open spec fn spec_init() -> Seq<char> {
        Seq::empty()
    }

    open spec fn spec_step(m: Seq<char>, t: Seq<char>) -> Seq<char> {
        m + t
    }

    fn new_state() -> (s: String) {
        String::new()
    }

    fn accum_token(state: &mut String, token: &'a [char]) {
        let ghost s0 = state@;
        let len = token.len();
        let mut i: usize = 0;
        while i < len
            invariant
                len == token@.len(),
                i <= len,
                state@ == s0 + token@.take(i as int),
            decreases len - i,
        {
            push_char(state, token[i]);
            assert(s0 + token@.take(i + 1) =~= (s0 + token@.take(i as int)).push(token@[i as int]));
            i = i + 1;
        }
        assert(token@.take(len as int) =~= token@);
    }

    fn finish(state: String) -> (r: String) {
        state
    }
}

impl<'a> Accumulates<&'a str> for String {
    type State = String;

    type Model = Seq<char>;

    open spec fn spec_model(state: &String) -> Seq<char> {
        state@
    }

    open spec fn spec_result(out: &String) -> Seq<char> {
        out@
    }

    open spec fn spec_init() -> Seq<char> {
        Seq::empty()
    }

    open spec fn spec_step(m: Seq<char>, t: Seq<char>) -> Seq<char> {
        m + t
    }

    fn new_state() -> (s: String) {
        String::new()
    }

    fn accum_token(state: &mut String, token: &'a str) {
        push_text(state, token);
    }

    fn finish(state: String) -> (r: String) {
        state
    }
}

} // verus!
