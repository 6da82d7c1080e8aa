//! Key/value tables kept as lists: the model of a map filled by inserting
//! each entry in turn, so that a later entry replaces an earlier one with
//! the same key.
//!
//! The lookup tables of the bot are keyed by strings. vstd specifies
//! `HashMap` contents only for keys with a key model (integers, `bool`),
//! not for `String`, so the tables keep their entries in a `Vec` and their
//! view is the map that inserting the entries in order into a `HashMap`
//! gives.

use vstd::prelude::*;

verus! {

/// The map obtained by inserting the pairs of `s` in order.
pub open spec fn pairs_to_map<V>(s: Seq<(Seq<char>, V)>) -> Map<Seq<char>, V>
    decreases s.len(),
{
    if s.len() == 0 {
        Map::empty()
    } else {
        pairs_to_map(s.drop_last()).insert(s.last().0, s.last().1)
    }
}

/// Entries after position `i` that do not carry key `k` do not change what
/// the map says of `k`.
pub proof fn lemma_pairs_to_map_suffix<V>(s: Seq<(Seq<char>, V)>, i: int, k: Seq<char>)
    requires
        0 <= i <= s.len(),
        forall|j: int| i <= j < s.len() ==> (#[trigger] s[j]).0 != k,
    ensures
        pairs_to_map(s).contains_key(k) == pairs_to_map(s.take(i)).contains_key(k),
        pairs_to_map(s.take(i)).contains_key(k) ==> pairs_to_map(s)[k] == pairs_to_map(
            s.take(i),
        )[k],
    decreases s.len(),
{
    if i < s.len() {
        assert(s.drop_last().take(i) =~= s.take(i));
        assert forall|j: int| i <= j < s.drop_last().len() implies (
        #[trigger] s.drop_last()[j]).0 != k by {
            assert(s.drop_last()[j] == s[j]);
        }
        assert(s[s.len() - 1].0 != k);
        lemma_pairs_to_map_suffix(s.drop_last(), i, k);
    } else {
        assert(s.take(i) =~= s);
    }
}

/// If position `i` is the last one carrying key `k`, the map gives `k` the
/// value of position `i`.
pub proof fn lemma_pairs_to_map_last_hit<V>(s: Seq<(Seq<char>, V)>, i: int, k: Seq<char>)
    requires
        0 <= i < s.len(),
        s[i].0 == k,
        forall|j: int| i < j < s.len() ==> (#[trigger] s[j]).0 != k,
    ensures
        pairs_to_map(s).contains_key(k),
        pairs_to_map(s)[k] == s[i].1,
{
    lemma_pairs_to_map_suffix(s, i + 1, k);
    assert(s.take(i + 1).drop_last() =~= s.take(i));
    assert(s.take(i + 1).last() == s[i]);
}

/// With no entry carrying `k`, the map does not hold `k`.
pub proof fn lemma_pairs_to_map_miss<V>(s: Seq<(Seq<char>, V)>, k: Seq<char>)
    requires
        forall|j: int| 0 <= j < s.len() ==> (#[trigger] s[j]).0 != k,
    ensures
        !pairs_to_map(s).contains_key(k),
{
    lemma_pairs_to_map_suffix(s, 0, k);
    assert(s.take(0) =~= Seq::<(Seq<char>, V)>::empty());
}

} // verus!
