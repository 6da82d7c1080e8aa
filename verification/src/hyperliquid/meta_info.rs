//! Size decimals of the tradable assets, by name.

use crate::model::Asset;
use crate::table::{lemma_pairs_to_map_last_hit, lemma_pairs_to_map_miss, pairs_to_map};
use vstd::prelude::*;

verus! {

/// The map from asset name to size decimals built from `assets`; a later
/// asset replaces an earlier one of the same name.
pub open spec fn spec_universe_map(assets: Seq<Asset>) -> Map<Seq<char>, u32> {
    pairs_to_map(assets.map_values(|a: Asset| (a.name@, a.sz_decimals)))
}

/// A lookup gives back the size decimals of the last asset listed under the
/// name looked up.
pub proof fn lemma_universe_map_last_wins(assets: Seq<Asset>, i: int)
    requires
        0 <= i < assets.len(),
        forall|j: int| i < j < assets.len() ==> (#[trigger] assets[j]).name@ != assets[i].name@,
    ensures
        spec_universe_map(assets).contains_key(assets[i].name@),
        spec_universe_map(assets)[assets[i].name@] == assets[i].sz_decimals,
{
    let s = assets.map_values(|a: Asset| (a.name@, a.sz_decimals));
    assert forall|j: int| i < j < s.len() implies (#[trigger] s[j]).0 != assets[i].name@ by {
        assert(s[j].0 == assets[j].name@);
    }
    lemma_pairs_to_map_last_hit(s, i, assets[i].name@);
}

/// A name under which no asset is listed is not found.
pub proof fn lemma_universe_map_absent(assets: Seq<Asset>, name: Seq<char>)
    requires
        forall|j: int| 0 <= j < assets.len() ==> (#[trigger] assets[j]).name@ != name,
    ensures
        !spec_universe_map(assets).contains_key(name),
{
    let s = assets.map_values(|a: Asset| (a.name@, a.sz_decimals));
    assert forall|j: int| 0 <= j < s.len() implies (#[trigger] s[j]).0 != name by {
        assert(s[j].0 == assets[j].name@);
    }
    lemma_pairs_to_map_miss(s, name);
}

/// Size decimals of the tradable assets, by exact name.
pub struct UniverseMap {
    assets: Vec<Asset>,
}

impl View for UniverseMap {
    type V = Map<Seq<char>, u32>;

    closed spec fn view(&self) -> Map<Seq<char>, u32> {
        spec_universe_map(self.assets@)
    }
}

impl UniverseMap {
    /// The map of the assets the exchange lists, in the order it lists them.
    pub fn from_assets(assets: Vec<Asset>) -> (m: UniverseMap)
        ensures
            m@ == spec_universe_map(assets@),
    {
        UniverseMap { assets }
    }

    /// The size decimals of the asset named exactly `asset`.
    pub fn get(&self, asset: &str) -> (r: Option<u32>)
        ensures
            r == (if self@.contains_key(asset@) {
                Some(self@[asset@])
            } else {
                None
            }),
    {
        let ghost s = self.assets@.map_values(|a: Asset| (a.name@, a.sz_decimals));
        let ghost k = asset@;
        let mut i: usize = self.assets.len();
        while i > 0
            invariant
                i <= self.assets@.len(),
                s == self.assets@.map_values(|a: Asset| (a.name@, a.sz_decimals)),
                k == asset@,
                forall|j: int| i <= j < s.len() ==> (#[trigger] s[j]).0 != k,
            decreases i,
        {
            let a = &self.assets[i - 1];
            assert(s[i - 1] == (a.name@, a.sz_decimals));
            if crate::text::str_eq(a.name.as_str(), asset) {
                proof {
                    lemma_pairs_to_map_last_hit(s, i - 1, k);
                }
                return Some(a.sz_decimals);
            }
            i -= 1;
        }
        proof {
            lemma_pairs_to_map_miss(s, k);
        }
        None
    }
}

/// The size decimals of the asset named `asset`, which the map must hold.
pub fn calculate_asset_to_id(universe: &UniverseMap, asset: &str) -> (r: u32)
    requires
        universe@.contains_key(asset@),
    ensures
        r == universe@[asset@],
{
    match universe.get(asset) {
        Some(d) => d,
        None => 0,
    }
}

} // verus!
