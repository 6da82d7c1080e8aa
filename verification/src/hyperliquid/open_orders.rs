//! The user's open orders, by order id as decimal text.

use crate::table::{lemma_pairs_to_map_last_hit, lemma_pairs_to_map_miss, pairs_to_map};
use crate::text::{chars_eq, chars_of, decimal_chars, lemma_decimal_injective, spec_decimal};
use vstd::prelude::*;

verus! {

/// An open order as the `openOrders` request returns it.
#[allow(non_snake_case)]
pub struct UnfilledResponse {
    pub coin: String,
    pub limitPx: String,
    pub oid: u64,
    pub side: String,
    pub sz: String,
    pub timestamp: u64,
}

/// The map from order id (as decimal text) to order built from `orders`; a
/// later order replaces an earlier one with the same id.
pub open spec fn spec_order_book(orders: Seq<UnfilledResponse>) -> Map<
    Seq<char>,
    UnfilledResponse,
> {
    pairs_to_map(orders.map_values(|o: UnfilledResponse| (spec_decimal(o.oid as nat), o)))
}

/// Looking up the decimal text of an order id gives back the last order
/// listed with that id.
pub proof fn lemma_order_book_last_wins(orders: Seq<UnfilledResponse>, i: int)
    requires
        0 <= i < orders.len(),
        forall|j: int| i < j < orders.len() ==> (#[trigger] orders[j]).oid != orders[i].oid,
    ensures
        spec_order_book(orders).contains_key(spec_decimal(orders[i].oid as nat)),
        spec_order_book(orders)[spec_decimal(orders[i].oid as nat)] == orders[i],
{
    let s = orders.map_values(|o: UnfilledResponse| (spec_decimal(o.oid as nat), o));
    let k = spec_decimal(orders[i].oid as nat);
    assert forall|j: int| i < j < s.len() implies (#[trigger] s[j]).0 != k by {
        assert(s[j].0 == spec_decimal(orders[j].oid as nat));
        if s[j].0 == k {
            lemma_decimal_injective(orders[j].oid as nat, orders[i].oid as nat);
        }
    }
    lemma_pairs_to_map_last_hit(s, i, k);
}

/// Text that is the decimal form of no listed order id is not found.
pub proof fn lemma_order_book_absent(orders: Seq<UnfilledResponse>, oid: Seq<char>)
    requires
        forall|j: int| 0 <= j < orders.len() ==> spec_decimal((#[trigger] orders[j]).oid as nat) != oid,
    ensures
        !spec_order_book(orders).contains_key(oid),
{
    let s = orders.map_values(|o: UnfilledResponse| (spec_decimal(o.oid as nat), o));
    assert forall|j: int| 0 <= j < s.len() implies (#[trigger] s[j]).0 != oid by {
        assert(s[j].0 == spec_decimal(orders[j].oid as nat));
    }
    lemma_pairs_to_map_miss(s, oid);
}

/// The user's open orders, by order id as decimal text.
pub struct OpenOrderBook {
    orders: Vec<UnfilledResponse>,
}

impl View for OpenOrderBook {
    type V = Map<Seq<char>, UnfilledResponse>;

    closed spec fn view(&self) -> Map<Seq<char>, UnfilledResponse> {
        spec_order_book(self.orders@)
    }
}

impl OpenOrderBook {
    /// The book of the orders the exchange returned, in its order.
    pub fn from_responses(orders: Vec<UnfilledResponse>) -> (b: OpenOrderBook)
        ensures
            b@ == spec_order_book(orders@),
    {
        OpenOrderBook { orders }
    }

    /// The open order whose id is written `oid`.
    pub fn get(&self, oid: &str) -> (r: Option<&UnfilledResponse>)
        ensures
            match r {
                Some(o) => self@.contains_key(oid@) && *o == self@[oid@],
                None => !self@.contains_key(oid@),
            },
    {
        let key = chars_of(oid);
        let ghost s = self.orders@.map_values(
            |o: UnfilledResponse| (spec_decimal(o.oid as nat), o),
        );
        let ghost k = oid@;
        let mut i: usize = self.orders.len();
        while i > 0
            invariant
                i <= self.orders@.len(),
                s == self.orders@.map_values(
                    |o: UnfilledResponse| (spec_decimal(o.oid as nat), o),
                ),
                k == oid@,
                key@ == k,
                forall|j: int| i <= j < s.len() ==> (#[trigger] s[j]).0 != k,
            decreases i,
        {
            let o = &self.orders[i - 1];
            assert(s[i - 1] == (spec_decimal(o.oid as nat), *o));
            let digits = decimal_chars(o.oid);
            if chars_eq(digits.as_slice(), key.as_slice()) {
                proof {
                    lemma_pairs_to_map_last_hit(s, i - 1, k);
                }
                return Some(o);
            }
            i -= 1;
        }
        proof {
            lemma_pairs_to_map_miss(s, k);
        }
        None
    }
}

/// Whether the open order `oid` is a buy (side `B`).
pub fn get_side_from_oid(book: &OpenOrderBook, oid: &str) -> (r: bool)
    requires
        book@.contains_key(oid@),
    ensures
        r == (book@[oid@].side@ == "B"@),
{
    match book.get(oid) {
        Some(o) => crate::model::is_buy_side(o.side.as_str()),
        None => false,
    }
}

/// The asset of the open order `oid`.
pub fn get_asset_from_oid(book: &OpenOrderBook, oid: &str) -> (r: String)
    requires
        book@.contains_key(oid@),
    ensures
        r@ == book@[oid@].coin@,
{
    match book.get(oid) {
        Some(o) => o.coin.clone(),
        None => String::new(),
    }
}

/// The size of the open order `oid`.
pub fn get_sz_from_oid(book: &OpenOrderBook, oid: &str) -> (r: String)
    requires
        book@.contains_key(oid@),
    ensures
        r@ == book@[oid@].sz@,
{
    match book.get(oid) {
        Some(o) => o.sz.clone(),
        None => String::new(),
    }
}

} // verus!
