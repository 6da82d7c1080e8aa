//! The exchange's data model: orders, order responses, market metadata,
//! positions and account summaries, and the lookups the bot makes in them.

use crate::table::{lemma_pairs_to_map_last_hit, lemma_pairs_to_map_miss, pairs_to_map};
use crate::text::{chars_of, spec_to_uppercase, str_eq, string_from_chars, to_uppercase};
use crate::types::MarginType;
use vstd::prelude::*;

verus! {

/// Time in force of a limit order.
#[derive(Clone, Copy, Debug, PartialEq, Eq, Structural)]
pub enum Tif {
    Gtc,
    Alo,
    Ioc,
}

/// A limit order type.
#[derive(Clone, Copy, Debug, PartialEq, Eq, Structural)]
pub struct Limit {
    pub tif: Tif,
}

/// Whether a trigger order takes profit or stops a loss.
#[derive(Clone, Copy, Debug, PartialEq, Eq, Structural)]
pub enum TriggerType {
    Tp,
    Sl,
}

/// An order type as it enters the hash of an order: a limit order, or a
/// trigger order with its trigger price in the integer form used for
/// hashing.
#[derive(Clone, Copy, Debug, PartialEq, Eq, Structural)]
pub enum OrderTypeKey {
    Limit(Limit),
    Trigger { is_market: bool, tpsl: TriggerType, trigger_px: u64 },
}

/// An order that was filled at once.
pub struct FilledOrder {
    pub total_sz: String,
    pub avg_px: String,
    pub oid: u128,
}

/// An order that rests on the book.
pub struct RestingOrder {
    pub oid: u128,
}

/// The status of one order in an exchange response.
pub enum OrderStatus {
    Filled(FilledOrder),
    Resting(RestingOrder),
    Error(String),
}

/// The statuses of the orders of one request.
pub struct OrderResponseData {
    pub statuses: Vec<OrderStatus>,
}

/// An accepted order request.
pub struct OrderResponse {
    pub response_type: String,
    pub data: OrderResponseData,
}

/// The exchange's answer to an order request: status `ok` with the
/// response, or status `err` with a message.
pub enum ExchangeResponse {
    Success(OrderResponse),
    Failure(String),
}

/// A tradable asset and the number of decimals of its sizes.
pub struct Asset {
    pub name: String,
    pub sz_decimals: u32,
}

/// The list of tradable assets; an asset's position in it is its id.
pub struct Universe {
    pub universe: Vec<Asset>,
}

/// The market context of an asset.
pub struct Ctx {
    pub mark_px: String,
}

/// One part of the exchange's `metaAndAssetCtxs` answer.
pub enum AssetCtx {
    Universe(Universe),
    Ctx(Vec<Ctx>),
}

/// The leverage of a position.
pub struct Leverage {
    pub type_: String,
    pub value: u32,
}

/// A position of the user in one asset.
pub struct Position {
    pub coin: String,
    pub entry_px: Option<String>,
    pub leverage: Leverage,
    pub margin_used: String,
    pub max_trade_szs: Vec<String>,
    pub position_value: String,
    pub return_on_equity: String,
    pub szi: String,
    pub unrealized_pnl: String,
}

/// A position with its kind.
pub struct AssetPosition {
    pub position: Position,
    pub type_: String,
}

/// The account summary of isolated margin.
pub struct MarginSummary {
    pub account_value: String,
    pub total_margin_used: String,
    pub total_ntl_pos: String,
    pub total_raw_usd: String,
}

/// The account summary of cross margin.
pub struct CrossMarginSummary {
    pub account_value: String,
    pub total_margin_used: String,
    pub total_ntl_pos: String,
    pub total_raw_usd: String,
}

/// The user's positions and account summaries.
pub struct ClearingHouseState {
    pub asset_positions: Vec<AssetPosition>,
    pub margin_summary: MarginSummary,
    pub cross_margin_summary: CrossMarginSummary,
}

/// An order of the user that is not filled yet.
pub struct UnfilledOrder {
    pub coin: String,
    pub limit_px: String,
    pub oid: u64,
    pub side: String,
    pub sz: String,
}

// ---------------------------------------------------------------------------
// Order type codes
// ---------------------------------------------------------------------------

/// The `(code, trigger price)` pair by which an order type enters the hash
/// of an order: 2, 1, 3 for good-til-cancel, add-liquidity-only and
/// immediate-or-cancel limits; 4 to 7 for take-profit market, take-profit
/// limit, stop-loss market and stop-loss limit triggers.
pub open spec fn spec_order_type_code(t: OrderTypeKey) -> (u8, u64) {
    match t {
        OrderTypeKey::Limit(l) => match l.tif {
            Tif::Gtc => (2, 0),
            Tif::Alo => (1, 0),
            Tif::Ioc => (3, 0),
        },
        OrderTypeKey::Trigger { is_market, tpsl, trigger_px } => match (is_market, tpsl) {
            (true, TriggerType::Tp) => (4, trigger_px),
            (false, TriggerType::Tp) => (5, trigger_px),
            (true, TriggerType::Sl) => (6, trigger_px),
            (false, TriggerType::Sl) => (7, trigger_px),
        },
    }
}

impl OrderTypeKey {
    /// The `(code, trigger price)` pair of this order type.
    pub fn get_type(&self) -> (r: (u8, u64))
        ensures
            r == spec_order_type_code(*self),
    {
        match self {
            OrderTypeKey::Limit(limit) => match limit.tif {
                Tif::Gtc => (2, 0),
                Tif::Alo => (1, 0),
                Tif::Ioc => (3, 0),
            },
            OrderTypeKey::Trigger { is_market, tpsl, trigger_px } => match (is_market, tpsl) {
                (true, TriggerType::Tp) => (4, *trigger_px),
                (false, TriggerType::Tp) => (5, *trigger_px),
                (true, TriggerType::Sl) => (6, *trigger_px),
                (false, TriggerType::Sl) => (7, *trigger_px),
            },
        }
    }
}

// ---------------------------------------------------------------------------
// The asset table: upper-case name -> (size decimals, asset id)
// ---------------------------------------------------------------------------

/// The entries of the asset table built from `u`: each asset under its
/// upper-case name, with its size decimals and its position as id.
pub open spec fn spec_asset_entries(u: Seq<Asset>) -> Seq<(Seq<char>, (u32, u32))> {
    Seq::new(u.len(), |i: int| (spec_to_uppercase(u[i].name@), (u[i].sz_decimals, i as u32)))
}

/// The asset table built from `u`; a later asset replaces an earlier one of
/// the same upper-case name.
pub open spec fn spec_asset_table(u: Seq<Asset>) -> Map<Seq<char>, (u32, u32)> {
    pairs_to_map(spec_asset_entries(u))
}

/// Looking up a symbol gives back the size decimals and the position of the
/// last asset whose upper-case name is the symbol's.
pub proof fn lemma_asset_table_last_wins(u: Seq<Asset>, i: int, symbol: Seq<char>)
    requires
        0 <= i < u.len(),
        spec_to_uppercase(u[i].name@) == spec_to_uppercase(symbol),
        forall|j: int|
            i < j < u.len() ==> spec_to_uppercase((#[trigger] u[j]).name@) != spec_to_uppercase(
                symbol,
            ),
    ensures
        spec_asset_table(u).contains_key(spec_to_uppercase(symbol)),
        spec_asset_table(u)[spec_to_uppercase(symbol)] == (u[i].sz_decimals, i as u32),
{
    let s = spec_asset_entries(u);
    let k = spec_to_uppercase(symbol);
    assert forall|j: int| i < j < s.len() implies (#[trigger] s[j]).0 != k by {
        assert(s[j].0 == spec_to_uppercase(u[j].name@));
    }
    lemma_pairs_to_map_last_hit(s, i, k);
}

/// A symbol that no asset's upper-case name matches is not found.
pub proof fn lemma_asset_table_absent(u: Seq<Asset>, symbol: Seq<char>)
    requires
        forall|j: int|
            0 <= j < u.len() ==> spec_to_uppercase((#[trigger] u[j]).name@) != spec_to_uppercase(
                symbol,
            ),
    ensures
        !spec_asset_table(u).contains_key(spec_to_uppercase(symbol)),
{
    let s = spec_asset_entries(u);
    let k = spec_to_uppercase(symbol);
    assert forall|j: int| 0 <= j < s.len() implies (#[trigger] s[j]).0 != k by {
        assert(s[j].0 == spec_to_uppercase(u[j].name@));
    }
    lemma_pairs_to_map_miss(s, k);
}

/// Distinct order types enter the hash as distinct pairs.
pub proof fn lemma_order_type_code_injective(a: OrderTypeKey, b: OrderTypeKey)
    requires
        spec_order_type_code(a) == spec_order_type_code(b),
    ensures
        a == b,
{
}

/// Assets by upper-case name, with their size decimals and ids.
pub struct AssetTable {
    entries: Vec<(String, u32, u32)>,
}

impl AssetTable {
    /// The entries of the table, as keys and values.
    pub closed spec fn entries_view(&self) -> Seq<(Seq<char>, (u32, u32))> {
        self.entries@.map_values(|e: (String, u32, u32)| (e.0@, (e.1, e.2)))
    }
}

impl View for AssetTable {
    type V = Map<Seq<char>, (u32, u32)>;

    closed spec fn view(&self) -> Map<Seq<char>, (u32, u32)> {
        pairs_to_map(self.entries_view())
    }
}

impl AssetTable {
    /// The table of the assets of `universe`.
    pub fn new(universe: &Universe) -> (t: AssetTable)
        ensures
            t@ == spec_asset_table(universe.universe@),
    {
        let n = universe.universe.len();
        let mut entries: Vec<(String, u32, u32)> = Vec::new();
        let mut i: usize = 0;
        while i < n
            invariant
                i <= n,
                n == universe.universe@.len(),
                entries@.len() == i,
                forall|j: int|
                    0 <= j < i ==> ((#[trigger] entries@[j]).0@, (entries@[j].1, entries@[j].2))
                        == spec_asset_entries(universe.universe@)[j],
            decreases n - i,
        {
            let a = &universe.universe[i];
            let key = to_uppercase(a.name.as_str());
            entries.push((key, a.sz_decimals, i as u32));
            i += 1;
        }
        let t = AssetTable { entries };
        assert(t.entries_view() =~= spec_asset_entries(universe.universe@));
        t
    }

    /// The size decimals and id of the asset named `symbol`, in any case.
    pub fn get(&self, symbol: &str) -> (r: Option<(u32, u32)>)
        ensures
            r == (if self@.contains_key(spec_to_uppercase(symbol@)) {
                Some(self@[spec_to_uppercase(symbol@)])
            } else {
                None
            }),
    {
        let key = to_uppercase(symbol);
        let ghost k = key@;
        let ghost s = self.entries_view();
        let mut i: usize = self.entries.len();
        while i > 0
            invariant
                i <= self.entries@.len(),
                s == self.entries_view(),
                s.len() == self.entries@.len(),
                k == key@,
                k == spec_to_uppercase(symbol@),
                forall|j: int| i <= j < s.len() ==> (#[trigger] s[j]).0 != k,
            decreases i,
        {
            let e = &self.entries[i - 1];
            assert(s[i - 1] == (e.0@, (e.1, e.2)));
            if e.0 == key {
                proof {
                    lemma_pairs_to_map_last_hit(s, i - 1, k);
                }
                return Some((e.1, e.2));
            }
            i -= 1;
        }
        proof {
            lemma_pairs_to_map_miss(s, k);
        }
        None
    }
}

// ---------------------------------------------------------------------------
// Positions and account summaries
// ---------------------------------------------------------------------------

/// Position `p` is open (it has an entry price) in the asset whose
/// upper-case name is `up`.
pub open spec fn is_open_position_in(p: AssetPosition, up: Seq<char>) -> bool {
    spec_to_uppercase(p.position.coin@) == up && p.position.entry_px is Some
}

/// The first open position in `symbol` (in any case), by its index in the
/// state's list.
pub fn find_open_position(state: &ClearingHouseState, symbol: &str) -> (r: Option<usize>)
    ensures
        match r {
            Some(i) => i < state.asset_positions@.len() && is_open_position_in(
                state.asset_positions@[i as int],
                spec_to_uppercase(symbol@),
            ) && forall|j: int|
                0 <= j < i ==> !is_open_position_in(
                    #[trigger] state.asset_positions@[j],
                    spec_to_uppercase(symbol@),
                ),
            None => forall|j: int|
                0 <= j < state.asset_positions@.len() ==> !is_open_position_in(
                    #[trigger] state.asset_positions@[j],
                    spec_to_uppercase(symbol@),
                ),
        },
{
    let up = to_uppercase(symbol);
    let n = state.asset_positions.len();
    let mut i: usize = 0;
    while i < n
        invariant
            i <= n,
            n == state.asset_positions@.len(),
            up@ == spec_to_uppercase(symbol@),
            forall|j: int|
                0 <= j < i ==> !is_open_position_in(
                    #[trigger] state.asset_positions@[j],
                    spec_to_uppercase(symbol@),
                ),
        decreases n - i,
    {
        let p = &state.asset_positions[i].position;
        let coin = to_uppercase(p.coin.as_str());
        if coin == up && p.entry_px.is_some() {
            return Some(i);
        }
        i += 1;
    }
    None
}

/// The indices of the open positions of `s` (those with an entry price),
/// in order.
pub open spec fn spec_open_indices(s: Seq<AssetPosition>) -> Seq<usize>
    decreases s.len(),
{
    if s.len() == 0 {
        Seq::empty()
    } else {
        let p = spec_open_indices(s.drop_last());
        if s.last().position.entry_px is Some {
            p.push((s.len() - 1) as usize)
        } else {
            p
        }
    }
}

/// The open positions are exactly those with an entry price, whatever
/// their side or other fields: every listed index is in range and has an
/// entry price, the indices rise strictly, and every position with an
/// entry price is listed.
pub proof fn lemma_open_indices_are_positions_with_entry(s: Seq<AssetPosition>)
    requires
        s.len() <= usize::MAX,
    ensures
        forall|k: int|
            0 <= k < spec_open_indices(s).len() ==> (spec_open_indices(s)[k] as int) < s.len()
                && s[spec_open_indices(s)[k] as int].position.entry_px is Some,
        forall|k1: int, k2: int|
            0 <= k1 < k2 < spec_open_indices(s).len() ==> spec_open_indices(s)[k1]
                < spec_open_indices(s)[k2],
        forall|i: int|
            0 <= i < s.len() && (#[trigger] s[i]).position.entry_px is Some ==> spec_open_indices(
                s,
            ).contains(i as usize),
    decreases s.len(),
{
    if s.len() > 0 {
        let t = s.drop_last();
        lemma_open_indices_are_positions_with_entry(t);
        let p = spec_open_indices(t);
        let r = spec_open_indices(s);
        assert forall|k: int| 0 <= k < r.len() implies (r[k] as int) < s.len()
            && s[r[k] as int].position.entry_px is Some by {
            if k < p.len() {
                assert(r[k] == p[k]);
                assert(s[p[k] as int] == t[p[k] as int]);
            }
        }
        assert forall|i: int| 0 <= i < s.len() && (#[trigger] s[i]).position.entry_px is Some implies r.contains(i as usize) by {
            if i < s.len() - 1 {
                assert(t[i] == s[i]);
                let k = choose|k: int| 0 <= k < p.len() && p[k] == i as usize;
                assert(r[k] == p[k]);
            } else {
                assert(r[r.len() - 1] == (s.len() - 1) as usize);
            }
        }
    }
}

/// The indices of the user's open positions, in order.
pub fn open_position_indices(state: &ClearingHouseState) -> (r: Vec<usize>)
    ensures
        r@ == spec_open_indices(state.asset_positions@),
{
    let n = state.asset_positions.len();
    let mut r: Vec<usize> = Vec::new();
    let mut i: usize = 0;
    assert(state.asset_positions@.take(0) =~= Seq::<AssetPosition>::empty());
    while i < n
        invariant
            i <= n,
            n == state.asset_positions@.len(),
            r@ == spec_open_indices(state.asset_positions@.take(i as int)),
        decreases n - i,
    {
        assert(state.asset_positions@.take(i + 1).drop_last() =~= state.asset_positions@.take(
            i as int,
        ));
        if state.asset_positions[i].position.entry_px.is_some() {
            r.push(i);
        }
        i += 1;
    }
    assert(state.asset_positions@.take(n as int) =~= state.asset_positions@);
    r
}

/// The account value that sizes a percentage order under margin mode `m`.
pub fn account_value(state: &ClearingHouseState, m: MarginType) -> (r: &String)
    ensures
        r == (match m {
            MarginType::Cross => &state.cross_margin_summary.account_value,
            MarginType::Isolated => &state.margin_summary.account_value,
        }),
{
    match m {
        MarginType::Cross => &state.cross_margin_summary.account_value,
        MarginType::Isolated => &state.margin_summary.account_value,
    }
}

/// The side and the magnitude text of a signed position size `szi`: short
/// exactly when it starts with `-`; the magnitude is the text without that
/// sign, or the whole text when there is no sign.
pub fn split_szi(szi: &str) -> (r: (bool, String))
    ensures
        r.0 == !(szi@.len() > 0 && szi@[0] == '-'),
        r.1@ == (if szi@.len() > 0 && szi@[0] == '-' {
            szi@.drop_first()
        } else {
            szi@
        }),
{
    let v = chars_of(szi);
    if v.len() > 0 && v[0] == '-' {
        let rest = string_from_chars(v.as_slice(), 1, v.len());
        assert(v@.subrange(1, v@.len() as int) =~= szi@.drop_first());
        (false, rest)
    } else {
        let all = string_from_chars(v.as_slice(), 0, v.len());
        assert(v@.subrange(0, v@.len() as int) =~= szi@);
        (true, all)
    }
}

/// How a take-profit or stop-loss order closes a position: its side, and
/// whether its trigger lies above the entry price.
#[derive(Clone, Copy, Debug, PartialEq, Eq, Structural)]
pub struct ClosePlan {
    pub is_buy: bool,
    pub above_entry: bool,
}

/// The plan of a `kind` trigger order on a long (`position_is_long`) or
/// short position: it trades against the position; a take profit lies
/// above the entry of a long and below that of a short, a stop loss the
/// other way round.
pub fn close_plan(kind: TriggerType, position_is_long: bool) -> (r: ClosePlan)
    ensures
        r.is_buy == !position_is_long,
        r.above_entry == ((kind == TriggerType::Tp) == position_is_long),
{
    let is_tp = match kind {
        TriggerType::Tp => true,
        TriggerType::Sl => false,
    };
    ClosePlan { is_buy: !position_is_long, above_entry: is_tp == position_is_long }
}

/// Whether an order side code denotes a buy (`B`).
pub fn is_buy_side(side: &str) -> (r: bool)
    ensures
        r == (side@ == "B"@),
{
    str_eq(side, "B")
}

} // verus!
