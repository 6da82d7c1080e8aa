//! Market context lookup and the decisions of the two order-following
//! loops: limit chasing and the trailing stop loss.

use crate::model::{
    is_open_position_in, Asset, AssetCtx, AssetPosition, ClearingHouseState, Ctx, UnfilledOrder,
};
use crate::text::{
    spec_contains, spec_to_lowercase, spec_to_uppercase, str_contains, str_eq, to_lowercase,
    to_uppercase,
};
use crate::types::MarginType;
use vstd::prelude::*;

verus! {

// ---------------------------------------------------------------------------
// Market context of an asset
// ---------------------------------------------------------------------------

/// Asset `a` is named `up` once upper-cased.
pub open spec fn names_asset(a: Asset, up: Seq<char>) -> bool {
    spec_to_uppercase(a.name@) == up
}

/// The index of the first asset of `u` from `i` on that is named `up` once
/// upper-cased, or `u.len()` if there is none.
pub open spec fn first_asset_from(u: Seq<Asset>, up: Seq<char>, i: int) -> int
    decreases u.len() - i,
{
    if i >= u.len() {
        u.len() as int
    } else if names_asset(u[i], up) {
        i
    } else {
        first_asset_from(u, up, i + 1)
    }
}

/// `first_asset_from` finds the first match at or after `i`.
pub proof fn lemma_first_asset_from(u: Seq<Asset>, up: Seq<char>, i: int)
    requires
        0 <= i <= u.len(),
    ensures
        i <= first_asset_from(u, up, i) <= u.len(),
        first_asset_from(u, up, i) < u.len() ==> names_asset(
            u[first_asset_from(u, up, i)],
            up,
        ),
        forall|j: int| i <= j < first_asset_from(u, up, i) ==> !names_asset(#[trigger] u[j], up),
    decreases u.len() - i,
{
    if i < u.len() && !names_asset(u[i], up) {
        lemma_first_asset_from(u, up, i + 1);
    }
}

/// Looking up an asset compares upper-cased names on both sides: the
/// lookup lands on the first asset whose upper-cased name equals the
/// upper-cased query, or past the end when there is none.
pub proof fn lemma_asset_lookup_compares_upper_cased_names(u: Seq<Asset>, query: Seq<char>)
    ensures
        0 <= first_asset_from(u, spec_to_uppercase(query), 0) <= u.len(),
        first_asset_from(u, spec_to_uppercase(query), 0) < u.len() ==> spec_to_uppercase(
            u[first_asset_from(u, spec_to_uppercase(query), 0)].name@,
        ) == spec_to_uppercase(query),
        forall|j: int|
            0 <= j < first_asset_from(u, spec_to_uppercase(query), 0) ==> spec_to_uppercase(
                (#[trigger] u[j]).name@,
            ) != spec_to_uppercase(query),
{
    lemma_first_asset_from(u, spec_to_uppercase(query), 0);
    let p = first_asset_from(u, spec_to_uppercase(query), 0);
    assert forall|j: int| 0 <= j < p implies spec_to_uppercase((#[trigger] u[j]).name@)
        != spec_to_uppercase(query) by {
        assert(!names_asset(u[j], spec_to_uppercase(query)));
    }
}

/// The list of assets that a `metaAndAssetCtxs` answer starts with, if it
/// starts with one.
pub open spec fn leading_universe(ctxs: Seq<AssetCtx>) -> Option<Seq<Asset>> {
    if ctxs.len() >= 1 {
        match ctxs[0] {
            AssetCtx::Universe(u) => Some(u.universe@),
            _ => None,
        }
    } else {
        None
    }
}

/// The answer lists `asset` (in any case) wherever it starts with a list of
/// assets.
pub open spec fn asset_listed(ctxs: Seq<AssetCtx>, asset: Seq<char>) -> bool {
    match leading_universe(ctxs) {
        Some(u) => exists|i: int| 0 <= i < u.len() && names_asset(u[i], spec_to_uppercase(asset)),
        None => true,
    }
}

/// The market context of `asset` in a `metaAndAssetCtxs` answer: the
/// answer must start with the list of assets and go on with the list of
/// contexts; the context is the one at the position of the first asset
/// named like `asset` (in any case).
pub open spec fn spec_asset_ctx(ctxs: Seq<AssetCtx>, asset: Seq<char>) -> Option<Ctx> {
    match leading_universe(ctxs) {
        None => None,
        Some(u) => {
            let p = first_asset_from(u, spec_to_uppercase(asset), 0);
            if ctxs.len() >= 2 {
                match ctxs[1] {
                    AssetCtx::Ctx(cs) => if p < u.len() && p < cs@.len() {
                        Some(cs@[p])
                    } else {
                        None
                    },
                    _ => None,
                }
            } else {
                None
            }
        },
    }
}

/// `cs[p]` is the context of the first asset of `u` whose upper-cased name
/// is the upper-cased `query`.
pub open spec fn is_context_of_first_match(u: Seq<Asset>, cs: Seq<Ctx>, query: Seq<char>, p: int, c: Ctx) -> bool {
    &&& 0 <= p < u.len()
    &&& p < cs.len()
    &&& c == cs[p]
    &&& spec_to_uppercase(u[p].name@) == spec_to_uppercase(query)
    &&& forall|j: int| 0 <= j < p ==> spec_to_uppercase((#[trigger] u[j]).name@) != spec_to_uppercase(query)
}

/// The market context of an asset is the context at the position of the
/// first asset named like it, case aside, in an answer made of the list of
/// assets and the list of contexts; there is none exactly when the answer
/// has another shape or no such context exists.
pub proof fn lemma_asset_ctx_is_context_at_first_match(ctxs: Seq<AssetCtx>, query: Seq<char>)
    ensures
        spec_asset_ctx(ctxs, query) is Some ==> leading_universe(ctxs) is Some && ctx_list(ctxs) is Some
            && exists|p: int|
            #[trigger] is_context_of_first_match(
                leading_universe(ctxs)->0,
                ctx_list(ctxs)->0,
                query,
                p,
                spec_asset_ctx(ctxs, query)->0,
            ),
        spec_asset_ctx(ctxs, query) is None && leading_universe(ctxs) is Some && ctx_list(ctxs) is Some
            ==> !exists|p: int, c: Ctx|
            is_context_of_first_match(leading_universe(ctxs)->0, ctx_list(ctxs)->0, query, p, c),
{
    if ctxs.len() >= 2 && ctxs[0] is Universe && ctxs[1] is Ctx {
        let u = ctxs[0]->Universe_0;
        let cs = ctxs[1]->Ctx_0;
        assert(ctxs[0] == AssetCtx::Universe(u));
        assert(ctxs[1] == AssetCtx::Ctx(cs));
        let us = u.universe@;
        lemma_asset_lookup_compares_upper_cased_names(us, query);
        let p = first_asset_from(us, spec_to_uppercase(query), 0);
        assert(leading_universe(ctxs) == Some(us));
        assert(ctx_list(ctxs) == Some(cs@));
        if p < us.len() && p < cs@.len() {
            assert(spec_asset_ctx(ctxs, query) == Some(cs@[p]));
            assert(is_context_of_first_match(us, cs@, query, p, cs@[p]));
            assert(is_context_of_first_match(
                leading_universe(ctxs)->0,
                ctx_list(ctxs)->0,
                query,
                p,
                spec_asset_ctx(ctxs, query)->0,
            ));

        } else {
            assert(spec_asset_ctx(ctxs, query) is None);
            if exists|q: int, c: Ctx| is_context_of_first_match(us, cs@, query, q, c) {
                let (q, c) = choose|q: int, c: Ctx| is_context_of_first_match(us, cs@, query, q, c);
                if p < q {
                    assert(spec_to_uppercase(us[p].name@) != spec_to_uppercase(query));
                } else if q < p {
                    assert(spec_to_uppercase(us[q].name@) != spec_to_uppercase(query));
                }
                assert(false);
            }

        }
    } else {
        assert(spec_asset_ctx(ctxs, query) is None);
        assert(leading_universe(ctxs) is None || ctx_list(ctxs) is None);
    }
}

/// The position of the first asset of `assets` named like `asset` (in any
/// case), if there is one.
pub fn asset_position(assets: &Vec<Asset>, asset: &str) -> (r: Option<usize>)
    ensures
        match r {
            Some(i) => i as int == first_asset_from(assets@, spec_to_uppercase(asset@), 0) && i
                < assets@.len(),
            None => first_asset_from(assets@, spec_to_uppercase(asset@), 0) == assets@.len(),
        },
{
    let up = to_uppercase(asset);
    let ghost upv = spec_to_uppercase(asset@);
    let n = assets.len();
    let mut i: usize = 0;
    while i < n
        invariant
            i <= n,
            n == assets@.len(),
            up@ == upv,
            upv == spec_to_uppercase(asset@),
            first_asset_from(assets@, upv, 0) == first_asset_from(assets@, upv, i as int),
        decreases n - i,
    {
        let name = to_uppercase(assets[i].name.as_str());
        if name == up {
            assert(names_asset(assets@[i as int], upv));
            assert(first_asset_from(assets@, upv, i as int) == i);
            return Some(i);
        }
        i += 1;
    }
    None
}

/// The market context of `asset`; the answer must list it if it starts
/// with a list of assets.
pub fn asset_ctx<'a>(asset_ctxs: &'a Vec<AssetCtx>, asset: &str) -> (r: Option<&'a Ctx>)
    requires
        asset_listed(asset_ctxs@, asset@),
    ensures
        match r {
            Some(c) => spec_asset_ctx(asset_ctxs@, asset@) == Some(*c),
            None => spec_asset_ctx(asset_ctxs@, asset@) is None,
        },
{
    if asset_ctxs.len() < 1 {
        return None;
    }
    let universe = match &asset_ctxs[0] {
        AssetCtx::Universe(universe) => universe,
        _ => {
            return None;
        },
    };
    let ghost up = spec_to_uppercase(asset@);
    proof {
        lemma_first_asset_from(universe.universe@, up, 0);
    }
    let position = match asset_position(&universe.universe, asset) {
        Some(p) => p,
        None => {
            return None;
        },
    };
    if asset_ctxs.len() < 2 {
        return None;
    }
    let ctxs = match &asset_ctxs[1] {
        AssetCtx::Ctx(ctxs) => ctxs,
        _ => {
            return None;
        },
    };
    if position < ctxs.len() {
        Some(&ctxs[position])
    } else {
        None
    }
}

/// The list of contexts that the answer goes on with, if it does.
pub open spec fn ctx_list(ctxs: Seq<AssetCtx>) -> Option<Seq<Ctx>> {
    if ctxs.len() >= 2 {
        match ctxs[1] {
            AssetCtx::Ctx(cs) => Some(cs@),
            _ => None,
        }
    } else {
        None
    }
}

/// The answer lists `asset` and goes on with a list of contexts, but that
/// list ends before the asset's position.
pub open spec fn ctx_out_of_range(ctxs: Seq<AssetCtx>, asset: Seq<char>) -> bool {
    match (leading_universe(ctxs), ctx_list(ctxs)) {
        (Some(u), Some(cs)) => {
            let p = first_asset_from(u, spec_to_uppercase(asset), 0);
            p < u.len() && p >= cs.len()
        },
        _ => false,
    }
}

/// The market context of `asset`, as the info client looks it up: the
/// error `Asset not found` where the answer starts with a list of assets
/// that does not hold it, and `Asset context not found` where the list of
/// contexts ends before the asset's position; `Ok(None)` where the answer
/// has another shape.
pub fn try_asset_ctx<'a>(asset_ctxs: &'a Vec<AssetCtx>, asset: &str) -> (r: Result<
    Option<&'a Ctx>,
    String,
>)
    ensures
        match r {
            Ok(Some(c)) => asset_listed(asset_ctxs@, asset@) && !ctx_out_of_range(
                asset_ctxs@,
                asset@,
            ) && spec_asset_ctx(asset_ctxs@, asset@) == Some(*c),
            Ok(None) => asset_listed(asset_ctxs@, asset@) && !ctx_out_of_range(
                asset_ctxs@,
                asset@,
            ) && spec_asset_ctx(asset_ctxs@, asset@) is None,
            Err(e) => (!asset_listed(asset_ctxs@, asset@) && e@ == "Asset not found"@) || (
            asset_listed(asset_ctxs@, asset@) && ctx_out_of_range(asset_ctxs@, asset@) && e@
                == "Asset context not found"@),
        },
{
    if asset_ctxs.len() >= 1 {
        if let AssetCtx::Universe(universe) = &asset_ctxs[0] {
            let ghost up = spec_to_uppercase(asset@);
            proof {
                lemma_first_asset_from(universe.universe@, up, 0);
            }
            match asset_position(&universe.universe, asset) {
                None => {
                    return Err(String::from_str("Asset not found"));
                },
                Some(p) => {
                    if asset_ctxs.len() >= 2 {
                        if let AssetCtx::Ctx(ctxs) = &asset_ctxs[1] {
                            if p >= ctxs.len() {
                                return Err(String::from_str("Asset context not found"));
                            }
                        }
                    }
                },
            }
        }
    }
    Ok(asset_ctx(asset_ctxs, asset))
}

// ---------------------------------------------------------------------------
// Answers to modify and cancel requests
// ---------------------------------------------------------------------------

/// The status of one order in the answer to a modify request.
pub enum ModifyStatus {
    Filled(u64),
    Resting(u64),
    Error(String),
}

/// The status of one order in the answer to a cancel request.
pub enum CancelStatus {
    Success,
    Error(String),
}

/// The answer to a request: it could not be made, the exchange refused it,
/// or the exchange accepted it with one status per order.
pub enum Outcome<S> {
    RequestFailed,
    Refused,
    Accepted(Vec<S>),
}

/// The error the exchange gives when modifying an order that was filled or
/// canceled meanwhile.
pub open spec fn already_done_message() -> Seq<char> {
    "Cannot modify canceled or filled order"@
}

/// Whether a modify error says the order is already filled or canceled.
fn says_already_done(msg: &String) -> (r: bool)
    ensures
        r == spec_contains(msg@, already_done_message()),
{
    str_contains(msg.as_str(), "Cannot modify canceled or filled order")
}

// ---------------------------------------------------------------------------
// Limit chasing
// ---------------------------------------------------------------------------

/// Attempts after which a chase places a market order.
pub const MAX_CHASE_COUNT: i32 = 100;

/// Seconds after which a chase places a market order.
pub const MAX_CHASE_DURATION: u64 = 60;

/// The order id and the "already filled" flag after the statuses `s` of a
/// chase's modify request, starting from `oid` and `filled`: a filled or
/// resting order gives its id; an error sets the flag to whether it says
/// the order is already done.
pub open spec fn chase_statuses(oid: u64, filled: bool, s: Seq<ModifyStatus>) -> (u64, bool)
    decreases s.len(),
{
    if s.len() == 0 {
        (oid, filled)
    } else {
        let p = chase_statuses(oid, filled, s.drop_last());
        match s.last() {
            ModifyStatus::Filled(x) => (x, p.1),
            ModifyStatus::Resting(x) => (x, p.1),
            ModifyStatus::Error(m) => (p.0, spec_contains(m@, already_done_message())),
        }
    }
}

/// The order id a chase ends up with is the one it started from or one the
/// exchange reported in a status.
pub proof fn lemma_chase_oid_reported(oid: u64, filled: bool, s: Seq<ModifyStatus>)
    ensures
        chase_statuses(oid, filled, s).0 == oid || exists|i: int|
            0 <= i < s.len() && (s[i] == ModifyStatus::Filled(chase_statuses(oid, filled, s).0)
                || s[i] == ModifyStatus::Resting(chase_statuses(oid, filled, s).0)),
    decreases s.len(),
{
    if s.len() > 0 {
        lemma_chase_oid_reported(oid, filled, s.drop_last());
        let p = chase_statuses(oid, filled, s.drop_last());
        if chase_statuses(oid, filled, s).0 == p.0 && p.0 != oid {
            let i = choose|i: int|
                0 <= i < s.drop_last().len() && (s.drop_last()[i] == ModifyStatus::Filled(p.0)
                    || s.drop_last()[i] == ModifyStatus::Resting(p.0));
            assert(s[i] == s.drop_last()[i]);
        }
    }
}

/// Status `st` is an error saying the order is already canceled or filled.
pub open spec fn is_done_error(st: ModifyStatus) -> bool {
    match st {
        ModifyStatus::Error(m) => spec_contains(m@, "Cannot modify canceled or filled order"@),
        _ => false,
    }
}

/// After the statuses `s` of a chase's modify request, the order counts as
/// done exactly when the last error status says it is already canceled or
/// filled.
pub proof fn lemma_chase_done_exactly_on_done_error(oid: u64, s: Seq<ModifyStatus>)
    ensures
        chase_statuses(oid, false, s).1 <==> exists|i: int|
            0 <= i < s.len() && is_done_error(#[trigger] s[i]) && forall|j: int|
                i < j < s.len() ==> !(s[j] is Error),
    decreases s.len(),
{
    if s.len() > 0 {
        let t = s.drop_last();
        let n = s.len() - 1;
        lemma_chase_done_exactly_on_done_error(oid, t);
        if s[n] is Error {
            if chase_statuses(oid, false, s).1 {
                assert(is_done_error(s[n]));
            }
            if exists|i: int|
                0 <= i < s.len() && is_done_error(#[trigger] s[i]) && forall|j: int|
                    i < j < s.len() ==> !(s[j] is Error) {
                let i = choose|i: int|
                    0 <= i < s.len() && is_done_error(#[trigger] s[i]) && forall|j: int|
                        i < j < s.len() ==> !(s[j] is Error);
                if i < n {
                    assert(!(s[n] is Error));
                }
            }
        } else {
            if chase_statuses(oid, false, t).1 {
                let i = choose|i: int|
                    0 <= i < t.len() && is_done_error(#[trigger] t[i]) && forall|j: int|
                        i < j < t.len() ==> !(t[j] is Error);
                assert(s[i] == t[i]);
                assert forall|j: int| i < j < s.len() implies !(s[j] is Error) by {
                    if j < n {
                        assert(s[j] == t[j]);
                    }
                }
            }
            if exists|i: int|
                0 <= i < s.len() && is_done_error(#[trigger] s[i]) && forall|j: int|
                    i < j < s.len() ==> !(s[j] is Error) {
                let i = choose|i: int|
                    0 <= i < s.len() && is_done_error(#[trigger] s[i]) && forall|j: int|
                        i < j < s.len() ==> !(s[j] is Error);
                assert(i < n);
                assert(t[i] == s[i]);
                assert forall|j: int| i < j < t.len() implies !(t[j] is Error) by {
                    assert(s[j] == t[j]);
                }
            }
        }
    }
}

/// After the statuses `s` of a chase's modify request, the order id is that
/// of the last filled or resting status, or the one the chase started from
/// when there is none.
pub proof fn lemma_chase_oid_is_last_reported(oid: u64, filled: bool, s: Seq<ModifyStatus>)
    ensures
        (forall|j: int| 0 <= j < s.len() ==> (s[j] is Error)) ==> chase_statuses(
            oid,
            filled,
            s,
        ).0 == oid,
        forall|i: int|
            0 <= i < s.len() && (forall|j: int| i < j < s.len() ==> (s[j] is Error)) ==> match #[trigger] s[i] {
                ModifyStatus::Filled(x) => chase_statuses(oid, filled, s).0 == x,
                ModifyStatus::Resting(x) => chase_statuses(oid, filled, s).0 == x,
                ModifyStatus::Error(_) => true,
            },
    decreases s.len(),
{
    if s.len() > 0 {
        let t = s.drop_last();
        let n = s.len() - 1;
        lemma_chase_oid_is_last_reported(oid, filled, t);
        assert forall|i: int|
            0 <= i < s.len() && (forall|j: int| i < j < s.len() ==> (s[j] is Error)) implies match #[trigger] s[i] {
                ModifyStatus::Filled(x) => chase_statuses(oid, filled, s).0 == x,
                ModifyStatus::Resting(x) => chase_statuses(oid, filled, s).0 == x,
                ModifyStatus::Error(_) => true,
            } by {
            if i < n {
                assert(s[n] is Error);
                assert(t[i] == s[i]);
                assert forall|j: int| i < j < t.len() implies (t[j] is Error) by {
                    assert(t[j] == s[j]);
                }
            }
        }
        if forall|j: int| 0 <= j < s.len() ==> (s[j] is Error) {
            assert(s[n] is Error);
            assert forall|j: int| 0 <= j < t.len() implies (t[j] is Error) by {
                assert(t[j] == s[j]);
            }
        }
    }
}

/// The state of a limit chase: the id of the chased order and the number of
/// the current attempt.
#[derive(Clone, Copy, Debug, PartialEq, Eq, Structural)]
pub struct LimitChase {
    pub oid: u64,
    pub loop_count: i32,
}

/// What a chase does after an attempt: stop with the final order id (or
/// none), or go on with a new state.
pub enum ChaseStep {
    Stop(Option<u64>),
    Continue(LimitChase),
}

/// A chase places a market order at the latest at its attempt past the
/// maximum count, and goes on only from an attempt within the count.
pub proof fn lemma_chase_bounded(c: LimitChase, elapsed_secs: u64, past_discard: bool)
    requires
        c.wf(),
    ensures
        c.loop_count == MAX_CHASE_COUNT + 1 ==> c.spec_is_market(elapsed_secs, past_discard),
        !c.spec_is_market(elapsed_secs, past_discard) ==> c.loop_count <= MAX_CHASE_COUNT,
{
}

impl LimitChase {
    /// The attempt number is between 1 and one past the maximum.
    pub open spec fn wf(&self) -> bool {
        1 <= self.loop_count <= MAX_CHASE_COUNT + 1
    }

    /// Whether the attempt places a market order.
    pub open spec fn spec_is_market(&self, elapsed_secs: u64, past_discard: bool) -> bool {
        self.loop_count > MAX_CHASE_COUNT || elapsed_secs > MAX_CHASE_DURATION || past_discard
    }

    /// A chase of order `oid`, at its first attempt.
    pub fn new(oid: u64) -> (r: LimitChase)
        ensures
            r.oid == oid,
            r.loop_count == 1,
            r.wf(),
    {
        LimitChase { oid, loop_count: 1 }
    }

    /// Whether this attempt gives up chasing and places a market order:
    /// after too many attempts, after too long, or when the market price is
    /// past the discard price (`past_discard`).
    pub fn is_market(&self, elapsed_secs: u64, past_discard: bool) -> (r: bool)
        ensures
            r == self.spec_is_market(elapsed_secs, past_discard),
    {
        self.loop_count > MAX_CHASE_COUNT || elapsed_secs > MAX_CHASE_DURATION || past_discard
    }

    /// The next step after the answer to this attempt's modify request. A
    /// request that fails or is refused ends the chase without an order;
    /// an accepted one ends it with the last order id when the attempt was
    /// a market order or the order turned out to be done already.
    pub fn after_modify(self, is_market: bool, outcome: Outcome<ModifyStatus>) -> (r: ChaseStep)
        requires
            self.wf(),
            is_market || self.loop_count <= MAX_CHASE_COUNT,
        ensures
            match outcome {
                Outcome::RequestFailed => r == ChaseStep::Stop(None),
                Outcome::Refused => r == ChaseStep::Stop(None),
                Outcome::Accepted(s) => {
                    let (oid, filled) = chase_statuses(self.oid, false, s@);
                    if is_market || filled {
                        r == ChaseStep::Stop(Some(oid))
                    } else {
                        r == ChaseStep::Continue(
                            LimitChase { oid, loop_count: (self.loop_count + 1) as i32 },
                        )
                    }
                },
            },
            r matches ChaseStep::Continue(next) ==> next.wf() && next.loop_count
                == self.loop_count + 1,
    {
        match outcome {
            Outcome::RequestFailed => ChaseStep::Stop(None),
            Outcome::Refused => ChaseStep::Stop(None),
            Outcome::Accepted(statuses) => {
                let mut oid = self.oid;
                let mut filled = false;
                let mut i: usize = 0;
                assert(statuses@.take(0) =~= Seq::<ModifyStatus>::empty());
                while i < statuses.len()
                    invariant
                        i <= statuses@.len(),
                        (oid, filled) == chase_statuses(self.oid, false, statuses@.take(i as int)),
                    decreases statuses@.len() - i,
                {
                    assert(statuses@.take(i + 1).drop_last() =~= statuses@.take(i as int));
                    match &statuses[i] {
                        ModifyStatus::Filled(x) => {
                            oid = *x;
                        },
                        ModifyStatus::Resting(x) => {
                            oid = *x;
                        },
                        ModifyStatus::Error(msg) => {
                            filled = says_already_done(msg);
                        },
                    }
                    i += 1;
                }
                assert(statuses@.take(statuses@.len() as int) =~= statuses@);
                if is_market || filled {
                    ChaseStep::Stop(Some(oid))
                } else {
                    ChaseStep::Continue(LimitChase { oid, loop_count: self.loop_count + 1 })
                }
            },
        }
    }
}

// ---------------------------------------------------------------------------
// Trailing stop loss
// ---------------------------------------------------------------------------

/// Times the trailing order may be missing from the open orders before the
/// trailing stop gives up.
pub const MAX_TSL_CHECK_COUNT: u64 = 5;

/// The trailing order id and the "already filled" flag after the statuses
/// `s` of a trailing stop's modify request: a resting order gives its id; a
/// filled one changes nothing; an error sets the flag to whether it says
/// the order is already done.
pub open spec fn trail_statuses(oid: u64, filled: bool, s: Seq<ModifyStatus>) -> (u64, bool)
    decreases s.len(),
{
    if s.len() == 0 {
        (oid, filled)
    } else {
        let p = trail_statuses(oid, filled, s.drop_last());
        match s.last() {
            ModifyStatus::Filled(_) => p,
            ModifyStatus::Resting(x) => (x, p.1),
            ModifyStatus::Error(m) => (p.0, spec_contains(m@, already_done_message())),
        }
    }
}

/// After the statuses `s` of a trailing stop's modify request, the trailing
/// stop ends exactly when the last error status says it is already canceled or
/// filled.
pub proof fn lemma_trail_done_exactly_on_done_error(oid: u64, s: Seq<ModifyStatus>)
    ensures
        trail_statuses(oid, false, s).1 <==> exists|i: int|
            0 <= i < s.len() && is_done_error(#[trigger] s[i]) && forall|j: int|
                i < j < s.len() ==> !(s[j] is Error),
    decreases s.len(),
{
    if s.len() > 0 {
        let t = s.drop_last();
        let n = s.len() - 1;
        lemma_trail_done_exactly_on_done_error(oid, t);
        if s[n] is Error {
            if trail_statuses(oid, false, s).1 {
                assert(is_done_error(s[n]));
            }
            if exists|i: int|
                0 <= i < s.len() && is_done_error(#[trigger] s[i]) && forall|j: int|
                    i < j < s.len() ==> !(s[j] is Error) {
                let i = choose|i: int|
                    0 <= i < s.len() && is_done_error(#[trigger] s[i]) && forall|j: int|
                        i < j < s.len() ==> !(s[j] is Error);
                if i < n {
                    assert(!(s[n] is Error));
                }
            }
        } else {
            if trail_statuses(oid, false, t).1 {
                let i = choose|i: int|
                    0 <= i < t.len() && is_done_error(#[trigger] t[i]) && forall|j: int|
                        i < j < t.len() ==> !(t[j] is Error);
                assert(s[i] == t[i]);
                assert forall|j: int| i < j < s.len() implies !(s[j] is Error) by {
                    if j < n {
                        assert(s[j] == t[j]);
                    }
                }
            }
            if exists|i: int|
                0 <= i < s.len() && is_done_error(#[trigger] s[i]) && forall|j: int|
                    i < j < s.len() ==> !(s[j] is Error) {
                let i = choose|i: int|
                    0 <= i < s.len() && is_done_error(#[trigger] s[i]) && forall|j: int|
                        i < j < s.len() ==> !(s[j] is Error);
                assert(i < n);
                assert(t[i] == s[i]);
                assert forall|j: int| i < j < t.len() implies !(t[j] is Error) by {
                    assert(s[j] == t[j]);
                }
            }
        }
    }
}

/// After the statuses `s` of a trailing stop's modify request, the
/// trailing order id is that of the last resting status, or the one it
/// had when there is none: filled statuses and errors leave it unchanged.
pub proof fn lemma_trail_oid_is_last_resting(oid: u64, filled: bool, s: Seq<ModifyStatus>)
    ensures
        (forall|j: int| 0 <= j < s.len() ==> !(s[j] is Resting)) ==> trail_statuses(
            oid,
            filled,
            s,
        ).0 == oid,
        forall|i: int|
            0 <= i < s.len() && (forall|j: int| i < j < s.len() ==> !(s[j] is Resting)) ==> match #[trigger] s[i] {
                ModifyStatus::Resting(x) => trail_statuses(oid, filled, s).0 == x,
                _ => true,
            },
    decreases s.len(),
{
    if s.len() > 0 {
        let t = s.drop_last();
        let n = s.len() - 1;
        lemma_trail_oid_is_last_resting(oid, filled, t);
        assert forall|i: int|
            0 <= i < s.len() && (forall|j: int| i < j < s.len() ==> !(s[j] is Resting)) implies match #[trigger] s[i] {
                ModifyStatus::Resting(x) => trail_statuses(oid, filled, s).0 == x,
                _ => true,
            } by {
            if i < n {
                assert(!(s[n] is Resting));
                assert(t[i] == s[i]);
                assert forall|j: int| i < j < t.len() implies !(t[j] is Resting) by {
                    assert(t[j] == s[j]);
                }
            }
        }
        if forall|j: int| 0 <= j < s.len() ==> !(s[j] is Resting) {
            assert(!(s[n] is Resting));
            assert forall|j: int| 0 <= j < t.len() implies !(t[j] is Resting) by {
                assert(t[j] == s[j]);
            }
        }
    }
}

/// The state of a trailing stop loss: whether the parent order is filled,
/// the id of the trailing order, and how many times it was missing.
#[derive(Clone, Copy, Debug, PartialEq, Eq, Structural)]
pub struct TrailingStop {
    pub is_filled: bool,
    pub oid: u64,
    pub tsl_check_count: u64,
}

/// What the trailing stop does after learning the parent order's status.
pub enum ParentAction {
    /// The parent was canceled: cancel the trailing order.
    CancelTrailing,
    /// The parent is filled: look up its fill price.
    FetchEntry,
    /// Check again later.
    Wait,
}

/// What the trailing stop does after looking for the trailing order.
pub enum TrailLookup {
    /// The order is there: go on adjusting it.
    Adjust,
    /// The order is missing: check again later with the new state.
    Retry(TrailingStop),
    /// The order was missing too often: stop.
    GiveUp,
}

impl TrailingStop {
    /// The miss count is below the limit.
    pub open spec fn wf(&self) -> bool {
        self.tsl_check_count < MAX_TSL_CHECK_COUNT
    }

    /// A trailing stop for trailing order `oid` whose parent is not known to
    /// be filled yet.
    pub fn new(oid: u64) -> (r: TrailingStop)
        ensures
            r == (TrailingStop { is_filled: false, oid, tsl_check_count: 0 }),
            r.wf(),
    {
        TrailingStop { is_filled: false, oid, tsl_check_count: 0 }
    }

    /// The new state and the action after the parent order's status
    /// (`None` when the exchange does not know the order): `filled` marks
    /// the parent filled; `canceled` cancels the trailing order.
    pub fn on_parent_status(self, status: Option<&str>) -> (r: (TrailingStop, ParentAction))
        ensures
            match status {
                None => r.0 == self && r.1 is Wait,
                Some(s) => {
                    &&& r.0 == (TrailingStop { is_filled: s@ == "filled"@, ..self })
                    &&& (s@ == "canceled"@ ==> r.1 is CancelTrailing)
                    &&& (s@ != "canceled"@ && s@ == "filled"@ ==> r.1 is FetchEntry)
                    &&& (s@ != "canceled"@ && s@ != "filled"@ ==> r.1 is Wait)
                },
            },
    {
        match status {
            None => (self, ParentAction::Wait),
            Some(s) => {
                let is_filled = str_eq(s, "filled");
                let canceled = str_eq(s, "canceled");
                let next = TrailingStop { is_filled, ..self };
                if canceled {
                    (next, ParentAction::CancelTrailing)
                } else if is_filled {
                    (next, ParentAction::FetchEntry)
                } else {
                    (next, ParentAction::Wait)
                }
            },
        }
    }

    /// Whether the trailing stop ends after the answer to the cancel request
    /// of its trailing order: it ends unless the exchange accepted the
    /// request with no status at all.
    pub fn stops_after_cancel(outcome: &Outcome<CancelStatus>) -> (r: bool)
        ensures
            r == match outcome {
                Outcome::Accepted(s) => s@.len() > 0,
                _ => true,
            },
    {
        match outcome {
            Outcome::Accepted(s) => s.len() > 0,
            _ => true,
        }
    }

    /// The step after looking for the trailing order: adjust it when it is
    /// there; otherwise count the miss, and give up at the limit.
    pub open spec fn spec_on_lookup(self, found: bool) -> TrailLookup {
        if found {
            TrailLookup::Adjust
        } else if self.tsl_check_count + 1 >= MAX_TSL_CHECK_COUNT {
            TrailLookup::GiveUp
        } else {
            TrailLookup::Retry(
                TrailingStop { tsl_check_count: (self.tsl_check_count + 1) as u64, ..self },
            )
        }
    }

    /// The step after looking for the trailing order among the open orders.
    pub fn on_lookup(self, found: bool) -> (r: TrailLookup)
        requires
            self.wf(),
        ensures
            r == self.spec_on_lookup(found),
            r matches TrailLookup::Retry(next) ==> next.wf(),
    {
        if found {
            TrailLookup::Adjust
        } else {
            let count = self.tsl_check_count + 1;
            if count >= MAX_TSL_CHECK_COUNT {
                TrailLookup::GiveUp
            } else {
                TrailLookup::Retry(TrailingStop { tsl_check_count: count, ..self })
            }
        }
    }

    /// The state after the answer to the modify request that moved the
    /// trailing order, or `None` when the trailing stop ends: when the
    /// request fails or is refused, or the order turned out to be done.
    pub fn after_modify(self, outcome: Outcome<ModifyStatus>) -> (r: Option<TrailingStop>)
        ensures
            match outcome {
                Outcome::Accepted(s) => {
                    let (oid, filled) = trail_statuses(self.oid, false, s@);
                    if filled {
                        r is None
                    } else {
                        r == Some(TrailingStop { oid, ..self })
                    }
                },
                _ => r is None,
            },
    {
        match outcome {
            Outcome::Accepted(statuses) => {
                let mut oid = self.oid;
                let mut filled = false;
                let mut i: usize = 0;
                assert(statuses@.take(0) =~= Seq::<ModifyStatus>::empty());
                while i < statuses.len()
                    invariant
                        i <= statuses@.len(),
                        (oid, filled) == trail_statuses(self.oid, false, statuses@.take(i as int)),
                    decreases statuses@.len() - i,
                {
                    assert(statuses@.take(i + 1).drop_last() =~= statuses@.take(i as int));
                    match &statuses[i] {
                        ModifyStatus::Filled(_) => {},
                        ModifyStatus::Resting(x) => {
                            oid = *x;
                        },
                        ModifyStatus::Error(msg) => {
                            filled = says_already_done(msg);
                        },
                    }
                    i += 1;
                }
                assert(statuses@.take(statuses@.len() as int) =~= statuses@);
                if filled {
                    None
                } else {
                    Some(TrailingStop { oid, ..self })
                }
            },
            _ => None,
        }
    }
}

/// The state after `k` consecutive checks that miss the trailing order,
/// or `None` once the trailing stop has given up.
pub open spec fn after_misses(st: TrailingStop, k: nat) -> Option<TrailingStop>
    decreases k,
{
    if k == 0 {
        Some(st)
    } else {
        match after_misses(st, (k - 1) as nat) {
            Some(s) => match s.spec_on_lookup(false) {
                TrailLookup::Retry(n) => Some(n),
                _ => None,
            },
            None => None,
        }
    }
}

/// A trailing stop whose order keeps missing gives up exactly when the
/// misses reach the limit: after `k` misses it is still running, with `k`
/// more misses counted, if and only if the count stays below the limit.
pub proof fn lemma_trailing_gives_up_after_max_misses(st: TrailingStop, k: nat)
    requires
        st.wf(),
    ensures
        after_misses(st, k) is Some <==> st.tsl_check_count + k < MAX_TSL_CHECK_COUNT,
        after_misses(st, k) matches Some(s) ==> s == (TrailingStop {
            tsl_check_count: (st.tsl_check_count + k) as u64,
            ..st
        }),
    decreases k,
{
    if k > 0 {
        lemma_trailing_gives_up_after_max_misses(st, (k - 1) as nat);
    }
}

/// A fill of one of the user's orders.
pub struct UserFill {
    pub oid: u64,
    pub px: String,
}

/// The index of the first fill of order `oid`, if any.
pub fn find_fill(fills: &Vec<UserFill>, oid: u64) -> (r: Option<usize>)
    ensures
        match r {
            Some(i) => i < fills@.len() && fills@[i as int].oid == oid && forall|j: int|
                0 <= j < i ==> (#[trigger] fills@[j]).oid != oid,
            None => forall|j: int| 0 <= j < fills@.len() ==> (#[trigger] fills@[j]).oid != oid,
        },
{
    let mut i: usize = 0;
    while i < fills.len()
        invariant
            i <= fills@.len(),
            forall|j: int| 0 <= j < i ==> (#[trigger] fills@[j]).oid != oid,
        decreases fills@.len() - i,
    {
        if fills[i].oid == oid {
            return Some(i);
        }
        i += 1;
    }
    None
}

/// The index of the first open order with id `oid`, if any.
pub fn find_open_order(orders: &Vec<UnfilledOrder>, oid: u64) -> (r: Option<usize>)
    ensures
        match r {
            Some(i) => i < orders@.len() && orders@[i as int].oid == oid && forall|j: int|
                0 <= j < i ==> (#[trigger] orders@[j]).oid != oid,
            None => forall|j: int| 0 <= j < orders@.len() ==> (#[trigger] orders@[j]).oid != oid,
        },
{
    let mut i: usize = 0;
    while i < orders.len()
        invariant
            i <= orders@.len(),
            forall|j: int| 0 <= j < i ==> (#[trigger] orders@[j]).oid != oid,
        decreases orders@.len() - i,
    {
        if orders[i].oid == oid {
            return Some(i);
        }
        i += 1;
    }
    None
}


// ---------------------------------------------------------------------------
// Leverage and margin checks before an order
// ---------------------------------------------------------------------------

/// Position `p` is in the asset whose upper-case name is `up`.
pub open spec fn is_position_in(p: AssetPosition, up: Seq<char>) -> bool {
    spec_to_uppercase(p.position.coin@) == up
}

/// A position is in the queried asset exactly when its coin and the query
/// are equal once upper-cased; it is open there when it also has an entry
/// price, whatever its side.
pub proof fn lemma_position_match_is_upper_cased_coin(p: AssetPosition, query: Seq<char>)
    ensures
        is_position_in(p, spec_to_uppercase(query)) <==> spec_to_uppercase(p.position.coin@)
            == spec_to_uppercase(query),
        is_open_position_in(p, spec_to_uppercase(query)) <==> (spec_to_uppercase(
            p.position.coin@,
        ) == spec_to_uppercase(query) && p.position.entry_px is Some),
{
}

/// The name of a margin mode as the exchange writes it.
pub open spec fn margin_name(m: MarginType) -> Seq<char> {
    match m {
        MarginType::Cross => "cross"@,
        MarginType::Isolated => "isolated"@,
    }
}

/// The exchange names cross margin `cross` and isolated margin `isolated`.
pub proof fn lemma_margin_names(m: MarginType)
    ensures
        m == MarginType::Cross ==> margin_name(m) == "cross"@,
        m == MarginType::Isolated ==> margin_name(m) == "isolated"@,
{
}

/// The index of the first position in `asset` (in any case), open or not.
pub fn find_position(state: &ClearingHouseState, asset: &str) -> (r: Option<usize>)
    ensures
        match r {
            Some(i) => i < state.asset_positions@.len() && is_position_in(
                state.asset_positions@[i as int],
                spec_to_uppercase(asset@),
            ) && forall|j: int|
                0 <= j < i ==> !is_position_in(
                    #[trigger] state.asset_positions@[j],
                    spec_to_uppercase(asset@),
                ),
            None => forall|j: int|
                0 <= j < state.asset_positions@.len() ==> !is_position_in(
                    #[trigger] state.asset_positions@[j],
                    spec_to_uppercase(asset@),
                ),
        },
{
    let up = to_uppercase(asset);
    let n = state.asset_positions.len();
    let mut i: usize = 0;
    while i < n
        invariant
            i <= n,
            n == state.asset_positions@.len(),
            up@ == spec_to_uppercase(asset@),
            forall|j: int|
                0 <= j < i ==> !is_position_in(
                    #[trigger] state.asset_positions@[j],
                    spec_to_uppercase(asset@),
                ),
        decreases n - i,
    {
        let coin = to_uppercase(state.asset_positions[i].position.coin.as_str());
        if coin == up {
            return Some(i);
        }
        i += 1;
    }
    None
}

/// Whether the leverage of the position in `asset` must be set to
/// `default_leverage`: with no position, or a position at another leverage.
pub fn needs_leverage_update(state: &ClearingHouseState, asset: &str, default_leverage: u32) -> (r:
    bool)
    ensures
        match find_position_result(state, asset) {
            Some(i) => r == (state.asset_positions@[i].position.leverage.value != default_leverage),
            None => r,
        },
{
    match find_position(state, asset) {
        Some(i) => {
            proof {
                lemma_find_position_result(state, asset, i as int);
            }
            state.asset_positions[i].position.leverage.value != default_leverage
        },
        None => true,
    }
}

/// The index of the first position in `asset` (in any case), if any.
pub open spec fn find_position_result(state: &ClearingHouseState, asset: &str) -> Option<int> {
    let up = spec_to_uppercase(asset@);
    let s = state.asset_positions@;
    if exists|i: int| 0 <= i < s.len() && is_position_in(#[trigger] s[i], up) {
        Some(
            choose|i: int|
                0 <= i < s.len() && is_position_in(#[trigger] s[i], up) && forall|j: int|
                    0 <= j < i ==> !is_position_in(#[trigger] s[j], up),
        )
    } else {
        None
    }
}

/// The first match found by `find_position` is the one
/// `find_position_result` chooses.
proof fn lemma_find_position_result(state: &ClearingHouseState, asset: &str, i: int)
    requires
        0 <= i < state.asset_positions@.len(),
        is_position_in(state.asset_positions@[i], spec_to_uppercase(asset@)),
        forall|j: int|
            0 <= j < i ==> !is_position_in(
                #[trigger] state.asset_positions@[j],
                spec_to_uppercase(asset@),
            ),
    ensures
        find_position_result(state, asset) == Some(i),
{
    let up = spec_to_uppercase(asset@);
    let s = state.asset_positions@;
    let k = choose|k: int|
        0 <= k < s.len() && is_position_in(#[trigger] s[k], up) && forall|j: int|
            0 <= j < k ==> !is_position_in(#[trigger] s[j], up);
    assert(0 <= k < s.len() && is_position_in(s[k], up) && forall|j: int|
        0 <= j < k ==> !is_position_in(#[trigger] s[j], up));
    if k < i {
        assert(!is_position_in(s[k], up));
    }
    if i < k {
        assert(!is_position_in(s[i], up));
    }
}

/// Whether the margin mode of the position in `asset` must be set to `m`:
/// with no position, or a position whose margin type differs from `m`'s
/// name, case aside.
pub fn needs_margin_update(state: &ClearingHouseState, asset: &str, m: MarginType) -> (r: bool)
    ensures
        match find_position_result(state, asset) {
            Some(i) => r == (spec_to_lowercase(state.asset_positions@[i].position.leverage.type_@)
                != spec_to_lowercase(margin_name(m))),
            None => r,
        },
{
    match find_position(state, asset) {
        Some(i) => {
            proof {
                lemma_find_position_result(state, asset, i as int);
            }
            let current = to_lowercase(state.asset_positions[i].position.leverage.type_.as_str());
            let wanted = match m {
                MarginType::Cross => to_lowercase("cross"),
                MarginType::Isolated => to_lowercase("isolated"),
            };
            current != wanted
        },
        None => true,
    }
}

} // verus!
