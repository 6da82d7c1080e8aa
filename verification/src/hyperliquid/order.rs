//! Order actions that open a position with optional take-profit and
//! stop-loss orders.

use crate::hyperliquid::order_payload::OrderPayload;
use vstd::prelude::*;

verus! {

/// The orders of an action opening with `first`, then the take-profit
/// order if any, then the stop-loss order if any.
pub open spec fn spec_bracket<O>(first: O, tp: Option<O>, sl: Option<O>) -> Seq<O> {
    let with_tp = match tp {
        Some(t) => seq![first, t],
        None => seq![first],
    };
    match sl {
        Some(s) => with_tp.push(s),
        None => with_tp,
    }
}

/// An opening action holds the first order, then the take-profit order
/// when there is one, then the stop-loss order when there is one, and
/// nothing else.
pub proof fn lemma_bracket_keeps_every_order<O>(first: O, tp: Option<O>, sl: Option<O>)
    ensures
        spec_bracket(first, tp, sl).len() == 1 + (if tp is Some {
            1int
        } else {
            0
        }) + (if sl is Some {
            1int
        } else {
            0
        }),
        spec_bracket(first, tp, sl)[0] == first,
        tp matches Some(t) ==> spec_bracket(first, tp, sl)[1] == t,
        sl matches Some(x) ==> spec_bracket(first, tp, sl).last() == x,
        tp is None && sl is None ==> spec_bracket(first, tp, sl) == seq![first],
{
}

/// An ungrouped order action of the buy order, then the take-profit order
/// if any, then the stop-loss order if any.
pub fn build_buy_order<O>(buy_order: O, tp_order: Option<O>, sl_order: Option<O>) -> (r:
    OrderPayload<O>)
    ensures
        r.type_@ == "order"@,
        r.grouping@ == "na"@,
        r.orders@ == spec_bracket(buy_order, tp_order, sl_order),
{
    let mut order_payload = OrderPayload::new();
    order_payload.add_order(buy_order);
    if let Some(tp_order) = tp_order {
        order_payload.add_order(tp_order);
    }
    if let Some(sl_order) = sl_order {
        order_payload.add_order(sl_order);
    }
    assert(order_payload.orders@ =~= spec_bracket(buy_order, tp_order, sl_order));
    order_payload
}

/// An ungrouped order action of the sell order, then the take-profit
/// order if any, then the stop-loss order if any.
pub fn build_sell_order<O>(sell_order: O, tp_order: Option<O>, sl_order: Option<O>) -> (r:
    OrderPayload<O>)
    ensures
        r.type_@ == "order"@,
        r.grouping@ == "na"@,
        r.orders@ == spec_bracket(sell_order, tp_order, sl_order),
{
    let mut order_payload = OrderPayload::new();
    order_payload.add_order(sell_order);
    if let Some(tp_order) = tp_order {
        order_payload.add_order(tp_order);
    }
    if let Some(sl_order) = sl_order {
        order_payload.add_order(sl_order);
    }
    assert(order_payload.orders@ =~= spec_bracket(sell_order, tp_order, sl_order));
    order_payload
}

} // verus!
