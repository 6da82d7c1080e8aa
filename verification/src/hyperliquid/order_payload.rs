//! Parts of an order payload.

use vstd::prelude::*;

verus! {

/// An order action: its type, its grouping and its orders, in order.
pub struct OrderPayload<O> {
    pub type_: String,
    pub grouping: String,
    pub orders: Vec<O>,
}

impl<O> OrderPayload<O> {
    /// An ungrouped order action with no order yet.
    pub fn new() -> (r: OrderPayload<O>)
        ensures
            r.type_@ == "order"@,
            r.grouping@ == "na"@,
            r.orders@ == Seq::<O>::empty(),
    {
        OrderPayload {
            type_: String::from_str("order"),
            grouping: String::from_str("na"),
            orders: Vec::new(),
        }
    }

    /// Appends `order` to the action's orders.
    pub fn add_order(&mut self, order: O)
        ensures
            final(self).orders@ == old(self).orders@.push(order),
            final(self).type_ == old(self).type_,
            final(self).grouping == old(self).grouping,
    {
        self.orders.push(order);
    }
}

/// A limit order type with its time in force.
pub struct Limit {
    pub tif: String,
}

impl Limit {
    /// A good-til-cancel limit order type.
    pub fn new() -> (r: Limit)
        ensures
            r.tif@ == "GTC"@,
    {
        Limit { tif: String::from_str("GTC") }
    }
}

} // verus!
