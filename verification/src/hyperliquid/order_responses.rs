//! The exchange's answer to a placed order.

use vstd::prelude::*;

verus! {

/// The answer to an order request.
pub struct PlaceResponse {
    pub status: String,
    pub response: OrderResponse,
}

/// The response part of an answer.
pub struct OrderResponse {
    pub type_: String,
    pub data: OrderResponseData,
}

/// The statuses of the orders of a request.
pub struct OrderResponseData {
    pub statuses: Vec<OrderStatus>,
}

/// The status of one order.
pub struct OrderStatus {
    pub status: StatusOption,
}

/// Whether an order rests on the book or was filled.
pub enum StatusOption {
    Resting(StatusType),
    Filled(StatusType),
}

/// The id of an order.
pub struct StatusType {
    pub oid: u64,
}

} // verus!
