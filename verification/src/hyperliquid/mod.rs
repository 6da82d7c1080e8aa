//! The exchange client's own logic: market metadata, open orders, order
//! payloads and responses, and the hashes that requests are signed over.

pub mod meta_info;
pub mod open_orders;
pub mod order;
pub mod order_payload;
pub mod order_responses;
pub mod signing;
