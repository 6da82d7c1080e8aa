//! Order parsing, bookkeeping and decision logic of a command line bot for
//! the Hyperliquid exchange, with contracts checked by Verus.

pub mod config;
pub mod helpers;
pub mod hyperliquid;
pub mod model;
pub mod settings;
pub mod table;
pub mod text;
pub mod types;
