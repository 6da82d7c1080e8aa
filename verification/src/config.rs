//! The user configuration's initial value.

use crate::types::{Chain, Config, MarginType};
use vstd::prelude::*;

verus! {

impl Default for Config {
    /// No key, asset or size; isolated margin; the Arbitrum test network.
    fn default() -> (c: Config)
        ensures
            c.private_key@ == Seq::<char>::empty(),
            c.default_margin == MarginType::Isolated,
            c.default_asset@ == Seq::<char>::empty(),
            c.default_size@ == Seq::<char>::empty(),
            c.chain == Chain::ArbitrumTestnet,
    {
        Config {
            private_key: String::new(),
            default_margin: MarginType::Isolated,
            default_asset: String::new(),
            default_size: String::new(),
            chain: Chain::ArbitrumTestnet,
        }
    }
}

} // verus!
