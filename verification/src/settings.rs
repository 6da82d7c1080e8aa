//! Sections of the bot's settings file.

use crate::types::MarginType;
use vstd::prelude::*;

verus! {

/// How the default order size is meant.
#[derive(Clone, Copy, Debug, PartialEq, Eq, Structural)]
pub enum SizeType {
    Risk,
    Notional,
}

/// The default order size.
pub struct DefaultSizeConfig {
    pub size_type: SizeType,
    pub value: String,
}

/// The default margin mode.
pub struct DefaultMarginConfig {
    pub value: MarginType,
}

/// The default asset.
pub struct DefaultAssetConfig {
    pub value: String,
}

/// The exchange's API address.
pub struct NetworkConfig {
    pub api: String,
}

} // verus!
