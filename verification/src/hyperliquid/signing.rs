//! The hashes that exchange requests are signed over: the Keccak-256 hash
//! of the ABI encoding of the request's action, vault address and nonce.

use crate::model::{spec_order_type_code, OrderTypeKey, Tif, TriggerType};
use ethers::abi::AbiEncode;
use ethers::types::Address;
use vstd::prelude::*;

verus! {

/// The ABI encoding of an order action `(orders, grouping, vault, nonce)`.
pub uninterp spec fn spec_encode_order_action(
    orders: Seq<(u32, bool, u64, u64, bool, u8, u64)>,
    grouping: i32,
    vault: Seq<u8>,
    nonce: u128,
) -> Seq<u8>;

/// The ABI encoding of a leverage action
/// `(asset, is_cross, leverage, vault, nonce)`.
pub uninterp spec fn spec_encode_leverage_action(
    asset: u32,
    is_cross: bool,
    leverage: u32,
    vault: Seq<u8>,
    nonce: u128,
) -> Seq<u8>;

/// The ABI encoding of a cancel action `(cancels, vault, nonce)`, each
/// cancel an `(asset, order id)` pair.
pub uninterp spec fn spec_encode_cancel_action(
    cancels: Seq<(u32, u64)>,
    vault: Seq<u8>,
    nonce: u128,
) -> Seq<u8>;

/// The Keccak-256 hash of `data`.
pub uninterp spec fn spec_keccak256(data: Seq<u8>) -> Seq<u8>;

/// `AbiEncode::encode` (ethers) of the tuple `(orders, grouping, vault,
/// nonce)`, the vault taken as an address: the bytes are named by
/// `spec_encode_order_action`, a function of the arguments alone; the
/// encoding itself is not stated.
#[verifier::external_body]
fn encode_order_action(
    orders: &Vec<(u32, bool, u64, u64, bool, u8, u64)>,
    grouping: i32,
    vault: &Vec<u8>,
    nonce: u128,
) -> (r: Vec<u8>)
    requires
        vault@.len() == 20,
    ensures
        r@ == spec_encode_order_action(orders@, grouping, vault@, nonce),
{
    (orders.clone(), grouping, Address::from_slice(vault), nonce).encode()
}

/// `AbiEncode::encode` (ethers) of the tuple `(asset, is_cross, leverage,
/// vault, nonce)`, the vault taken as an address: the bytes are named by
/// `spec_encode_leverage_action`, a function of the arguments alone; the
/// encoding itself is not stated.
#[verifier::external_body]
fn encode_leverage_action(
    asset: u32,
    is_cross: bool,
    leverage: u32,
    vault: &Vec<u8>,
    nonce: u128,
) -> (r: Vec<u8>)
    requires
        vault@.len() == 20,
    ensures
        r@ == spec_encode_leverage_action(asset, is_cross, leverage, vault@, nonce),
{
    (asset, is_cross, leverage, Address::from_slice(vault), nonce).encode()
}

/// `AbiEncode::encode` (ethers) of the tuple `(cancels, vault, nonce)`, the
/// vault taken as an address: the bytes are named by
/// `spec_encode_cancel_action`, a function of the arguments alone; the
/// encoding itself is not stated.
#[verifier::external_body]
fn encode_cancel_action(cancels: &Vec<(u32, u64)>, vault: &Vec<u8>, nonce: u128) -> (r: Vec<u8>)
    requires
        vault@.len() == 20,
    ensures
        r@ == spec_encode_cancel_action(cancels@, vault@, nonce),
{
    (cancels.clone(), Address::from_slice(vault), nonce).encode()
}

/// `ethers::utils::keccak256`: the 32-byte hash is named by
/// `spec_keccak256`, a function of the input bytes alone.
#[verifier::external_body]
fn keccak256(data: &Vec<u8>) -> (r: [u8; 32])
    ensures
        r@ == spec_keccak256(data@),
{
    ethers::utils::keccak256(data)
}

/// The zero address, which stands for "no vault".
pub open spec fn zero_address() -> Seq<u8> {
    Seq::new(20, |i: int| 0u8)
}

/// Twenty zero bytes.
fn zero_address_bytes() -> (r: Vec<u8>)
    ensures
        r@ == zero_address(),
{
    let mut r: Vec<u8> = Vec::new();
    let mut i: usize = 0;
    while i < 20
        invariant
            i <= 20,
            r@ =~= Seq::new(i as nat, |j: int| 0u8),
        decreases 20 - i,
    {
        r.push(0);
        i += 1;
    }
    r
}

/// What of an order enters its hash: asset id, side, limit price and size in
/// their integer hashing form, reduce-only flag and order type.
#[derive(Clone, Copy, Debug, PartialEq, Eq, Structural)]
pub struct OrderHashInput {
    pub asset: u32,
    pub is_buy: bool,
    pub limit_px: u64,
    pub sz: u64,
    pub reduce_only: bool,
    pub order_type: OrderTypeKey,
}

/// The tuple by which an order enters the hash of an order action.
pub open spec fn spec_order_tuple(o: OrderHashInput) -> (u32, bool, u64, u64, bool, u8, u64) {
    (
        o.asset,
        o.is_buy,
        o.limit_px,
        o.sz,
        o.reduce_only,
        spec_order_type_code(o.order_type).0,
        spec_order_type_code(o.order_type).1,
    )
}

/// The hash that an order action placing `orders` with `nonce` is signed
/// over: no grouping, no vault.
pub open spec fn spec_orders_connection_id(orders: Seq<OrderHashInput>, nonce: u128) -> Seq<u8> {
    spec_keccak256(
        spec_encode_order_action(
            orders.map_values(|o: OrderHashInput| spec_order_tuple(o)),
            0,
            zero_address(),
            nonce,
        ),
    )
}

/// An order enters the hash by its own fields, in order: asset id, side,
/// limit price, size, reduce-only flag, then its type code and trigger
/// price (2, 1, 3 for good-til-cancel, add-liquidity-only and
/// immediate-or-cancel limits with no trigger price; 4 to 7 for
/// take-profit market, take-profit limit, stop-loss market and stop-loss
/// limit triggers with their trigger price).
pub proof fn lemma_order_tuple_fields(o: OrderHashInput)
    ensures
        spec_order_tuple(o).0 == o.asset,
        spec_order_tuple(o).1 == o.is_buy,
        spec_order_tuple(o).2 == o.limit_px,
        spec_order_tuple(o).3 == o.sz,
        spec_order_tuple(o).4 == o.reduce_only,
        o.order_type matches OrderTypeKey::Limit(l) ==> spec_order_tuple(o).6 == 0 && (
        spec_order_tuple(o).5 == (match l.tif {
            Tif::Gtc => 2u8,
            Tif::Alo => 1u8,
            Tif::Ioc => 3u8,
        })),
        o.order_type matches OrderTypeKey::Trigger { is_market, tpsl, trigger_px } ==> (
        spec_order_tuple(o).6 == trigger_px && spec_order_tuple(o).5 == (if tpsl
            == TriggerType::Tp {
            if is_market {
                4u8
            } else {
                5u8
            }
        } else {
            if is_market {
                6u8
            } else {
                7u8
            }
        })),
{
}

/// The hash of an order action lists, for each order in turn, the tuple
/// of its own fields, with no grouping, no vault and the given nonce.
pub proof fn lemma_orders_connection_id_lists_each_order(orders: Seq<OrderHashInput>, nonce: u128)
    ensures
        spec_orders_connection_id(orders, nonce) == spec_keccak256(
            spec_encode_order_action(
                Seq::new(orders.len(), |i: int| spec_order_tuple(orders[i])),
                0,
                Seq::new(20, |i: int| 0u8),
                nonce,
            ),
        ),
{
    assert(orders.map_values(|o: OrderHashInput| spec_order_tuple(o)) =~= Seq::new(
        orders.len(),
        |i: int| spec_order_tuple(orders[i]),
    ));
    assert(zero_address() =~= Seq::new(20, |i: int| 0u8));
}

/// The tuple by which `o` enters the hash of an order action.
pub fn order_tuple(o: &OrderHashInput) -> (r: (u32, bool, u64, u64, bool, u8, u64))
    ensures
        r == spec_order_tuple(*o),
{
    let (code, px) = o.order_type.get_type();
    (o.asset, o.is_buy, o.limit_px, o.sz, o.reduce_only, code, px)
}

/// The hash that an order action placing `orders` with `nonce` is signed
/// over.
pub fn orders_connection_id(orders: &Vec<OrderHashInput>, nonce: u128) -> (r: [u8; 32])
    ensures
        r@ == spec_orders_connection_id(orders@, nonce),
{
    let mut tuples: Vec<(u32, bool, u64, u64, bool, u8, u64)> = Vec::new();
    let mut i: usize = 0;
    while i < orders.len()
        invariant
            i <= orders@.len(),
            tuples@ =~= orders@.take(i as int).map_values(
                |o: OrderHashInput| spec_order_tuple(o),
            ),
        decreases orders@.len() - i,
    {
        tuples.push(order_tuple(&orders[i]));
        i += 1;
        assert(orders@.take(i as int).drop_last() =~= orders@.take(i - 1));
    }
    assert(orders@.take(orders@.len() as int) =~= orders@);
    let vault = zero_address_bytes();
    let encoded = encode_order_action(&tuples, 0, &vault, nonce);
    keccak256(&encoded)
}

/// The hash that a leverage update of `asset` to `leverage` (cross margin
/// or not) with `nonce` is signed over: no vault.
pub fn update_leverage_connection_id(leverage: u32, asset: u32, is_cross: bool, nonce: u128) -> (r:
    [u8; 32])
    ensures
        r@ == spec_keccak256(
            spec_encode_leverage_action(asset, is_cross, leverage, zero_address(), nonce),
        ),
{
    let vault = zero_address_bytes();
    let encoded = encode_leverage_action(asset, is_cross, leverage, &vault, nonce);
    keccak256(&encoded)
}

/// The hash that a cancel action for the orders `cancels` (asset and
/// order id) with `nonce` is signed over: no vault.
pub fn cancel_connection_id(cancels: &Vec<(u32, u64)>, nonce: u128) -> (r: [u8; 32])
    ensures
        r@ == spec_keccak256(spec_encode_cancel_action(cancels@, zero_address(), nonce)),
{
    let vault = zero_address_bytes();
    let encoded = encode_cancel_action(cancels, &vault, nonce);
    keccak256(&encoded)
}

} // verus!
