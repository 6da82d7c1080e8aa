use ethers::abi::AbiEncode;
use ethers::types::Address;
use hl::hyperliquid::signing::{cancel_connection_id, orders_connection_id, update_leverage_connection_id, OrderHashInput};
use hl::model::{Limit, OrderTypeKey, Tif, TriggerType};

#[test]
fn order_action_hash_matches_direct_computation() {
    let orders = vec![
        OrderHashInput {
            asset: 4,
            is_buy: true,
            limit_px: 190000000000,
            sz: 10000000,
            reduce_only: false,
            order_type: OrderTypeKey::Limit(Limit { tif: Tif::Gtc }),
        },
        OrderHashInput {
            asset: 4,
            is_buy: false,
            limit_px: 200000000000,
            sz: 10000000,
            reduce_only: true,
            order_type: OrderTypeKey::Trigger {
                is_market: true,
                tpsl: TriggerType::Tp,
                trigger_px: 200000000000,
            },
        },
    ];
    let nonce: u128 = 1700000000000;
    let tuples: Vec<(u32, bool, u64, u64, bool, u8, u64)> = vec![
        (4, true, 190000000000, 10000000, false, 2, 0),
        (4, false, 200000000000, 10000000, true, 4, 200000000000),
    ];
    let expected = ethers::utils::keccak256((tuples, 0i32, Address::zero(), nonce).encode());
    assert_eq!(orders_connection_id(&orders, nonce), expected);
    assert_ne!(orders_connection_id(&orders, nonce + 1), expected);
}

#[test]
fn empty_order_action_hash() {
    let tuples: Vec<(u32, bool, u64, u64, bool, u8, u64)> = vec![];
    let expected = ethers::utils::keccak256((tuples, 0i32, Address::zero(), 5u128).encode());
    assert_eq!(orders_connection_id(&vec![], 5), expected);
}

#[test]
fn leverage_action_hash_matches_direct_computation() {
    let expected = ethers::utils::keccak256((3u32, true, 20u32, Address::zero(), 99u128).encode());
    assert_eq!(update_leverage_connection_id(20, 3, true, 99), expected);
    assert_ne!(update_leverage_connection_id(20, 3, false, 99), expected);
}

#[test]
fn cancel_action_hash_matches_direct_computation() {
    let cancels: Vec<(u32, u64)> = vec![(3, 77)];
    let expected = ethers::utils::keccak256((cancels.clone(), Address::zero(), 42u128).encode());
    assert_eq!(cancel_connection_id(&cancels, 42), expected);
    assert_ne!(cancel_connection_id(&vec![(3, 78)], 42), expected);
}
