use hl::helpers::{
    find_fill, find_open_order, find_position, needs_leverage_update, needs_margin_update,
    CancelStatus, ChaseStep, LimitChase, ModifyStatus, Outcome, ParentAction, TrailLookup,
    TrailingStop, UserFill, MAX_CHASE_COUNT,
};
use hl::model::{
    AssetPosition, ClearingHouseState, CrossMarginSummary, Leverage, MarginSummary, Position,
    UnfilledOrder,
};
use hl::types::MarginType;

const DONE: &str = "Cannot modify canceled or filled order";

#[test]
fn chase_starts_at_first_attempt() {
    let c = LimitChase::new(9);
    assert_eq!(c.oid, 9);
    assert_eq!(c.loop_count, 1);
}

#[test]
fn chase_goes_to_market() {
    let c = LimitChase::new(1);
    assert!(!c.is_market(0, false));
    assert!(!c.is_market(60, false));
    assert!(c.is_market(61, false));
    assert!(c.is_market(0, true));
    let c = LimitChase { oid: 1, loop_count: MAX_CHASE_COUNT };
    assert!(!c.is_market(0, false));
    let c = LimitChase { oid: 1, loop_count: MAX_CHASE_COUNT + 1 };
    assert!(c.is_market(0, false));
}

#[test]
fn chase_stops_without_order_on_failure() {
    let c = LimitChase::new(1);
    assert!(matches!(c.after_modify(false, Outcome::RequestFailed), ChaseStep::Stop(None)));
    let c = LimitChase::new(1);
    assert!(matches!(c.after_modify(true, Outcome::Refused), ChaseStep::Stop(None)));
}

#[test]
fn chase_follows_new_order_id() {
    let c = LimitChase::new(1);
    match c.after_modify(false, Outcome::Accepted(vec![ModifyStatus::Resting(5)])) {
        ChaseStep::Continue(n) => {
            assert_eq!(n.oid, 5);
            assert_eq!(n.loop_count, 2);
        },
        _ => panic!("expected to go on"),
    }
    let c = LimitChase::new(1);
    match c.after_modify(true, Outcome::Accepted(vec![ModifyStatus::Filled(6)])) {
        ChaseStep::Stop(Some(oid)) => assert_eq!(oid, 6),
        _ => panic!("expected to stop"),
    }
}

#[test]
fn chase_stops_when_order_is_done() {
    let c = LimitChase::new(3);
    let msg = format!("Order error: {} asset=1", DONE);
    match c.after_modify(false, Outcome::Accepted(vec![ModifyStatus::Error(msg)])) {
        ChaseStep::Stop(Some(oid)) => assert_eq!(oid, 3),
        _ => panic!("expected to stop"),
    }
    let c = LimitChase::new(3);
    let step = c.after_modify(
        false,
        Outcome::Accepted(vec![ModifyStatus::Error("Insufficient margin".to_string())]),
    );
    assert!(matches!(step, ChaseStep::Continue(LimitChase { oid: 3, loop_count: 2 })));
}

#[test]
fn chase_last_error_decides() {
    let c = LimitChase::new(3);
    let step = c.after_modify(
        false,
        Outcome::Accepted(vec![
            ModifyStatus::Error(DONE.to_string()),
            ModifyStatus::Error("other".to_string()),
        ]),
    );
    assert!(matches!(step, ChaseStep::Continue(_)));
}

#[test]
fn trailing_stop_parent_status() {
    let t = TrailingStop::new(4);
    assert!(!t.is_filled);
    let (t2, a) = t.on_parent_status(Some("filled"));
    assert!(t2.is_filled);
    assert!(matches!(a, ParentAction::FetchEntry));
    let (t3, a) = TrailingStop::new(4).on_parent_status(Some("canceled"));
    assert!(!t3.is_filled);
    assert!(matches!(a, ParentAction::CancelTrailing));
    let (t4, a) = TrailingStop::new(4).on_parent_status(Some("open"));
    assert!(!t4.is_filled);
    assert!(matches!(a, ParentAction::Wait));
    let (t5, a) = TrailingStop::new(4).on_parent_status(None);
    assert_eq!(t5.oid, 4);
    assert!(matches!(a, ParentAction::Wait));
}

#[test]
fn trailing_stop_cancel_answers() {
    assert!(TrailingStop::stops_after_cancel(&Outcome::RequestFailed));
    assert!(TrailingStop::stops_after_cancel(&Outcome::Refused));
    assert!(TrailingStop::stops_after_cancel(&Outcome::Accepted(vec![CancelStatus::Success])));
    assert!(TrailingStop::stops_after_cancel(&Outcome::Accepted(vec![CancelStatus::Error(
        "x".to_string()
    )])));
    assert!(!TrailingStop::stops_after_cancel(&Outcome::<CancelStatus>::Accepted(vec![])));
}

#[test]
fn trailing_stop_gives_up_at_fifth_miss() {
    let mut t = TrailingStop::new(8);
    for expected in 1..5u64 {
        match t.on_lookup(false) {
            TrailLookup::Retry(n) => {
                assert_eq!(n.tsl_check_count, expected);
                t = n;
            },
            _ => panic!("gave up too early"),
        }
    }
    assert!(matches!(t.on_lookup(false), TrailLookup::GiveUp));
    assert!(matches!(TrailingStop::new(8).on_lookup(true), TrailLookup::Adjust));
}

#[test]
fn trailing_stop_follows_resting_order_only() {
    let t = TrailingStop { is_filled: true, oid: 1, tsl_check_count: 2 };
    let n = t.after_modify(Outcome::Accepted(vec![ModifyStatus::Filled(9)])).unwrap();
    assert_eq!(n.oid, 1);
    assert_eq!(n.tsl_check_count, 2);
    let t = TrailingStop { is_filled: true, oid: 1, tsl_check_count: 2 };
    let n = t.after_modify(Outcome::Accepted(vec![ModifyStatus::Resting(9)])).unwrap();
    assert_eq!(n.oid, 9);
    let t = TrailingStop { is_filled: true, oid: 1, tsl_check_count: 0 };
    assert!(t.after_modify(Outcome::Accepted(vec![ModifyStatus::Error(DONE.to_string())])).is_none());
    let t = TrailingStop { is_filled: true, oid: 1, tsl_check_count: 0 };
    assert!(t.after_modify(Outcome::Refused).is_none());
}

#[test]
fn fills_and_open_orders_by_id() {
    let fills = vec![
        UserFill { oid: 1, px: "10".to_string() },
        UserFill { oid: 2, px: "20".to_string() },
        UserFill { oid: 2, px: "21".to_string() },
    ];
    assert_eq!(find_fill(&fills, 2), Some(1));
    assert_eq!(find_fill(&fills, 3), None);
    let orders = vec![UnfilledOrder {
        coin: "ETH".to_string(),
        limit_px: "1".to_string(),
        oid: 77,
        side: "A".to_string(),
        sz: "1".to_string(),
    }];
    assert_eq!(find_open_order(&orders, 77), Some(0));
    assert_eq!(find_open_order(&orders, 78), None);
}

fn state_with(coin: &str, lev: u32, lev_type: &str) -> ClearingHouseState {
    let summary = || ("0".to_string(), "0".to_string(), "0".to_string(), "0".to_string());
    let (a, b, c, d) = summary();
    let (e, f, g, h) = summary();
    ClearingHouseState {
        asset_positions: vec![AssetPosition {
            position: Position {
                coin: coin.to_string(),
                entry_px: None,
                leverage: Leverage { type_: lev_type.to_string(), value: lev },
                margin_used: "0".to_string(),
                max_trade_szs: vec![],
                position_value: "0".to_string(),
                return_on_equity: "0".to_string(),
                szi: "0".to_string(),
                unrealized_pnl: "0".to_string(),
            },
            type_: "oneWay".to_string(),
        }],
        margin_summary: MarginSummary {
            account_value: a,
            total_margin_used: b,
            total_ntl_pos: c,
            total_raw_usd: d,
        },
        cross_margin_summary: CrossMarginSummary {
            account_value: e,
            total_margin_used: f,
            total_ntl_pos: g,
            total_raw_usd: h,
        },
    }
}

#[test]
fn leverage_and_margin_checks() {
    let s = state_with("eth", 10, "Cross");
    assert_eq!(find_position(&s, "ETH"), Some(0));
    assert!(!needs_leverage_update(&s, "ETH", 10));
    assert!(needs_leverage_update(&s, "ETH", 20));
    assert!(needs_leverage_update(&s, "BTC", 10));
    assert!(!needs_margin_update(&s, "Eth", MarginType::Cross));
    assert!(needs_margin_update(&s, "ETH", MarginType::Isolated));
    assert!(needs_margin_update(&s, "SOL", MarginType::Cross));
}
