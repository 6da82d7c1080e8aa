use hl::helpers::{asset_ctx, asset_position, try_asset_ctx};
use hl::hyperliquid::meta_info::{calculate_asset_to_id, UniverseMap};
use hl::hyperliquid::open_orders::{
    get_asset_from_oid, get_side_from_oid, get_sz_from_oid, OpenOrderBook, UnfilledResponse,
};
use hl::hyperliquid::order_payload::Limit as PayloadLimit;
use hl::model::{
    account_value, close_plan, find_open_position, is_buy_side, open_position_indices, split_szi, Asset,
    AssetCtx, AssetPosition, AssetTable, ClearingHouseState, CrossMarginSummary, Ctx, Leverage,
    Limit, MarginSummary, OrderTypeKey, Position, Tif, TriggerType, Universe,
};
use hl::types::MarginType;

fn asset(name: &str, sz_decimals: u32) -> Asset {
    Asset { name: name.to_string(), sz_decimals }
}

fn position(coin: &str, entry_px: Option<&str>, lev: u32, lev_type: &str) -> AssetPosition {
    AssetPosition {
        position: Position {
            coin: coin.to_string(),
            entry_px: entry_px.map(|s| s.to_string()),
            leverage: Leverage { type_: lev_type.to_string(), value: lev },
            margin_used: "0".to_string(),
            max_trade_szs: vec![],
            position_value: "0".to_string(),
            return_on_equity: "0".to_string(),
            szi: "1".to_string(),
            unrealized_pnl: "0".to_string(),
        },
        type_: "oneWay".to_string(),
    }
}

pub fn state(positions: Vec<AssetPosition>) -> ClearingHouseState {
    ClearingHouseState {
        asset_positions: positions,
        margin_summary: MarginSummary {
            account_value: "100".to_string(),
            total_margin_used: "0".to_string(),
            total_ntl_pos: "0".to_string(),
            total_raw_usd: "0".to_string(),
        },
        cross_margin_summary: CrossMarginSummary {
            account_value: "250".to_string(),
            total_margin_used: "0".to_string(),
            total_ntl_pos: "0".to_string(),
            total_raw_usd: "0".to_string(),
        },
    }
}

#[test]
fn asset_table_is_case_insensitive_and_last_wins() {
    let u = Universe { universe: vec![asset("BTC", 5), asset("eth", 4), asset("Btc", 3)] };
    let t = AssetTable::new(&u);
    assert_eq!(t.get("btc"), Some((3, 2)));
    assert_eq!(t.get("ETH"), Some((4, 1)));
    assert_eq!(t.get("Eth"), Some((4, 1)));
    assert_eq!(t.get("sol"), None);
}

#[test]
fn universe_map_lookup() {
    let m = UniverseMap::from_assets(vec![asset("BTC", 5), asset("ETH", 4), asset("BTC", 2)]);
    assert_eq!(calculate_asset_to_id(&m, "ETH"), 4);
    assert_eq!(calculate_asset_to_id(&m, "BTC"), 2);
    assert_eq!(m.get("btc"), None);
    assert_eq!(m.get("SOL"), None);
}

fn unfilled(oid: u64, coin: &str, side: &str, sz: &str) -> UnfilledResponse {
    UnfilledResponse {
        coin: coin.to_string(),
        limitPx: "1.0".to_string(),
        oid,
        side: side.to_string(),
        sz: sz.to_string(),
        timestamp: 0,
    }
}

#[test]
fn open_orders_by_decimal_id() {
    let book = OpenOrderBook::from_responses(vec![
        unfilled(123, "ETH", "B", "0.5"),
        unfilled(0, "BTC", "A", "2"),
        unfilled(18446744073709551615, "SOL", "A", "7"),
    ]);
    assert!(get_side_from_oid(&book, "123"));
    assert_eq!(get_asset_from_oid(&book, "123"), "ETH");
    assert_eq!(get_sz_from_oid(&book, "123"), "0.5");
    assert!(!get_side_from_oid(&book, "0"));
    assert_eq!(get_asset_from_oid(&book, "18446744073709551615"), "SOL");
    assert!(book.get("0123").is_none());
    assert!(book.get("+123").is_none());
    assert!(book.get("12").is_none());
}

#[test]
fn open_orders_later_entry_wins() {
    let book = OpenOrderBook::from_responses(vec![
        unfilled(7, "ETH", "B", "1"),
        unfilled(7, "BTC", "A", "2"),
    ]);
    assert_eq!(get_asset_from_oid(&book, "7"), "BTC");
    assert!(!get_side_from_oid(&book, "7"));
}

#[test]
fn payload_limit_is_good_til_cancel() {
    assert_eq!(PayloadLimit::new().tif, "GTC");
}

#[test]
fn order_type_codes() {
    let limit = |tif| OrderTypeKey::Limit(Limit { tif });
    assert_eq!(limit(Tif::Gtc).get_type(), (2, 0));
    assert_eq!(limit(Tif::Alo).get_type(), (1, 0));
    assert_eq!(limit(Tif::Ioc).get_type(), (3, 0));
    let trig = |is_market, tpsl| OrderTypeKey::Trigger { is_market, tpsl, trigger_px: 42 };
    assert_eq!(trig(true, TriggerType::Tp).get_type(), (4, 42));
    assert_eq!(trig(false, TriggerType::Tp).get_type(), (5, 42));
    assert_eq!(trig(true, TriggerType::Sl).get_type(), (6, 42));
    assert_eq!(trig(false, TriggerType::Sl).get_type(), (7, 42));
}

#[test]
fn open_positions_and_first_match() {
    let s = state(vec![
        position("eth", None, 10, "cross"),
        position("BTC", Some("100"), 10, "cross"),
        position("ETH", Some("2000"), 10, "cross"),
        position("eth", Some("2100"), 10, "cross"),
    ]);
    assert_eq!(find_open_position(&s, "Eth"), Some(2));
    assert_eq!(find_open_position(&s, "sol"), None);
    assert_eq!(open_position_indices(&s), vec![1, 2, 3]);
    assert_eq!(open_position_indices(&state(vec![])), Vec::<usize>::new());
}

#[test]
fn account_value_by_margin_mode() {
    let s = state(vec![]);
    assert_eq!(account_value(&s, MarginType::Cross), "250");
    assert_eq!(account_value(&s, MarginType::Isolated), "100");
}

#[test]
fn szi_side_and_rest() {
    assert_eq!(split_szi("-1.5"), (false, "1.5".to_string()));
    assert_eq!(split_szi("0.5"), (true, "0.5".to_string()));
    assert_eq!(split_szi("2.5"), (true, "2.5".to_string()));
    assert_eq!(split_szi("3"), (true, "3".to_string()));
    assert_eq!(split_szi(""), (true, "".to_string()));
}

#[test]
fn buy_side_code() {
    assert!(is_buy_side("B"));
    assert!(!is_buy_side("A"));
    assert!(!is_buy_side("b"));
}

fn ctxs() -> Vec<AssetCtx> {
    vec![
        AssetCtx::Universe(Universe { universe: vec![asset("BTC", 5), asset("ETH", 4)] }),
        AssetCtx::Ctx(vec![Ctx { mark_px: "30000".to_string() }, Ctx { mark_px: "2000".to_string() }]),
    ]
}

#[test]
fn asset_ctx_by_position() {
    let c = ctxs();
    assert_eq!(asset_ctx(&c, "eth").unwrap().mark_px, "2000");
    assert_eq!(asset_ctx(&c, "BTC").unwrap().mark_px, "30000");
    assert_eq!(asset_position(&vec![asset("BTC", 5), asset("ETH", 4)], "eTh"), Some(1));
}

#[test]
fn asset_ctx_wrong_shape() {
    let c = vec![AssetCtx::Ctx(vec![])];
    assert!(asset_ctx(&c, "eth").is_none());
    let c = vec![AssetCtx::Universe(Universe { universe: vec![asset("ETH", 4)] })];
    assert!(asset_ctx(&c, "eth").is_none());
    let c = vec![
        AssetCtx::Universe(Universe { universe: vec![asset("ETH", 4)] }),
        AssetCtx::Ctx(vec![]),
    ];
    assert!(asset_ctx(&c, "eth").is_none());
    let empty: Vec<AssetCtx> = vec![];
    assert!(asset_ctx(&empty, "eth").is_none());
}

#[test]
fn try_asset_ctx_reports_missing_asset() {
    let c = ctxs();
    assert_eq!(try_asset_ctx(&c, "sol").err().unwrap(), "Asset not found");
    assert_eq!(try_asset_ctx(&c, "btc").unwrap().unwrap().mark_px, "30000");
    let c = vec![AssetCtx::Ctx(vec![])];
    assert!(try_asset_ctx(&c, "sol").unwrap().is_none());
}

#[test]
fn try_asset_ctx_reports_missing_context() {
    let c = vec![
        AssetCtx::Universe(Universe { universe: vec![asset("BTC", 5), asset("ETH", 4)] }),
        AssetCtx::Ctx(vec![Ctx { mark_px: "30000".to_string() }]),
    ];
    assert_eq!(try_asset_ctx(&c, "eth").err().unwrap(), "Asset context not found");
    assert_eq!(try_asset_ctx(&c, "btc").unwrap().unwrap().mark_px, "30000");
    assert!(asset_ctx(&c, "eth").is_none());
    let c = vec![AssetCtx::Universe(Universe { universe: vec![asset("BTC", 5)] })];
    assert!(try_asset_ctx(&c, "btc").unwrap().is_none());
}

#[test]
fn close_plan_sides_and_directions() {
    let p = close_plan(TriggerType::Tp, true);
    assert_eq!((p.is_buy, p.above_entry), (false, true));
    let p = close_plan(TriggerType::Sl, true);
    assert_eq!((p.is_buy, p.above_entry), (false, false));
    let p = close_plan(TriggerType::Tp, false);
    assert_eq!((p.is_buy, p.above_entry), (true, false));
    let p = close_plan(TriggerType::Sl, false);
    assert_eq!((p.is_buy, p.above_entry), (true, true));
}
