use hl::types::{
    lex_limit_price, Chain, Config, MarginType, OrderSizeText, Pair, SzPerIntervalText,
    TpSlText, TwapInterval,
};

#[test]
fn twap_interval_minutes_and_count() {
    let t = TwapInterval::try_from("5,10").unwrap();
    assert_eq!(t.interval, 300);
    assert_eq!(t.num_of_orders, 10);
}

#[test]
fn twap_interval_trims_and_accepts_plus_sign() {
    let t = TwapInterval::try_from("  +2,3\n").unwrap();
    assert_eq!(t.interval, 120);
    assert_eq!(t.num_of_orders, 3);
}

#[test]
fn twap_interval_ignores_extra_fields() {
    let t = TwapInterval::try_from("1,2,3").unwrap();
    assert_eq!(t.interval, 60);
    assert_eq!(t.num_of_orders, 2);
}

#[test]
fn twap_interval_missing_count() {
    assert_eq!(TwapInterval::try_from("5").err().unwrap(), "Invalid num of orders");
    assert_eq!(TwapInterval::try_from("abc").err().unwrap(), "Invalid num of orders");
}

#[test]
fn twap_interval_bad_minutes() {
    assert_eq!(TwapInterval::try_from("x,10").err().unwrap(), "Invalid interval");
    assert_eq!(TwapInterval::try_from(",10").err().unwrap(), "Invalid interval");
    assert_eq!(TwapInterval::try_from("-5,10").err().unwrap(), "Invalid interval");
}

#[test]
fn twap_interval_bad_count() {
    assert_eq!(TwapInterval::try_from("5,x").err().unwrap(), "Invalid num of orders");
    assert_eq!(TwapInterval::try_from("5,256").err().unwrap(), "Invalid num of orders");
    assert_eq!(TwapInterval::try_from("5,255").unwrap().num_of_orders, 255);
}

#[test]
fn twap_interval_seconds_must_fit() {
    assert!(TwapInterval::fits("5,10"));
    assert!(TwapInterval::fits("307445734561825860,1"));
    assert!(!TwapInterval::fits("307445734561825861,1"));
    assert!(TwapInterval::fits("99999999999999999999,1"));
    assert!(TwapInterval::fits("307445734561825861"));
    let t = TwapInterval::try_from("307445734561825860,1").unwrap();
    assert_eq!(t.interval, 18446744073709551600);
}

#[test]
fn pair_base_and_quote() {
    let p = Pair::try_from("btc/eth").unwrap();
    assert_eq!(p.base, "btc");
    assert_eq!(p.quote, "eth");
    let p = Pair::try_from(" BTC/SOL/x ").unwrap();
    assert_eq!(p.base, "BTC");
    assert_eq!(p.quote, "SOL");
}

#[test]
fn pair_needs_a_slash() {
    assert_eq!(Pair::try_from("btceth").err().unwrap(), "Invalid pair");
    let p = Pair::try_from("btc/").unwrap();
    assert_eq!(p.quote, "");
}

#[test]
fn order_size_forms() {
    match OrderSizeText::lex("10%") {
        OrderSizeText::Percent(s) => assert_eq!(s, "10"),
        _ => panic!("expected a percentage"),
    }
    match OrderSizeText::lex(" $100 ") {
        OrderSizeText::Absolute(s) => assert_eq!(s, "100"),
        _ => panic!("expected an amount"),
    }
    match OrderSizeText::lex("$10%") {
        OrderSizeText::Percent(s) => assert_eq!(s, "10"),
        _ => panic!("expected a percentage"),
    }
    match OrderSizeText::lex("100") {
        OrderSizeText::Absolute(s) => assert_eq!(s, "100"),
        _ => panic!("expected an amount"),
    }
}

#[test]
fn tp_sl_forms() {
    match TpSlText::lex("10%") {
        TpSlText::Percent(s) => assert_eq!(s, "10"),
        _ => panic!("expected a percentage"),
    }
    match TpSlText::lex("+10") {
        TpSlText::Absolute(s) => assert_eq!(s, "+10"),
        _ => panic!("expected a distance"),
    }
    match TpSlText::lex("-10") {
        TpSlText::Absolute(s) => assert_eq!(s, "-10"),
        _ => panic!("expected a distance"),
    }
    match TpSlText::lex(" 1990 ") {
        TpSlText::Fixed(s) => assert_eq!(s, "1990"),
        _ => panic!("expected a price"),
    }
    match TpSlText::lex("+10%") {
        TpSlText::Percent(s) => assert_eq!(s, "+10"),
        _ => panic!("expected a percentage"),
    }
    match TpSlText::lex_close(" 1990 ") {
        TpSlText::Percent(s) => assert_eq!(s, "1990"),
        _ => panic!("expected a percentage"),
    }
    match TpSlText::lex("$300pnl") {
        TpSlText::PnlAmount(s) => assert_eq!(s, "300"),
        _ => panic!("expected a pnl amount"),
    }
    match TpSlText::lex("-$300") {
        TpSlText::Absolute(s) => assert_eq!(s, "-300"),
        _ => panic!("expected a distance"),
    }
    match TpSlText::lex("pnl") {
        TpSlText::PnlAmount(s) => assert_eq!(s, ""),
        _ => panic!("expected a pnl amount"),
    }
}

#[test]
fn whitespace_list_of_trim() {
    // ideographic space and no-break space are trimmed; a zero-width
    // space is not whitespace
    let p = Pair::try_from("\u{3000}btc/eth\u{a0}").unwrap();
    assert_eq!((p.base.as_str(), p.quote.as_str()), ("btc", "eth"));
    let p = Pair::try_from("\u{200b}btc/eth").unwrap();
    assert_eq!(p.base, "\u{200b}btc");
}

#[test]
fn twap_interval_checked() {
    let t = TwapInterval::checked_try_from("5,10").unwrap().unwrap();
    assert_eq!((t.interval, t.num_of_orders), (300, 10));
    assert!(TwapInterval::checked_try_from("18446744073709551615,2").is_none());
    assert_eq!(TwapInterval::checked_try_from("5").unwrap().err().unwrap(), "Invalid num of orders");
}

#[test]
fn limit_price_forms() {
    assert_eq!(lex_limit_price("@1900"), "1900");
    assert_eq!(lex_limit_price(" 1900 "), "1900");
    assert_eq!(lex_limit_price("@0"), "0");
}

#[test]
fn sz_per_interval_forms() {
    let t = SzPerIntervalText::lex("100/10").unwrap();
    assert_eq!(t.size, "100");
    assert_eq!(t.interval, Some(10));
    let t = SzPerIntervalText::lex("100/x").unwrap();
    assert_eq!(t.interval, None);
    let t = SzPerIntervalText::lex("100/4294967296").unwrap();
    assert_eq!(t.interval, None);
    let t = SzPerIntervalText::lex("100/4294967295").unwrap();
    assert_eq!(t.interval, Some(4294967295));
    assert_eq!(SzPerIntervalText::lex("100").err().unwrap(), "Invalid number of intervals");
}

#[test]
fn outer_whitespace_is_ignored() {
    let a = TwapInterval::try_from("\t 5,10 \u{a0}").unwrap();
    let b = TwapInterval::try_from("5,10").unwrap();
    assert_eq!(a.interval, b.interval);
    assert_eq!(a.num_of_orders, b.num_of_orders);
    assert_eq!(lex_limit_price("  @5 "), lex_limit_price("@5"));
}

#[test]
fn config_default_values() {
    let c = Config::default();
    assert_eq!(c.private_key, "");
    assert_eq!(c.default_asset, "");
    assert_eq!(c.default_size, "");
    assert_eq!(c.default_margin, MarginType::Isolated);
    assert_eq!(c.chain, Chain::ArbitrumTestnet);
}
