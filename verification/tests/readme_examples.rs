use hl::types::{lex_limit_price, OrderSizeText, Pair, SzPerIntervalText, TpSlText, TwapInterval};

fn percent(s: &str) -> String {
    match OrderSizeText::lex(s) {
        OrderSizeText::Percent(n) => n,
        OrderSizeText::Absolute(_) => panic!("expected a percentage"),
    }
}

fn amount(s: &str) -> String {
    match OrderSizeText::lex(s) {
        OrderSizeText::Absolute(n) => n,
        OrderSizeText::Percent(_) => panic!("expected an amount"),
    }
}

fn close_value(s: &str) -> (&'static str, String) {
    match TpSlText::lex_close(s) {
        TpSlText::Percent(n) => ("percent", n),
        TpSlText::Fixed(n) => ("price", n),
        TpSlText::Absolute(n) => ("distance", n),
        TpSlText::PnlAmount(n) => ("pnl", n),
        TpSlText::PnlPercent(n) => ("pnl percent", n),
    }
}

#[test]
fn readme_take_profit_examples() {
    // tp 10% btc 5: a take profit of 5%
    assert_eq!(percent("10%"), "10");
    assert_eq!(close_value("5"), ("percent", "5".to_string()));
    // tp 30% btc +$300: a take profit of $300
    assert_eq!(percent("30%"), "30");
    assert_eq!(close_value("+$300"), ("distance", "+300".to_string()));
    // tp 100% sol +300pnl
    assert_eq!(percent("100%"), "100");
    assert_eq!(close_value("+300pnl"), ("pnl", "+300".to_string()));
    // tp 50% sol +10%pnl
    assert_eq!(percent("50%"), "50");
    assert_eq!(close_value("+10%pnl"), ("pnl percent", "+10".to_string()));
}

#[test]
fn readme_stop_loss_examples() {
    // sl 10% btc 5: a stop loss of 5%
    assert_eq!(close_value("5"), ("percent", "5".to_string()));
    // sl 30% btc -$300
    assert_eq!(close_value("-$300"), ("distance", "-300".to_string()));
    // sl 100% sol -300pnl
    assert_eq!(close_value("-300pnl"), ("pnl", "-300".to_string()));
    // sl 50% sol -10%pnl
    assert_eq!(close_value("-10%pnl"), ("pnl percent", "-10".to_string()));
}

#[test]
fn readme_buy_example() {
    // buy --size 100 --asset btc --price 1900 --sl 1800 --tp 2000: prices
    assert_eq!(amount("100"), "100");
    assert_eq!(lex_limit_price("1900"), "1900");
    match TpSlText::lex("1800") {
        TpSlText::Fixed(n) => assert_eq!(n, "1800"),
        _ => panic!("expected a price"),
    }
    match TpSlText::lex("2000") {
        TpSlText::Fixed(n) => assert_eq!(n, "2000"),
        _ => panic!("expected a price"),
    }
}

#[test]
fn readme_twap_example() {
    // twap buy 100 eth 5,10: ten orders, five minutes apart
    let t = TwapInterval::try_from("5,10").unwrap();
    assert_eq!(t.num_of_orders, 10);
    assert_eq!(t.interval, 5 * 60);
}

#[test]
fn readme_pair_example() {
    // pair buy 100 btc/eth --price 0.05 --sl 0.04 --tp 0.06
    let p = Pair::try_from("btc/eth").unwrap();
    assert_eq!((p.base.as_str(), p.quote.as_str()), ("btc", "eth"));
    assert_eq!(lex_limit_price("0.05"), "0.05");
}

#[test]
fn readme_scale_example() {
    // scale buy 100/10 eth 1800 1890
    let s = SzPerIntervalText::lex("100/10").unwrap();
    assert_eq!(s.size, "100");
    assert_eq!(s.interval, Some(10));
}
