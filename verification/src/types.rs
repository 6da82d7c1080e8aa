//! Command-line values: order sizes, prices, take-profit / stop-loss values,
//! TWAP intervals, scale sizes and asset pairs, and the user configuration.
//!
//! Numbers that the bot reads as floating point leave this module as text:
//! each lexer here decides the form of its argument and hands back the
//! numeric part, which the binary converts.

use crate::text::{
    chars_of, lemma_join_starts_with_two, lemma_split_join, lemma_trim_idempotent, parse_unsigned, spec_parse_unsigned, spec_split, spec_trim, split_chars,
    string_from_chars, trim_bounds,
};
use vstd::prelude::*;

verus! {

/// The margin mode of a position.
#[derive(Clone, Copy, Debug, PartialEq, Eq, Structural)]
pub enum MarginType {
    Cross,
    Isolated,
}

/// The chain the user's account lives on.
#[derive(Clone, Copy, Debug, PartialEq, Eq, Structural)]
pub enum Chain {
    Dev,
    Arbitrum,
    ArbitrumTestnet,
    ArbitrumGoerli,
}

/// The user configuration stored in `~/.hyperliquid/config`.
pub struct Config {
    pub private_key: String,
    pub default_margin: MarginType,
    pub default_asset: String,
    pub default_size: String,
    pub chain: Chain,
}

/// A TWAP schedule: `num_of_orders` orders, `interval` seconds apart.
pub struct TwapInterval {
    /// Time between two orders, in seconds.
    pub interval: u64,
    pub num_of_orders: u8,
}

/// An asset pair `base/quote`.
pub struct Pair {
    pub base: String,
    pub quote: String,
}

/// An order size as written: a percentage (`10%`) or an amount (`100`,
/// `$100`), with its number still as text.
pub enum OrderSizeText {
    Percent(String),
    Absolute(String),
}

/// A take-profit or stop-loss value as written, with its number as text:
/// a percentage (`10%`), a price (`1990`), a signed distance (`+10`,
/// `-$300`), a profit or loss amount (`+300pnl`) or a profit or loss
/// percentage (`+10%pnl`).
pub enum TpSlText {
    Percent(String),
    Fixed(String),
    Absolute(String),
    PnlAmount(String),
    PnlPercent(String),
}

/// The form of a take-profit or stop-loss value.
#[derive(Clone, Copy, Debug, PartialEq, Eq, Structural)]
pub enum TpSlKind {
    Percent,
    Fixed,
    Absolute,
    PnlAmount,
    PnlPercent,
}

/// A scale order size `total/intervals` as written: the total as text and
/// the number of intervals if it is a valid `u32`.
pub struct SzPerIntervalText {
    pub size: String,
    pub interval: Option<u32>,
}

// ---------------------------------------------------------------------------
// Specifications of the accepted forms
// ---------------------------------------------------------------------------

/// `s` without one leading `c`, if it starts with `c`.
pub open spec fn strip_prefix_char(s: Seq<char>, c: char) -> Seq<char> {
    if s.len() > 0 && s[0] == c {
        s.drop_first()
    } else {
        s
    }
}

/// `s` ends with `c`.
pub open spec fn ends_with_char(s: Seq<char>, c: char) -> bool {
    s.len() > 0 && s.last() == c
}

/// `s` starts with `c`.
pub open spec fn starts_with_char(s: Seq<char>, c: char) -> bool {
    s.len() > 0 && s[0] == c
}

/// The form of an order size: `(is_percent, number)`. A trailing `%` makes
/// a percentage; one leading `$` is dropped from the number.
pub open spec fn spec_order_size(value: Seq<char>) -> (bool, Seq<char>) {
    let t = spec_trim(value);
    if ends_with_char(t, '%') {
        (true, strip_prefix_char(t.drop_last(), '$'))
    } else {
        (false, strip_prefix_char(t, '$'))
    }
}

/// `s` ends with `pnl`.
pub open spec fn ends_with_pnl(s: Seq<char>) -> bool {
    s.len() >= 3 && s.subrange(s.len() - 3, s.len() as int) == seq!['p', 'n', 'l']
}

/// `s` with one `$` dropped after its sign (`+$300` reads `+300`), or at
/// its start when it has no sign (`$300` reads `300`).
pub open spec fn drop_dollar(s: Seq<char>) -> Seq<char> {
    if starts_with_char(s, '+') || starts_with_char(s, '-') {
        seq![s[0]] + strip_prefix_char(s.drop_first(), '$')
    } else {
        strip_prefix_char(s, '$')
    }
}

/// The form of a take-profit / stop-loss value and its number. A trailing
/// `pnl` makes a profit-or-loss value: a percentage of the position with
/// `%` before it (`+10%pnl`), an amount otherwise (`+300pnl`, `-$300pnl`).
/// Else a trailing `%` makes a percentage of the entry price (`10%`), and
/// a leading sign a price distance (`+10`, `-$300`). A bare number is a
/// percentage where `bare_is_percent` (the `tp` and `sl` commands: `5`
/// means 5%) and a price otherwise (`--tp 2000` on `buy` and `sell`).
pub open spec fn spec_tp_sl(value: Seq<char>, bare_is_percent: bool) -> (TpSlKind, Seq<char>) {
    let t = spec_trim(value);
    if ends_with_pnl(t) {
        let u = t.subrange(0, t.len() - 3);
        if ends_with_char(u, '%') {
            (TpSlKind::PnlPercent, u.drop_last())
        } else {
            (TpSlKind::PnlAmount, drop_dollar(u))
        }
    } else if ends_with_char(t, '%') {
        (TpSlKind::Percent, t.drop_last())
    } else if starts_with_char(t, '+') || starts_with_char(t, '-') {
        (TpSlKind::Absolute, drop_dollar(t))
    } else if bare_is_percent {
        (TpSlKind::Percent, t)
    } else {
        (TpSlKind::Fixed, t)
    }
}

/// The number of a limit price: one leading `@` is dropped (`@100`).
pub open spec fn spec_limit_price(value: Seq<char>) -> Seq<char> {
    strip_prefix_char(spec_trim(value), '@')
}

/// The fields of a scale size `total/intervals`, or the error text when the
/// second field is missing.
pub open spec fn spec_sz_per_interval(value: Seq<char>) -> Result<
    (Seq<char>, Option<nat>),
    Seq<char>,
> {
    let f = spec_split(spec_trim(value), '/');
    if f.len() < 2 {
        Err("Invalid number of intervals"@)
    } else {
        Ok((f[0], spec_parse_unsigned(f[1], u32::MAX as nat)))
    }
}

/// A TWAP schedule `minutes,count`: the interval in seconds and the number
/// of orders, or the error text.
pub open spec fn spec_twap_interval(value: Seq<char>) -> Result<(nat, nat), Seq<char>> {
    let f = spec_split(spec_trim(value), ',');
    if f.len() < 2 {
        Err("Invalid num of orders"@)
    } else {
        match spec_parse_unsigned(f[0], u64::MAX as nat) {
            None => Err("Invalid interval"@),
            Some(minutes) => match spec_parse_unsigned(f[1], u8::MAX as nat) {
                None => Err("Invalid num of orders"@),
                Some(n) => Ok((minutes * 60, n)),
            },
        }
    }
}

/// The minutes of a TWAP schedule, where the text has two fields and the
/// first one is a valid `u64`.
pub open spec fn spec_twap_minutes(value: Seq<char>) -> Option<nat> {
    let f = spec_split(spec_trim(value), ',');
    if f.len() < 2 {
        None
    } else {
        spec_parse_unsigned(f[0], u64::MAX as nat)
    }
}

/// Converting the minutes of `value` to seconds stays within `u64`.
pub open spec fn twap_seconds_fit(value: Seq<char>) -> bool {
    match spec_twap_minutes(value) {
        Some(m) => m * 60 <= u64::MAX,
        None => true,
    }
}

/// A pair `base/quote`: the first two fields around `/`, or the error text.
pub open spec fn spec_pair(value: Seq<char>) -> Result<(Seq<char>, Seq<char>), Seq<char>> {
    let f = spec_split(spec_trim(value), '/');
    if f.len() < 2 {
        Err("Invalid pair"@)
    } else {
        Ok((f[0], f[1]))
    }
}

/// Whitespace around an argument does not change how it is read: every
/// form reads an argument as it reads the argument trimmed.
pub proof fn lemma_outer_whitespace_ignored(value: Seq<char>)
    ensures
        spec_order_size(spec_trim(value)) == spec_order_size(value),
        spec_tp_sl(spec_trim(value), true) == spec_tp_sl(value, true),
        spec_tp_sl(spec_trim(value), false) == spec_tp_sl(value, false),
        spec_limit_price(spec_trim(value)) == spec_limit_price(value),
        spec_sz_per_interval(spec_trim(value)) == spec_sz_per_interval(value),
        spec_twap_interval(spec_trim(value)) == spec_twap_interval(value),
        spec_pair(spec_trim(value)) == spec_pair(value),
{
    lemma_trim_idempotent(value);
}

/// An order size is a percentage exactly when the trimmed argument ends
/// with `%`; its number is the trimmed argument without that `%` and
/// without one leading `$`.
pub proof fn lemma_order_size_reading(value: Seq<char>)
    ensures
        spec_order_size(value).0 <==> (spec_trim(value).len() > 0 && spec_trim(value)[spec_trim(
            value,
        ).len() - 1] == '%'),
        ({
            let t = spec_trim(value);
            let u = if t.len() > 0 && t[t.len() - 1] == '%' {
                t.subrange(0, t.len() - 1)
            } else {
                t
            };
            spec_order_size(value).1 == if u.len() > 0 && u[0] == '$' {
                u.subrange(1, u.len() as int)
            } else {
                u
            }
        }),
{
    let t = spec_trim(value);
    assert(t.drop_last() =~= t.subrange(0, t.len() - 1));
    let u = if t.len() > 0 && t[t.len() - 1] == '%' {
        t.subrange(0, t.len() - 1)
    } else {
        t
    };
    assert(u.drop_first() =~= u.subrange(1, u.len() as int));
}

/// A limit price is the trimmed argument without one leading `@`.
pub proof fn lemma_limit_price_reading(value: Seq<char>)
    ensures
        spec_limit_price(value) == if spec_trim(value).len() > 0 && spec_trim(value)[0] == '@' {
            spec_trim(value).subrange(1, spec_trim(value).len() as int)
        } else {
            spec_trim(value)
        },
{
    let t = spec_trim(value);
    assert(t.drop_first() =~= t.subrange(1, t.len() as int));
}

/// A signed take-profit / stop-loss value without a trailing `%` or `pnl`
/// is a price distance: it keeps its sign and loses one `$` after it
/// (`-$300` reads `-300`).
pub proof fn lemma_signed_value_is_distance(value: Seq<char>, bare_is_percent: bool)
    requires
        spec_trim(value).len() > 0,
        spec_trim(value)[0] == '+' || spec_trim(value)[0] == '-',
        spec_trim(value)[spec_trim(value).len() - 1] != '%',
        !ends_with_pnl(spec_trim(value)),
    ensures
        spec_tp_sl(value, bare_is_percent).0 == TpSlKind::Absolute,
        ({
            let t = spec_trim(value);
            spec_tp_sl(value, bare_is_percent).1 == if t.len() > 1 && t[1] == '$' {
                seq![t[0]] + t.subrange(2, t.len() as int)
            } else {
                t
            }
        }),
{
    let t = spec_trim(value);
    if t.len() > 1 && t[1] == '$' {
        assert(t.drop_first().drop_first() =~= t.subrange(2, t.len() as int));
    } else {
        assert(seq![t[0]] + t.drop_first() =~= t);
    }
}

/// The `tp` / `sl` commands and the `--tp` / `--sl` options read a value
/// alike, except a bare number: a percentage for the commands, a price for
/// the options.
pub proof fn lemma_bare_number_reading(value: Seq<char>)
    ensures
        spec_tp_sl(value, false).0 != TpSlKind::Fixed ==> spec_tp_sl(value, true) == spec_tp_sl(
            value,
            false,
        ),
        spec_tp_sl(value, false).0 == TpSlKind::Fixed ==> spec_tp_sl(value, true) == (
            TpSlKind::Percent,
            spec_tp_sl(value, false).1,
        ),
{
}

/// A pair is read as the text before the first `/` of the trimmed argument
/// and the text after it up to the next `/`: neither holds a `/`, and base,
/// `/` and quote in a row begin the trimmed argument.
pub proof fn lemma_pair_is_text_around_slash(value: Seq<char>)
    ensures
        spec_pair(value) matches Ok((base, quote)) ==> {
            &&& !base.contains('/')
            &&& !quote.contains('/')
            &&& (base + seq!['/'] + quote).len() <= spec_trim(value).len()
            &&& spec_trim(value).subrange(0, (base + seq!['/'] + quote).len() as int) == base
                + seq!['/'] + quote
        },
{
    let t = spec_trim(value);
    let f = spec_split(t, '/');
    lemma_split_join(t, '/');
    if f.len() >= 2 {
        lemma_join_starts_with_two(f, '/');
        assert forall|j: int| 0 <= j < f[0].len() implies f[0][j] != '/' by {}
        assert forall|j: int| 0 <= j < f[1].len() implies f[1][j] != '/' by {}
    }
}

/// The trimmed characters of `value`, as a vector with its bounds.
fn trimmed(value: &str) -> (r: (Vec<char>, usize, usize))
    ensures
        r.1 <= r.2 <= r.0@.len(),
        r.0@.subrange(r.1 as int, r.2 as int) == spec_trim(value@),
{
    let v = chars_of(value);
    let (a, b) = trim_bounds(v.as_slice());
    (v, a, b)
}

/// A `String` with the characters of `s`.
fn string_of(s: &Vec<char>) -> (r: String)
    ensures
        r@ == s@,
{
    let r = string_from_chars(s.as_slice(), 0, s.len());
    assert(s@.subrange(0, s@.len() as int) =~= s@);
    r
}

impl OrderSizeText {
    /// The form of an order size such as `10%`, `100` or `$100`.
    pub fn lex(value: &str) -> (r: OrderSizeText)
        ensures
            spec_order_size(value@) == (match r {
                OrderSizeText::Percent(s) => (true, s@),
                OrderSizeText::Absolute(s) => (false, s@),
            }),
    {
        let (v, a, mut b) = trimmed(value);
        let ghost t = v@.subrange(a as int, b as int);
        let percent = b > a && v[b - 1] == '%';
        if percent {
            b = b - 1;
            assert(t.drop_last() =~= v@.subrange(a as int, b as int));
        }
        let mut a2 = a;
        if a2 < b && v[a2] == '$' {
            a2 = a2 + 1;
        }
        assert(strip_prefix_char(v@.subrange(a as int, b as int), '$') =~= v@.subrange(
            a2 as int,
            b as int,
        ));
        let s = string_from_chars(v.as_slice(), a2, b);
        if percent {
            OrderSizeText::Percent(s)
        } else {
            OrderSizeText::Absolute(s)
        }
    }
}

/// The characters of `v[from..to]` with one `$` dropped as `drop_dollar`
/// does.
fn dollar_free(v: &Vec<char>, from: usize, to: usize) -> (r: String)
    requires
        from <= to <= v@.len(),
    ensures
        r@ == drop_dollar(v@.subrange(from as int, to as int)),
{
    let ghost t = v@.subrange(from as int, to as int);
    if from < to && (v[from] == '+' || v[from] == '-') {
        let mut a = from + 1;
        if a < to && v[a] == '$' {
            a = a + 1;
        }
        assert(strip_prefix_char(t.drop_first(), '$') =~= v@.subrange(a as int, to as int));
        let mut w: Vec<char> = Vec::new();
        w.push(v[from]);
        let mut i: usize = a;
        while i < to
            invariant
                a <= i <= to,
                to <= v@.len(),
                w@ =~= seq![v@[from as int]] + v@.subrange(a as int, i as int),
            decreases to - i,
        {
            w.push(v[i]);
            i += 1;
        }
        assert(t[0] == v@[from as int]);
        string_of(&w)
    } else {
        let mut a = from;
        if a < to && v[a] == '$' {
            a = a + 1;
        }
        assert(strip_prefix_char(t, '$') =~= v@.subrange(a as int, to as int));
        string_from_chars(v.as_slice(), a, to)
    }
}

impl TpSlText {
    /// The form of a take-profit / stop-loss value as `spec_tp_sl` reads
    /// it, a bare number being a percentage or a price by
    /// `bare_is_percent`.
    fn lex_with(value: &str, bare_is_percent: bool) -> (r: TpSlText)
        ensures
            spec_tp_sl(value@, bare_is_percent) == r.kind_and_number(),
    {
        let (v, a, b) = trimmed(value);
        let ghost t = v@.subrange(a as int, b as int);
        if b - a >= 3 && v[b - 3] == 'p' && v[b - 2] == 'n' && v[b - 1] == 'l' {
            assert(t.subrange(t.len() - 3, t.len() as int) =~= seq!['p', 'n', 'l']);
            let c = b - 3;
            let ghost u = t.subrange(0, t.len() - 3);
            assert(u =~= v@.subrange(a as int, c as int));
            if c > a && v[c - 1] == '%' {
                assert(u.drop_last() =~= v@.subrange(a as int, c - 1));
                TpSlText::PnlPercent(string_from_chars(v.as_slice(), a, c - 1))
            } else {
                TpSlText::PnlAmount(dollar_free(&v, a, c))
            }
        } else {
            assert(!ends_with_pnl(t)) by {
                if t.len() >= 3 {
                    if t.subrange(t.len() - 3, t.len() as int) == seq!['p', 'n', 'l'] {
                        assert(t.subrange(t.len() - 3, t.len() as int)[0] == v@[b - 3]);
                        assert(t.subrange(t.len() - 3, t.len() as int)[1] == v@[b - 2]);
                        assert(t.subrange(t.len() - 3, t.len() as int)[2] == v@[b - 1]);
                    }
                }
            }
            if b > a && v[b - 1] == '%' {
                assert(t.drop_last() =~= v@.subrange(a as int, b - 1));
                TpSlText::Percent(string_from_chars(v.as_slice(), a, b - 1))
            } else if b > a && (v[a] == '+' || v[a] == '-') {
                TpSlText::Absolute(dollar_free(&v, a, b))
            } else if bare_is_percent {
                TpSlText::Percent(string_from_chars(v.as_slice(), a, b))
            } else {
                TpSlText::Fixed(string_from_chars(v.as_slice(), a, b))
            }
        }
    }

    /// The form and the number of this value.
    pub open spec fn kind_and_number(&self) -> (TpSlKind, Seq<char>) {
        match self {
            TpSlText::Percent(s) => (TpSlKind::Percent, s@),
            TpSlText::Fixed(s) => (TpSlKind::Fixed, s@),
            TpSlText::Absolute(s) => (TpSlKind::Absolute, s@),
            TpSlText::PnlAmount(s) => (TpSlKind::PnlAmount, s@),
            TpSlText::PnlPercent(s) => (TpSlKind::PnlPercent, s@),
        }
    }

    /// The form of a `--tp` / `--sl` value of `buy`, `sell` or `pair`, such
    /// as `10%`, `1990`, `+10` or `+300pnl`: a bare number is a price.
    pub fn lex(value: &str) -> (r: TpSlText)
        ensures
            spec_tp_sl(value@, false) == r.kind_and_number(),
    {
        Self::lex_with(value, false)
    }

    /// The form of the value of the `tp` and `sl` commands, such as `5`,
    /// `+$300`, `+300pnl` or `+10%pnl`: a bare number is a percentage.
    pub fn lex_close(value: &str) -> (r: TpSlText)
        ensures
            spec_tp_sl(value@, true) == r.kind_and_number(),
    {
        Self::lex_with(value, true)
    }
}

/// The number of a limit price such as `@1900` or `1900`.
pub fn lex_limit_price(value: &str) -> (r: String)
    ensures
        r@ == spec_limit_price(value@),
{
    let (v, a, b) = trimmed(value);
    let mut a2 = a;
    if a2 < b && v[a2] == '@' {
        a2 = a2 + 1;
    }
    assert(strip_prefix_char(v@.subrange(a as int, b as int), '@') =~= v@.subrange(
        a2 as int,
        b as int,
    ));
    string_from_chars(v.as_slice(), a2, b)
}

impl SzPerIntervalText {
    /// The fields of a scale size such as `100/10`.
    pub fn lex(value: &str) -> (r: Result<SzPerIntervalText, String>)
        ensures
            spec_sz_per_interval(value@) == (match r {
                Ok(t) => Ok(
                    (
                        t.size@,
                        match t.interval {
                            Some(n) => Some(n as nat),
                            None => None,
                        },
                    ),
                ),
                Err(e) => Err(e@),
            }),
    {
        let (v, a, b) = trimmed(value);
        let fields = split_chars(v.as_slice(), a, b, '/');
        if fields.len() < 2 {
            return Err(String::from_str("Invalid number of intervals"));
        }
        let ghost f = fields.deep_view();
        assert(f[0] == fields@[0]@);
        assert(f[1] == fields@[1]@);
        let size = string_of(&fields[0]);
        let interval = parse_unsigned(fields[1].as_slice(), 0, fields[1].len(), 4294967295u64);
        assert(fields@[1]@.subrange(0, fields@[1]@.len() as int) =~= fields@[1]@);
        let interval = match interval {
            Some(n) => Some(n as u32),
            None => None,
        };
        Ok(SzPerIntervalText { size, interval })
    }
}

impl TwapInterval {
    /// Parses a TWAP schedule `minutes,count`, such as `5,10`: ten orders,
    /// five minutes apart.
    pub fn try_from(value: &str) -> (r: Result<TwapInterval, String>)
        requires
            twap_seconds_fit(value@),
        ensures
            spec_twap_interval(value@) == (match r {
                Ok(t) => Ok((t.interval as nat, t.num_of_orders as nat)),
                Err(e) => Err(e@),
            }),
    {
        let (v, a, b) = trimmed(value);
        let fields = split_chars(v.as_slice(), a, b, ',');
        if fields.len() < 2 {
            return Err(String::from_str("Invalid num of orders"));
        }
        let ghost f = fields.deep_view();
        assert(f[0] == fields@[0]@);
        assert(f[1] == fields@[1]@);
        assert(fields@[0]@.subrange(0, fields@[0]@.len() as int) =~= fields@[0]@);
        assert(fields@[1]@.subrange(0, fields@[1]@.len() as int) =~= fields@[1]@);
        let minutes = match parse_unsigned(fields[0].as_slice(), 0, fields[0].len(), u64::MAX) {
            Some(m) => m,
            None => {
                return Err(String::from_str("Invalid interval"));
            },
        };
        let n = match parse_unsigned(fields[1].as_slice(), 0, fields[1].len(), 255u64) {
            Some(n) => n,
            None => {
                return Err(String::from_str("Invalid num of orders"));
            },
        };
        Ok(TwapInterval { interval: minutes * 60, num_of_orders: n as u8 })
    }

    /// Parses a TWAP schedule as `try_from` does, or gives `None` where its
    /// minutes, converted to seconds, would not fit in `u64`.
    pub fn checked_try_from(value: &str) -> (r: Option<Result<TwapInterval, String>>)
        ensures
            r is None <==> !twap_seconds_fit(value@),
            r matches Some(x) ==> spec_twap_interval(value@) == (match x {
                Ok(t) => Ok((t.interval as nat, t.num_of_orders as nat)),
                Err(e) => Err(e@),
            }),
    {
        if Self::fits(value) {
            Some(Self::try_from(value))
        } else {
            None
        }
    }

    /// Whether the minutes of `value`, where it has them, fit in `u64`
    /// once converted to seconds; `try_from` needs this of its argument.
    pub fn fits(value: &str) -> (r: bool)
        ensures
            r == twap_seconds_fit(value@),
    {
        let (v, a, b) = trimmed(value);
        let fields = split_chars(v.as_slice(), a, b, ',');
        if fields.len() < 2 {
            return true;
        }
        let ghost f = fields.deep_view();
        assert(f[0] == fields@[0]@);
        assert(fields@[0]@.subrange(0, fields@[0]@.len() as int) =~= fields@[0]@);
        match parse_unsigned(fields[0].as_slice(), 0, fields[0].len(), u64::MAX) {
            Some(m) => m <= u64::MAX / 60,
            None => true,
        }
    }
}

impl Pair {
    /// Parses a pair such as `btc/eth`.
    pub fn try_from(value: &str) -> (r: Result<Pair, String>)
        ensures
            spec_pair(value@) == (match r {
                Ok(p) => Ok((p.base@, p.quote@)),
                Err(e) => Err(e@),
            }),
    {
        let (v, a, b) = trimmed(value);
        let fields = split_chars(v.as_slice(), a, b, '/');
        if fields.len() < 2 {
            return Err(String::from_str("Invalid pair"));
        }
        let ghost f = fields.deep_view();
        assert(f[0] == fields@[0]@);
        assert(f[1] == fields@[1]@);
        Ok(Pair { base: string_of(&fields[0]), quote: string_of(&fields[1]) })
    }
}

} // verus!
