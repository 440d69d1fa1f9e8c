//! Trade records and the economics of a round trip.
use vstd::prelude::*;
use crate::candle::{Candle, MAX_PRICE, abs};

verus! {

/// Largest trade size, in units of the instrument: the largest for which the profit of a
/// trade between any two prices in range fits in an `i64`.
pub const MAX_SIZE: i64 = 1_500_000;

/// How a trade was opened or closed.
#[derive(Debug, Clone, Copy, PartialEq, Eq, Structural)]
pub enum TradeType {
    MarketInLong,
    MarketInShort,
    OrderInLong,
    OrderInShort,
    MarketOutLong,
    MarketOutShort,
    OrderOutLong,
    OrderOutShort,
    StopLossLong,
    StopLossShort,
}

impl TradeType {
    pub open spec fn long(self) -> bool {
        match self {
            TradeType::MarketInLong | TradeType::OrderInLong | TradeType::MarketOutLong
            | TradeType::OrderOutLong | TradeType::StopLossLong => true,
            _ => false,
        }
    }

    pub open spec fn entry(self) -> bool {
        match self {
            TradeType::MarketInLong | TradeType::MarketInShort | TradeType::OrderInLong
            | TradeType::OrderInShort => true,
            _ => false,
        }
    }

    /// The trade is on the long side.
    pub fn is_long(&self) -> (r: bool)
        ensures
            r == self.long(),
    {
        match self {
            TradeType::MarketInLong | TradeType::OrderInLong | TradeType::MarketOutLong
            | TradeType::OrderOutLong | TradeType::StopLossLong => true,
            _ => false,
        }
    }

    /// The trade opens a position.
    pub fn is_entry(&self) -> (r: bool)
        ensures
            r == self.entry(),
    {
        match self {
            TradeType::MarketInLong | TradeType::MarketInShort | TradeType::OrderInLong
            | TradeType::OrderInShort => true,
            _ => false,
        }
    }

    /// The trade was closed by the stop loss.
    pub fn is_stop(&self) -> (r: bool)
        ensures
            r == (*self == TradeType::StopLossLong || *self == TradeType::StopLossShort),
    {
        match self {
            TradeType::StopLossLong | TradeType::StopLossShort => true,
            _ => false,
        }
    }
}

/// The opening of a position.
#[derive(Debug, Clone, Copy, PartialEq, Eq, Structural)]
pub struct TradeIn {
    pub id: usize,
    pub index_in: usize,
    pub date_in: i64,
    pub price_in: i64,
    pub size: i64,
    pub trade_type: TradeType,
}

/// The closing of a position, with what it earned.
#[derive(Debug, Clone, Copy, PartialEq, Eq, Structural)]
pub struct TradeOut {
    /// The id of the `TradeIn` that this trade closes.
    pub id: usize,
    pub trade_type: TradeType,
    pub index_in: usize,
    pub index_out: usize,
    pub date_in: i64,
    pub date_out: i64,
    pub price_in: i64,
    pub price_out: i64,
    pub size: i64,
    pub profit: i64,
    /// Profit as a share of the entry price, in basis points.
    pub profit_per: i64,
    pub run_up: i64,
    pub run_up_per: i64,
    pub draw_down: i64,
    pub draw_down_per: i64,
    pub stop_loss_activated: bool,
}

/// The spread that a trade pays, in ticks.
#[derive(Debug, Clone, Copy, PartialEq, Eq, Structural)]
pub struct Pricing {
    pub spread: i64,
}

impl Pricing {
    pub open spec fn wf(&self) -> bool {
        0 <= self.spread <= MAX_PRICE
    }

    pub fn new(spread: i64) -> (r: Pricing)
        ensures
            r.spread == spread,
    {
        Pricing { spread }
    }

    pub fn spread(&self) -> (r: i64)
        ensures
            r == self.spread,
    {
        self.spread
    }
}

/// The price paid to open: half the spread against the trader.
pub open spec fn entry_price(base: int, spread: int, long: bool) -> int {
    if long { base + spread / 2 } else { base - spread / 2 }
}

/// The price received to close: half the spread against the trader.
pub open spec fn exit_price(base: int, spread: int, long: bool) -> int {
    if long { base - spread / 2 } else { base + spread / 2 }
}

/// `diff` as a share of `base` in basis points, rounded toward zero; `0` for a base that is not positive.
pub open spec fn per_of(diff: int, base: int) -> int {
    if base <= 0 {
        0
    } else if diff >= 0 {
        diff * 10000 / base
    } else {
        -((-diff) * 10000 / base)
    }
}

/// Profit of a round trip: the price move times the size, negated for a short.
pub open spec fn profit_of(size: int, price_in: int, price_out: int, long: bool) -> int {
    if long { size * (price_out - price_in) } else { size * (price_in - price_out) }
}

/// Profit of a round trip in basis points of the entry price, negated for a short.
pub open spec fn profit_per_of(price_in: int, price_out: int, long: bool) -> int {
    if long { per_of(price_out - price_in, price_in) } else { -per_of(price_out - price_in, price_in) }
}

/// Scaling a price move and its base by the same size leaves its share unchanged.
proof fn lemma_per_scaled(diff: int, base: int, size: int)
    requires
        base > 0,
        size > 0,
    ensures
        per_of(size * diff, size * base) == per_of(diff, base),
{
    let m = if diff >= 0 { diff } else { -diff };
    assert(size * base > 0) by (nonlinear_arith)
        requires
            base > 0,
            size > 0,
    ;
    assert((size * m) * 10000 == size * (m * 10000)) by (nonlinear_arith);
    assert(m * 10000 >= 0) by (nonlinear_arith)
        requires
            m >= 0,
    ;
    vstd::arithmetic::div_mod::lemma_div_denominator(size * (m * 10000), size, base);
    vstd::arithmetic::div_mod::lemma_div_multiples_vanish(m * 10000, size);
    if diff < 0 {
        assert(-(size * diff) == size * m) by (nonlinear_arith)
            requires
                m == -diff,
        ;
        assert(size * diff < 0) by (nonlinear_arith)
            requires
                diff < 0,
                size > 0,
        ;
    } else {
        assert(size * diff >= 0) by (nonlinear_arith)
            requires
                diff >= 0,
                size > 0,
        ;
    }
}

/// The profit of a round trip in basis points equals the price move over the entry price
/// (negated for a short), and equally the realised profit over the position's entry
/// value `price_in * size`.
pub proof fn lemma_profit_accounting(t: TradeOut, long: bool)
    requires
        t.size > 0,
        t.price_in > 0,
        t.profit == profit_of(t.size as int, t.price_in as int, t.price_out as int, long),
        t.profit_per == profit_per_of(t.price_in as int, t.price_out as int, long),
    ensures
        long ==> t.profit_per == per_of(t.price_out - t.price_in, t.price_in as int),
        !long ==> t.profit_per == -per_of(t.price_out - t.price_in, t.price_in as int),
        t.profit_per == per_of(t.profit as int, t.size * t.price_in),
{
    let d = t.price_out - t.price_in;
    lemma_per_scaled(d, t.price_in as int, t.size as int);
    lemma_per_scaled(-d, t.price_in as int, t.size as int);
    assert(t.size * (t.price_in - t.price_out) == t.size * (-d)) by (nonlinear_arith)
        requires
            d == t.price_out - t.price_in,
    ;
    assert(t.size * t.price_in == t.price_in * t.size) by (nonlinear_arith);
}

/// Highest high of `data[lo..hi]`, or `dflt` where that range is empty.
pub open spec fn max_high(data: Seq<Candle>, lo: int, hi: int, dflt: int) -> int
    decreases hi - lo,
{
    if hi <= lo {
        dflt
    } else {
        let m = max_high(data, lo, hi - 1, dflt);
        if hi - 1 == lo || data[hi - 1].high > m { data[hi - 1].high as int } else { m }
    }
}

/// Lowest low of `data[lo..hi]`, or `dflt` where that range is empty.
pub open spec fn min_low(data: Seq<Candle>, lo: int, hi: int, dflt: int) -> int
    decreases hi - lo,
{
    if hi <= lo {
        dflt
    } else {
        let m = min_low(data, lo, hi - 1, dflt);
        if hi - 1 == lo || data[hi - 1].low < m { data[hi - 1].low as int } else { m }
    }
}

/// Largest favourable move from the entry price while the trade was open.
pub open spec fn run_up_of(data: Seq<Candle>, lo: int, hi: int, price_in: int, long: bool) -> int {
    if long {
        abs(max_high(data, lo, hi, price_in) - price_in)
    } else {
        abs(min_low(data, lo, hi, price_in) - price_in)
    }
}

/// Largest adverse move from the entry price while the trade was open.
pub open spec fn draw_down_of(data: Seq<Candle>, lo: int, hi: int, price_in: int, long: bool) -> int {
    if long {
        abs(min_low(data, lo, hi, price_in) - price_in)
    } else {
        abs(max_high(data, lo, hi, price_in) - price_in)
    }
}

/// The price a trade executes at: the order's price, or the close at market.
pub open spec fn base_price(candle: Candle, order_price: Option<i64>) -> int {
    match order_price {
        Some(p) => p as int,
        None => candle.close as int,
    }
}

/// The trade that `resolve_trade_in` opens.
pub open spec fn trade_in_of(
    id: usize,
    index: usize,
    size: i64,
    candle: Candle,
    spread: i64,
    trade_type: TradeType,
    order_price: Option<i64>,
) -> TradeIn {
    TradeIn {
        id,
        index_in: index,
        date_in: candle.date,
        price_in: entry_price(base_price(candle, order_price), spread as int, trade_type.long()) as i64,
        size,
        trade_type,
    }
}

/// The trade that `resolve_trade_out` closes.
pub open spec fn trade_out_of(
    index: usize,
    data: Seq<Candle>,
    spread: i64,
    t: TradeIn,
    trade_type: TradeType,
    order_price: Option<i64>,
) -> TradeOut {
    let long = trade_type.long();
    let price_out = exit_price(base_price(data[index as int], order_price), spread as int, long);
    let run_up = run_up_of(data, t.index_in as int, index as int, t.price_in as int, long);
    let draw_down = draw_down_of(data, t.index_in as int, index as int, t.price_in as int, long);
    TradeOut {
        id: t.id,
        trade_type,
        index_in: t.index_in,
        index_out: index,
        date_in: t.date_in,
        date_out: data[index as int].date,
        price_in: t.price_in,
        price_out: price_out as i64,
        size: t.size,
        profit: profit_of(t.size as int, t.price_in as int, price_out, long) as i64,
        profit_per: profit_per_of(t.price_in as int, price_out, long) as i64,
        run_up: run_up as i64,
        run_up_per: per_of(run_up, t.price_in as int) as i64,
        draw_down: draw_down as i64,
        draw_down_per: per_of(draw_down, t.price_in as int) as i64,
        stop_loss_activated: trade_type == TradeType::StopLossLong || trade_type == TradeType::StopLossShort,
    }
}

/// Every candle of the series is well formed.
pub open spec fn series_wf(data: Seq<Candle>) -> bool {
    forall|i: int| 0 <= i < data.len() ==> #[trigger] data[i].wf()
}

proof fn lemma_extremes_bounded(data: Seq<Candle>, lo: int, hi: int, dflt: int)
    requires
        series_wf(data),
        0 <= lo,
        hi <= data.len(),
        -3 * MAX_PRICE <= dflt <= 3 * MAX_PRICE,
    ensures
        -3 * MAX_PRICE <= max_high(data, lo, hi, dflt) <= 3 * MAX_PRICE,
        -3 * MAX_PRICE <= min_low(data, lo, hi, dflt) <= 3 * MAX_PRICE,
    decreases hi - lo,
{
    if hi > lo {
        lemma_extremes_bounded(data, lo, hi - 1, dflt);
        assert(data[hi - 1].wf());
    }
}

/// Highest high and lowest low of `data[lo..hi]`, each `dflt` where the range is empty.
fn extremes(data: &Vec<Candle>, lo: usize, hi: usize, dflt: i64) -> (r: (i64, i64))
    requires
        lo <= hi <= data.len(),
    ensures
        r.0 == max_high(data@, lo as int, hi as int, dflt as int),
        r.1 == min_low(data@, lo as int, hi as int, dflt as int),
{
    let mut max: i64 = dflt;
    let mut min: i64 = dflt;
    let mut i: usize = lo;
    while i < hi
        invariant
            lo <= i <= hi <= data.len(),
            max == max_high(data@, lo as int, i as int, dflt as int),
            min == min_low(data@, lo as int, i as int, dflt as int),
        decreases hi - i,
    {
        let c = &data[i];
        if i == lo || c.high > max {
            max = c.high;
        }
        if i == lo || c.low < min {
            min = c.low;
        }
        i = i + 1;
    }
    (max, min)
}

/// `diff * 10000 / base`, rounded toward zero; `0` for a base that is not positive.
fn per(diff: i64, base: i64) -> (r: i64)
    requires
        -8 * MAX_PRICE <= diff <= 8 * MAX_PRICE,
    ensures
        r == per_of(diff as int, base as int),
        -8 * MAX_PRICE * 10000 <= r <= 8 * MAX_PRICE * 10000,
{
    proof {
        let m = if diff >= 0 { diff as int } else { -diff };
        if base > 0 {
            assert(0 <= m * 10000 / (base as int) <= m * 10000) by (nonlinear_arith)
                requires
                    m >= 0,
                    base >= 1,
            ;
        }
    }
    if base <= 0 {
        0
    } else if diff >= 0 {
        diff * 10000 / base
    } else {
        -((-diff) * 10000 / base)
    }
}

/// Opens a trade at `index`: at the order's price when an order fills, else at the close.
pub fn resolve_trade_in(
    id: usize,
    index: usize,
    size: i64,
    data: &Vec<Candle>,
    pricing: &Pricing,
    trade_type: TradeType,
    order_price: Option<i64>,
) -> (r: TradeIn)
    requires
        index < data.len(),
        data[index as int].wf(),
        pricing.wf(),
        order_price is Some ==> -MAX_PRICE <= order_price->0 <= 2 * MAX_PRICE,
    ensures
        -2 * MAX_PRICE <= r.price_in <= 3 * MAX_PRICE,
        r == trade_in_of(id, index, size, data[index as int], pricing.spread, trade_type, order_price),
        r.id == id,
        r.index_in == index,
        r.date_in == data[index as int].date,
        r.size == size,
        r.trade_type == trade_type,
        r.price_in == entry_price(
            match order_price {
                Some(p) => p as int,
                None => data[index as int].close as int,
            },
            pricing.spread as int,
            trade_type.long(),
        ),
{
    let candle = &data[index];
    let base = match order_price {
        Some(p) => p,
        None => candle.close,
    };
    let half = pricing.spread / 2;
    let price_in = if trade_type.is_long() { base + half } else { base - half };
    TradeIn { id, index_in: index, date_in: candle.date, price_in, size, trade_type }
}

/// Closes `trade_in` at `index`: at the order's price when an order or the stop loss
/// fills, else at the close.
pub fn resolve_trade_out(
    index: usize,
    data: &Vec<Candle>,
    pricing: &Pricing,
    trade_in: &TradeIn,
    trade_type: TradeType,
    order_price: Option<i64>,
) -> (r: TradeOut)
    requires
        trade_in.index_in <= index < data.len(),
        series_wf(data@),
        pricing.wf(),
        0 <= trade_in.size <= MAX_SIZE,
        -3 * MAX_PRICE <= trade_in.price_in <= 3 * MAX_PRICE,
        trade_type.long() == trade_in.trade_type.long(),
        order_price is Some ==> -MAX_PRICE <= order_price->0 <= 2 * MAX_PRICE,
    ensures
        r.id == trade_in.id,
        r.trade_type == trade_type,
        r.index_in == trade_in.index_in,
        r.index_out == index,
        r.date_in == trade_in.date_in,
        r.date_out == data[index as int].date,
        r.price_in == trade_in.price_in,
        r.size == trade_in.size,
        r.price_out == exit_price(
            match order_price {
                Some(p) => p as int,
                None => data[index as int].close as int,
            },
            pricing.spread as int,
            trade_type.long(),
        ),
        r.profit == profit_of(r.size as int, r.price_in as int, r.price_out as int, trade_type.long()),
        r.profit_per == profit_per_of(r.price_in as int, r.price_out as int, trade_type.long()),
        r.run_up == run_up_of(data@, r.index_in as int, index as int, r.price_in as int, trade_type.long()),
        r.draw_down == draw_down_of(data@, r.index_in as int, index as int, r.price_in as int, trade_type.long()),
        r.run_up_per == per_of(r.run_up as int, r.price_in as int),
        r.draw_down_per == per_of(r.draw_down as int, r.price_in as int),
        r.stop_loss_activated == (trade_type == TradeType::StopLossLong || trade_type == TradeType::StopLossShort),
        r == trade_out_of(index, data@, pricing.spread, *trade_in, trade_type, order_price),
{
    let candle = &data[index];
    assert(candle.wf());
    let long = trade_type.is_long();
    let base = match order_price {
        Some(p) => p,
        None => candle.close,
    };
    let half = pricing.spread / 2;
    let price_out = if long { base - half } else { base + half };
    let price_in = trade_in.price_in;
    let diff = price_out - price_in;
    let size = trade_in.size;
    proof {
        assert(-6 * MAX_PRICE <= diff <= 6 * MAX_PRICE);
        assert(-6 * MAX_PRICE * MAX_SIZE <= size * diff <= 6 * MAX_PRICE * MAX_SIZE) by (nonlinear_arith)
            requires
                -6 * MAX_PRICE <= diff <= 6 * MAX_PRICE,
                0 <= size <= MAX_SIZE,
        ;
        assert(size * (price_in - price_out) == -(size * diff)) by (nonlinear_arith)
            requires
                diff == price_out - price_in,
        ;
    }
    let profit = if long { size * diff } else { -(size * diff) };
    let profit_per = if long { per(diff, price_in) } else { -per(diff, price_in) };
    let (max, min) = extremes(data, trade_in.index_in, index, price_in);
    proof {
        lemma_extremes_bounded(data@, trade_in.index_in as int, index as int, price_in as int);
    }
    let up_target = if long { max } else { min };
    let down_target = if long { min } else { max };
    let run_up = if up_target >= price_in { up_target - price_in } else { price_in - up_target };
    let draw_down = if down_target >= price_in { down_target - price_in } else { price_in - down_target };
    TradeOut {
        id: trade_in.id,
        trade_type,
        index_in: trade_in.index_in,
        index_out: index,
        date_in: trade_in.date_in,
        date_out: candle.date,
        price_in,
        price_out,
        size,
        profit,
        profit_per,
        run_up,
        run_up_per: per(run_up, price_in),
        draw_down,
        draw_down_per: per(draw_down, price_in),
        stop_loss_activated: trade_type.is_stop(),
    }
}

} // verus!
