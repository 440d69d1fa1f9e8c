//! Strategies: entry and exit rules, evaluated on the series up to the current index.
use vstd::prelude::*;
use crate::candle::{Candle, MAX_PRICE};
use crate::instrument::{Instrument, TimeFrameType, MAX_DATE, companion_index, covering};
use crate::order::{OrderSpec, OrderType, Target};
use crate::stop_loss::{StopLoss, StopLossType};

verus! {

/// Which sides a strategy trades, and whether it confirms on a higher time frame.
#[derive(Debug, Clone, Copy, PartialEq, Eq, Structural)]
pub enum StrategyType {
    OnlyLong,
    OnlyShort,
    LongShort,
    OnlyLongMTF,
    OnlyShortMTF,
    LongShortMTF,
}

impl StrategyType {
    pub open spec fn long(self) -> bool {
        match self {
            StrategyType::OnlyLong | StrategyType::LongShort | StrategyType::OnlyLongMTF
            | StrategyType::LongShortMTF => true,
            _ => false,
        }
    }

    pub open spec fn short(self) -> bool {
        match self {
            StrategyType::OnlyShort | StrategyType::LongShort | StrategyType::OnlyShortMTF
            | StrategyType::LongShortMTF => true,
            _ => false,
        }
    }

    pub open spec fn multi_timeframe(self) -> bool {
        match self {
            StrategyType::OnlyLongMTF | StrategyType::OnlyShortMTF | StrategyType::LongShortMTF => true,
            _ => false,
        }
    }

    pub fn is_long_strategy(&self) -> (r: bool)
        ensures
            r == self.long(),
    {
        match self {
            StrategyType::OnlyLong | StrategyType::LongShort | StrategyType::OnlyLongMTF
            | StrategyType::LongShortMTF => true,
            _ => false,
        }
    }

    pub fn is_short_strategy(&self) -> (r: bool)
        ensures
            r == self.short(),
    {
        match self {
            StrategyType::OnlyShort | StrategyType::LongShort | StrategyType::OnlyShortMTF
            | StrategyType::LongShortMTF => true,
            _ => false,
        }
    }

    pub fn is_multi_timeframe(&self) -> (r: bool)
        ensures
            r == self.multi_timeframe(),
    {
        match self {
            StrategyType::OnlyLongMTF | StrategyType::OnlyShortMTF | StrategyType::LongShortMTF => true,
            _ => false,
        }
    }
}

/// The side of the market a strategy is willing to trade at a step.
#[derive(Debug, Clone, Copy, PartialEq, Eq, Structural)]
pub enum TradeDirection {
    Long,
    Short,
    /// No side is preferred.
    Neutral,
}

/// What a strategy decides at a step.
#[derive(Debug, Clone, PartialEq, Eq)]
pub enum Position {
    /// No action.
    Hold,
    /// Enter now at the close, arming the given exit orders.
    MarketIn(Option<Vec<OrderSpec>>),
    /// Exit now at the close.
    MarketOut,
    /// Place the given orders. An entry decision places its entry orders only, and an
    /// exit decision its exit orders only: an exit order waits for an open position to
    /// protect, which a market entry's own orders or the exit rule then supply.
    Order(Vec<OrderSpec>),
}

/// A `Position` with its order lists seen as sequences.
pub enum Decision {
    Hold,
    MarketIn(Option<Seq<OrderSpec>>),
    MarketOut,
    Order(Seq<OrderSpec>),
}

impl View for Position {
    type V = Decision;

    open spec fn view(&self) -> Decision {
        match self {
            Position::Hold => Decision::Hold,
            Position::MarketIn(o) => Decision::MarketIn(
                match o {
                    Some(v) => Some(v@),
                    None => None,
                },
            ),
            Position::MarketOut => Decision::MarketOut,
            Position::Order(v) => Decision::Order(v@),
        }
    }
}

/// The entry and exit rules a strategy can follow.
#[derive(Debug, Clone, Copy, PartialEq, Eq, Structural)]
pub enum Rule {
    /// Enter long when the close crosses above `upper` and leave when it crosses below
    /// `lower`; the short side mirrors it.
    BandCross { upper: i64, lower: i64 },
    /// Place a stop entry `entry_offset` ticks beyond the close, valid for `valid_for`
    /// seconds; once in, protect the trade with a take profit and a stop-loss order.
    Breakout { entry_offset: i64, take_profit: i64, stop_offset: i64, valid_for: i64 },
    /// Enter long when indicator series `fast` crosses above series `slow` and leave when
    /// it crosses below; the short side mirrors it.
    LineCross { fast: usize, slow: usize },
    /// Bollinger reversal over indicator series `low` (the lower band) and `rsi`: enter
    /// long when the close falls through the lower band with the RSI in
    /// `[rsi_min, rsi_max]`; leave once at least three of the five candles before reached
    /// below the lower band. The short side swaps the two signals.
    BandReversal { low: usize, rsi: usize, rsi_min: i64, rsi_max: i64 },
}

impl Rule {
    pub open spec fn wf(self) -> bool {
        match self {
            Rule::BandCross { .. } | Rule::LineCross { .. } | Rule::BandReversal { .. } => true,
            Rule::Breakout { entry_offset, take_profit, stop_offset, valid_for } => {
                &&& 0 <= entry_offset <= MAX_PRICE
                &&& 0 <= take_profit <= MAX_PRICE
                &&& 0 <= stop_offset <= MAX_PRICE
                &&& 0 <= valid_for <= MAX_DATE
            },
        }
    }
}

impl Rule {
    /// Whether the rule's parameters are in range.
    pub fn is_valid(&self) -> (r: bool)
        ensures
            r == self.wf(),
    {
        match *self {
            Rule::BandCross { .. } | Rule::LineCross { .. } | Rule::BandReversal { .. } => true,
            Rule::Breakout { entry_offset, take_profit, stop_offset, valid_for } => {
                0 <= entry_offset && entry_offset <= MAX_PRICE && 0 <= take_profit && take_profit
                    <= MAX_PRICE && 0 <= stop_offset && stop_offset <= MAX_PRICE && 0 <= valid_for
                    && valid_for <= MAX_DATE
            },
        }
    }
}

impl Rule {
    /// The indicator series the rule reads exist.
    pub open spec fn fits(self, inst: Instrument) -> bool {
        match self {
            Rule::LineCross { fast, slow } => fast < inst.indicators.len() && slow < inst.indicators.len(),
            Rule::BandReversal { low, rsi, .. } => low < inst.indicators.len() && rsi < inst.indicators.len(),
            _ => true,
        }
    }

    /// Whether the indicator series the rule reads exist.
    pub fn fits_instrument(&self, inst: &Instrument) -> (r: bool)
        ensures
            r == self.fits(*inst),
    {
        match *self {
            Rule::LineCross { fast, slow } => fast < inst.indicators.len() && slow < inst.indicators.len(),
            Rule::BandReversal { low, rsi, .. } => low < inst.indicators.len() && rsi < inst.indicators.len(),
            _ => true,
        }
    }
}

/// How many candles of `data[lo..hi]` have a low below `level`.
pub open spec fn lows_below(data: Seq<Candle>, lo: int, hi: int, level: i64) -> int
    decreases hi - lo,
{
    if hi <= lo { 0 } else { lows_below(data, lo, hi - 1, level) + if data[hi - 1].low < level { 1int } else { 0 } }
}

/// The first of the (at most) five candles before `index`.
pub open spec fn lookback_start(index: int) -> int {
    if index >= 5 { index - 5 } else { 0 }
}

/// The close fell through the lower band with the RSI in range.
pub open spec fn reversal_in(inst: Instrument, low: usize, rsi: usize, rsi_min: i64, rsi_max: i64, index: int) -> bool {
    let ind = inst.indicators@;
    let data = inst.data@;
    &&& rsi_min <= ind[rsi as int]@[index] <= rsi_max
    &&& data[index].close < ind[low as int]@[index]
    &&& data[index - 1].close >= ind[low as int]@[index - 1]
}

/// At least three of the (at most) five candles before `index` reached below the lower band.
pub open spec fn reversal_out(inst: Instrument, low: usize, index: int) -> bool {
    lows_below(inst.data@, lookback_start(index), index, inst.indicators@[low as int]@[index]) >= 3
}

/// Series `a` moved from at or below series `b` to above it.
pub open spec fn line_crosses_above(ind: Seq<Vec<i64>>, a: usize, b: usize, index: int) -> bool {
    ind[a as int]@[index] > ind[b as int]@[index] && ind[a as int]@[index - 1] <= ind[b as int]@[index - 1]
}

/// The close moved from at or below `band` to above it.
pub open spec fn crosses_above(data: Seq<Candle>, index: int, band: i64) -> bool {
    data[index - 1].close <= band && data[index].close > band
}

/// The close moved from at or above `band` to below it.
pub open spec fn crosses_below(data: Seq<Candle>, index: int, band: i64) -> bool {
    data[index - 1].close >= band && data[index].close < band
}

/// What `rule` decides about entering on the given side at `index`.
pub open spec fn entry_decision(rule: Rule, long: bool, inst: Instrument, index: int) -> Decision {
    let data = inst.data@;
    match rule {
        Rule::BandCross { upper, lower } => {
            if (long && crosses_above(data, index, upper)) || (!long && crosses_below(data, index, lower)) {
                Decision::MarketIn(None)
            } else {
                Decision::Hold
            }
        },
        Rule::Breakout { entry_offset, valid_for, .. } => Decision::Order(
            seq![
                OrderSpec {
                    order_type: if long { OrderType::BuyOrderLong } else { OrderType::BuyOrderShort },
                    target: Target::Offset(if long { entry_offset } else { (-entry_offset) as i64 }),
                    valid_until: (data[index].date + valid_for) as i64,
                },
            ],
        ),
        Rule::LineCross { fast, slow } => {
            let ind = inst.indicators@;
            if (long && line_crosses_above(ind, fast, slow, index)) || (!long && line_crosses_above(ind, slow, fast, index)) {
                Decision::MarketIn(None)
            } else {
                Decision::Hold
            }
        },
        Rule::BandReversal { low, rsi, rsi_min, rsi_max } => {
            if (long && reversal_in(inst, low, rsi, rsi_min, rsi_max, index)) || (!long && reversal_out(inst, low, index)) {
                Decision::MarketIn(None)
            } else {
                Decision::Hold
            }
        },
    }
}

/// What `rule` decides about leaving a position on the given side at `index`.
pub open spec fn exit_decision(rule: Rule, long: bool, inst: Instrument, index: int) -> Decision {
    let data = inst.data@;
    match rule {
        Rule::BandCross { upper, lower } => {
            if (long && crosses_below(data, index, lower)) || (!long && crosses_above(data, index, upper)) {
                Decision::MarketOut
            } else {
                Decision::Hold
            }
        },
        Rule::Breakout { take_profit, stop_offset, valid_for, .. } => Decision::Order(
            seq![
                OrderSpec {
                    order_type: if long { OrderType::TakeProfitLong } else { OrderType::TakeProfitShort },
                    target: Target::Offset(if long { take_profit } else { (-take_profit) as i64 }),
                    valid_until: (data[index].date + valid_for) as i64,
                },
                OrderSpec {
                    order_type: if long { OrderType::StopLossLong } else { OrderType::StopLossShort },
                    target: Target::Offset(if long { (-stop_offset) as i64 } else { stop_offset }),
                    valid_until: (data[index].date + valid_for) as i64,
                },
            ],
        ),
        Rule::LineCross { fast, slow } => {
            let ind = inst.indicators@;
            if (long && line_crosses_above(ind, slow, fast, index)) || (!long && line_crosses_above(ind, fast, slow, index)) {
                Decision::MarketOut
            } else {
                Decision::Hold
            }
        },
        Rule::BandReversal { low, rsi, rsi_min, rsi_max } => {
            if (long && reversal_out(inst, low, index)) || (!long && reversal_in(inst, low, rsi, rsi_min, rsi_max, index)) {
                Decision::MarketOut
            } else {
                Decision::Hold
            }
        },
    }
}

/// The side that `rule` points to at `index` on the primary series: above the upper band
/// or below the lower one for a band cross, the order of the two series for a crossover,
/// below or above the lower band for a reversal, a rising or falling close for a breakout.
pub open spec fn rule_direction(rule: Rule, inst: Instrument, index: int) -> TradeDirection {
    let data = inst.data@;
    let ind = inst.indicators@;
    match rule {
        Rule::BandCross { upper, lower } => if data[index].close > upper {
            TradeDirection::Long
        } else if data[index].close < lower {
            TradeDirection::Short
        } else {
            TradeDirection::Neutral
        },
        Rule::Breakout { .. } => if data[index].close > data[index - 1].close {
            TradeDirection::Long
        } else if data[index].close < data[index - 1].close {
            TradeDirection::Short
        } else {
            TradeDirection::Neutral
        },
        Rule::LineCross { fast, slow } => if ind[fast as int]@[index] > ind[slow as int]@[index] {
            TradeDirection::Long
        } else if ind[fast as int]@[index] < ind[slow as int]@[index] {
            TradeDirection::Short
        } else {
            TradeDirection::Neutral
        },
        Rule::BandReversal { low, .. } => if data[index].close < ind[low as int]@[index] {
            TradeDirection::Long
        } else {
            TradeDirection::Short
        },
    }
}

/// The direction a strategy of type `st` takes: the body of the covering
/// higher-time-frame candle when it confirms there, its one side when it trades one, and
/// the direction `own` of its rule when it trades both.
pub open spec fn direction_of(st: StrategyType, companion: Option<Candle>, own: TradeDirection) -> TradeDirection {
    if st.multi_timeframe() {
        match companion {
            Some(c) => if c.close > c.open {
                TradeDirection::Long
            } else if c.close < c.open {
                TradeDirection::Short
            } else {
                TradeDirection::Neutral
            },
            None => TradeDirection::Neutral,
        }
    } else if st.long() && !st.short() {
        TradeDirection::Long
    } else if st.short() && !st.long() {
        TradeDirection::Short
    } else {
        own
    }
}

/// The orders a rule asks for have targets in range, and at most two at a time; an
/// entry at the market never carries orders.
pub proof fn lemma_decision_specs(rule: Rule, long: bool, inst: Instrument, index: int)
    requires
        rule.wf(),
    ensures
        match entry_decision(rule, long, inst, index) {
            Decision::MarketIn(o) => o is None,
            Decision::Order(s) => s.len() <= 2 && forall|j: int| 0 <= j < s.len() ==> (#[trigger] s[j]).target.wf(),
            _ => true,
        },
        match exit_decision(rule, long, inst, index) {
            Decision::MarketIn(o) => false,
            Decision::Order(s) => s.len() <= 2 && forall|j: int| 0 <= j < s.len() ==> (#[trigger] s[j]).target.wf(),
            _ => true,
        },
{
}

/// The candle of the companion series that covers `date`, if any.
pub open spec fn companion_candle(companion: Option<Seq<Candle>>, date: i64) -> Option<Candle> {
    match companion {
        Some(h) => match covering(h, date) {
            Some(k) => Some(h[k]),
            None => None,
        },
        None => None,
    }
}

/// A strategy: its rule, its type, its time frames and its stop loss.
pub struct Strategy {
    pub name: String,
    pub strategy_type: StrategyType,
    pub time_frame: TimeFrameType,
    pub higher_time_frame: Option<TimeFrameType>,
    pub rule: Rule,
    pub stop_loss: StopLoss,
}

impl Strategy {
    pub open spec fn wf(&self) -> bool {
        self.rule.wf() && self.stop_loss.wf()
    }

    pub fn new(
        name: String,
        strategy_type: StrategyType,
        time_frame: TimeFrameType,
        higher_time_frame: Option<TimeFrameType>,
        rule: Rule,
        stop_loss: StopLoss,
    ) -> (r: Strategy)
        ensures
            r.name == name,
            r.strategy_type == strategy_type,
            r.time_frame == time_frame,
            r.higher_time_frame == higher_time_frame,
            r.rule == rule,
            r.stop_loss == stop_loss,
    {
        Strategy { name, strategy_type, time_frame, higher_time_frame, rule, stop_loss }
    }

    pub fn name(&self) -> (r: &String)
        ensures
            r == &self.name,
    {
        &self.name
    }

    pub fn strategy_type(&self) -> (r: StrategyType)
        ensures
            r == self.strategy_type,
    {
        self.strategy_type
    }

    pub fn time_frame(&self) -> (r: TimeFrameType)
        ensures
            r == self.time_frame,
    {
        self.time_frame
    }

    pub fn higher_time_frame(&self) -> (r: Option<TimeFrameType>)
        ensures
            r == self.higher_time_frame,
    {
        self.higher_time_frame
    }

    pub fn stop_loss(&self) -> (r: StopLoss)
        ensures
            r == self.stop_loss,
    {
        self.stop_loss
    }

    /// Replaces the stop loss; a trailing update never loosens it.
    pub fn update_stop_loss(&mut self, stop_type: StopLossType, long: bool, price: i64)
        requires
            old(self).wf(),
            -64 * MAX_PRICE <= price <= 64 * MAX_PRICE,
        ensures
            final(self).wf(),
            final(self).name == old(self).name,
            final(self).strategy_type == old(self).strategy_type,
            final(self).rule == old(self).rule,
            final(self).higher_time_frame == old(self).higher_time_frame,
            final(self).stop_loss == crate::stop_loss::updated(old(self).stop_loss, stop_type, long, price),
            final(self).stop_loss.stop_type == stop_type,
            stop_type == StopLossType::Trailing ==> final(self).stop_loss.price == crate::stop_loss::tighter(
                old(self).stop_loss.price as int,
                price as int,
                long,
            ),
            stop_type != StopLossType::Trailing ==> final(self).stop_loss.price == price,
    {
        self.stop_loss.update(stop_type, long, price);
    }

    /// The entry decision on one side at `index`.
    pub fn entry(&self, long: bool, index: usize, instrument: &Instrument) -> (r: Position)
        requires
            self.wf(),
            instrument.wf(),
            self.rule.fits(*instrument),
            1 <= index < instrument.data.len(),
        ensures
            r@ == entry_decision(self.rule, long, *instrument, index as int),
    {
        let data = &instrument.data;
        match self.rule {
            Rule::BandCross { upper, lower } => {
                let prev = data[index - 1].close;
                let close = data[index].close;
                if (long && prev <= upper && close > upper) || (!long && prev >= lower && close < lower) {
                    Position::MarketIn(None)
                } else {
                    Position::Hold
                }
            },
            Rule::Breakout { entry_offset, valid_for, .. } => {
                let date = data[index].date;
                assert(0 <= data[index as int].date <= MAX_DATE);
                let spec = OrderSpec {
                    order_type: if long { OrderType::BuyOrderLong } else { OrderType::BuyOrderShort },
                    target: Target::Offset(if long { entry_offset } else { -entry_offset }),
                    valid_until: date + valid_for,
                };
                let v = vec![spec];
                assert(v@ =~= seq![spec]);
                Position::Order(v)
            },
            Rule::LineCross { fast, slow } => {
                let up = if long { crosses(&instrument.indicators[fast], &instrument.indicators[slow], index) } else {
                    crosses(&instrument.indicators[slow], &instrument.indicators[fast], index)
                };
                if up {
                    Position::MarketIn(None)
                } else {
                    Position::Hold
                }
            },
            Rule::BandReversal { low, rsi, rsi_min, rsi_max } => {
                let signal = if long {
                    reversal_entry(instrument, low, rsi, rsi_min, rsi_max, index)
                } else {
                    reversal_exit(instrument, low, index)
                };
                if signal {
                    Position::MarketIn(None)
                } else {
                    Position::Hold
                }
            },
        }
    }

    /// The exit decision for a position on one side at `index`.
    pub fn exit(&self, long: bool, index: usize, instrument: &Instrument) -> (r: Position)
        requires
            self.wf(),
            instrument.wf(),
            self.rule.fits(*instrument),
            1 <= index < instrument.data.len(),
        ensures
            r@ == exit_decision(self.rule, long, *instrument, index as int),
    {
        let data = &instrument.data;
        match self.rule {
            Rule::BandCross { upper, lower } => {
                let prev = data[index - 1].close;
                let close = data[index].close;
                if (long && prev >= lower && close < lower) || (!long && prev <= upper && close > upper) {
                    Position::MarketOut
                } else {
                    Position::Hold
                }
            },
            Rule::Breakout { take_profit, stop_offset, valid_for, .. } => {
                let date = data[index].date;
                assert(0 <= data[index as int].date <= MAX_DATE);
                let tp = OrderSpec {
                    order_type: if long { OrderType::TakeProfitLong } else { OrderType::TakeProfitShort },
                    target: Target::Offset(if long { take_profit } else { -take_profit }),
                    valid_until: date + valid_for,
                };
                let sl = OrderSpec {
                    order_type: if long { OrderType::StopLossLong } else { OrderType::StopLossShort },
                    target: Target::Offset(if long { -stop_offset } else { stop_offset }),
                    valid_until: date + valid_for,
                };
                let v = vec![tp, sl];
                assert(v@ =~= seq![tp, sl]);
                Position::Order(v)
            },
            Rule::LineCross { fast, slow } => {
                let down = if long { crosses(&instrument.indicators[slow], &instrument.indicators[fast], index) } else {
                    crosses(&instrument.indicators[fast], &instrument.indicators[slow], index)
                };
                if down {
                    Position::MarketOut
                } else {
                    Position::Hold
                }
            },
            Rule::BandReversal { low, rsi, rsi_min, rsi_max } => {
                let signal = if long {
                    reversal_exit(instrument, low, index)
                } else {
                    reversal_entry(instrument, low, rsi, rsi_min, rsi_max, index)
                };
                if signal {
                    Position::MarketOut
                } else {
                    Position::Hold
                }
            },
        }
    }

    pub fn entry_long(&self, index: usize, instrument: &Instrument) -> (r: Position)
        requires
            self.wf(),
            instrument.wf(),
            self.rule.fits(*instrument),
            1 <= index < instrument.data.len(),
        ensures
            r@ == entry_decision(self.rule, true, *instrument, index as int),
    {
        self.entry(true, index, instrument)
    }

    pub fn entry_short(&self, index: usize, instrument: &Instrument) -> (r: Position)
        requires
            self.wf(),
            instrument.wf(),
            self.rule.fits(*instrument),
            1 <= index < instrument.data.len(),
        ensures
            r@ == entry_decision(self.rule, false, *instrument, index as int),
    {
        self.entry(false, index, instrument)
    }

    pub fn exit_long(&self, index: usize, instrument: &Instrument) -> (r: Position)
        requires
            self.wf(),
            instrument.wf(),
            self.rule.fits(*instrument),
            1 <= index < instrument.data.len(),
        ensures
            r@ == exit_decision(self.rule, true, *instrument, index as int),
    {
        self.exit(true, index, instrument)
    }

    pub fn exit_short(&self, index: usize, instrument: &Instrument) -> (r: Position)
        requires
            self.wf(),
            instrument.wf(),
            self.rule.fits(*instrument),
            1 <= index < instrument.data.len(),
        ensures
            r@ == exit_decision(self.rule, false, *instrument, index as int),
    {
        self.exit(false, index, instrument)
    }

    /// The side that the rule points to at `index`.
    pub fn own_direction(&self, index: usize, instrument: &Instrument) -> (r: TradeDirection)
        requires
            instrument.wf(),
            self.rule.fits(*instrument),
            1 <= index < instrument.data.len(),
        ensures
            r == rule_direction(self.rule, *instrument, index as int),
    {
        let data = &instrument.data;
        let (a, b) = match self.rule {
            Rule::BandCross { upper, lower } => {
                let c = data[index].close;
                if c > upper {
                    (1i64, 0i64)
                } else if c < lower {
                    (0i64, 1i64)
                } else {
                    (0i64, 0i64)
                }
            },
            Rule::Breakout { .. } => {
                let c = data[index].close;
                let p = data[index - 1].close;
                if c > p {
                    (1i64, 0i64)
                } else if c < p {
                    (0i64, 1i64)
                } else {
                    (0i64, 0i64)
                }
            },
            Rule::LineCross { fast, slow } => {
                let f = instrument.indicators[fast][index];
                let w = instrument.indicators[slow][index];
                if f > w {
                    (1i64, 0i64)
                } else if f < w {
                    (0i64, 1i64)
                } else {
                    (0i64, 0i64)
                }
            },
            Rule::BandReversal { low, .. } => {
                if data[index].close < instrument.indicators[low][index] {
                    (1i64, 0i64)
                } else {
                    (0i64, 1i64)
                }
            },
        };
        if a > b {
            TradeDirection::Long
        } else if b > a {
            TradeDirection::Short
        } else {
            TradeDirection::Neutral
        }
    }

    /// The side the strategy is willing to trade at `index`, confirmed on the covering
    /// candle of the higher-time-frame companion where the strategy asks for one.
    pub fn trading_direction(
        &self,
        index: usize,
        instrument: &Instrument,
        companion: &Option<Instrument>,
    ) -> (r: TradeDirection)
        requires
            instrument.wf(),
            companion is Some ==> companion->0.wf(),
            self.rule.fits(*instrument),
            1 <= index < instrument.data.len(),
        ensures
            r == direction_of(
                self.strategy_type,
                companion_candle(
                    match companion {
                        Some(c) => Some(c.data@),
                        None => None,
                    },
                    instrument.data[index as int].date,
                ),
                rule_direction(self.rule, *instrument, index as int),
            ),
    {
        let st = self.strategy_type;
        let own = self.own_direction(index, instrument);
        if st.is_multi_timeframe() {
            match companion {
                Some(htf) => {
                    let date = instrument.data[index].date;
                    let k = companion_index(&htf.data, date);
                    let c = match k {
                        Some(k) => Some(htf.data[k]),
                        None => None,
                    };
                    let r = direction(st, c, own);
                    r
                },
                None => direction(st, None, own),
            }
        } else {
            direction(st, None, own)
        }
    }
}

/// Whether series `a` moved from at or below series `b` to above it at `index`.
fn crosses(a: &Vec<i64>, b: &Vec<i64>, index: usize) -> (r: bool)
    requires
        1 <= index < a.len(),
        index < b.len(),
    ensures
        r == (a@[index as int] > b@[index as int] && a@[index - 1] <= b@[index - 1]),
{
    a[index] > b[index] && a[index - 1] <= b[index - 1]
}

/// Whether the close fell through the lower band at `index` with the RSI in range.
fn reversal_entry(inst: &Instrument, low: usize, rsi: usize, rsi_min: i64, rsi_max: i64, index: usize) -> (r: bool)
    requires
        inst.wf(),
        low < inst.indicators.len(),
        rsi < inst.indicators.len(),
        1 <= index < inst.data.len(),
    ensures
        r == reversal_in(*inst, low, rsi, rsi_min, rsi_max, index as int),
{
    let lows = &inst.indicators[low];
    let r = inst.indicators[rsi][index];
    rsi_min <= r && r <= rsi_max && inst.data[index].close < lows[index] && inst.data[index - 1].close >= lows[index - 1]
}

/// Whether at least three of the five candles before `index` reached below the lower band.
fn reversal_exit(inst: &Instrument, low: usize, index: usize) -> (r: bool)
    requires
        inst.wf(),
        low < inst.indicators.len(),
        index < inst.data.len(),
    ensures
        r == reversal_out(*inst, low, index as int),
{
    let low_band = inst.indicators[low][index];
    let data = &inst.data;
    let lo: usize = if index >= 5 { index - 5 } else { 0 };
    let mut below_low: usize = 0;
    let mut x: usize = lo;
    while x < index
        invariant
            lo <= x <= index < data.len(),
            lo == lookback_start(index as int),
            below_low == lows_below(data@, lo as int, x as int, low_band),
            below_low <= x - lo,
        decreases index - x,
    {
        if data[x].low < low_band {
            below_low = below_low + 1;
        }
        x = x + 1;
    }
    below_low >= 3
}

/// The direction a strategy of type `st` takes given the covering companion candle.
pub fn direction(st: StrategyType, companion: Option<Candle>, own: TradeDirection) -> (r: TradeDirection)
    ensures
        r == direction_of(st, companion, own),
{
    if st.is_multi_timeframe() {
        match companion {
            Some(c) => if c.close > c.open {
                TradeDirection::Long
            } else if c.close < c.open {
                TradeDirection::Short
            } else {
                TradeDirection::Neutral
            },
            None => TradeDirection::Neutral,
        }
    } else if st.is_long_strategy() && !st.is_short_strategy() {
        TradeDirection::Long
    } else if st.is_short_strategy() && !st.is_long_strategy() {
        TradeDirection::Short
    } else {
        own
    }
}

} // verus!
