//! The stop-loss policy: how the trigger price of an open position is set and moved.
use vstd::prelude::*;
use crate::candle::{Candle, MAX_PRICE};

verus! {

/// Largest configuration parameter of a stop loss (a multiple, a percentage, a pip count).
pub const MAX_PARAM: i64 = 100_000;

/// How the trigger price is computed.
#[derive(Debug, Clone, Copy, PartialEq, Eq, Structural)]
pub enum StopLossType {
    /// No stop loss.
    Disabled,
    /// The ATR at entry times `value` hundredths.
    Atr,
    /// The literal price `value`.
    Price,
    /// `value` basis points of the entry price.
    Percentage,
    /// `value` pips of the instrument.
    Pips,
    /// Starts `value` ticks from the entry and only ever moves in the trade's favour.
    Trailing,
}

/// A stop loss: its kind, its configuration parameter and its current trigger price.
#[derive(Debug, Clone, Copy, PartialEq, Eq, Structural)]
pub struct StopLoss {
    pub stop_type: StopLossType,
    pub value: i64,
    pub price: i64,
}

/// The trigger price for a position entered at `entry`: `distance` below it for a long,
/// above it for a short, or the literal `value` for a price stop.
pub open spec fn trigger_of(
    stop_type: StopLossType,
    value: int,
    long: bool,
    entry: int,
    atr: int,
    pip_size: int,
) -> int {
    let distance = match stop_type {
        StopLossType::Atr => atr * value / 100,
        StopLossType::Percentage => if entry >= 0 {
            entry * value / 10000
        } else {
            -((-entry) * value / 10000)
        },
        StopLossType::Pips => value * pip_size,
        StopLossType::Trailing => value,
        _ => 0,
    };
    match stop_type {
        StopLossType::Price => value,
        _ => if long { entry - distance } else { entry + distance },
    }
}

/// The more favourable of two triggers: the higher for a long, the lower for a short.
pub open spec fn tighter(current: int, proposed: int, long: bool) -> int {
    if long {
        if proposed > current { proposed } else { current }
    } else {
        if proposed < current { proposed } else { current }
    }
}

/// The trigger after a sequence of trailing updates, starting from `start`.
pub open spec fn trail(start: int, proposals: Seq<i64>, long: bool) -> int
    decreases proposals.len(),
{
    if proposals.len() == 0 {
        start
    } else {
        tighter(trail(start, proposals.drop_last(), long), proposals.last() as int, long)
    }
}

/// `stop` after an update to a stop loss of kind `stop_type` at `price`: a trailing
/// update keeps the more favourable trigger.
pub open spec fn updated(stop: StopLoss, stop_type: StopLossType, long: bool, price: i64) -> StopLoss {
    StopLoss {
        stop_type,
        value: stop.value,
        price: if stop_type == StopLossType::Trailing {
            tighter(stop.price as int, price as int, long) as i64
        } else {
            price
        },
    }
}

/// Whether a candle reaches the trigger: its low for a long, its high for a short.
pub open spec fn hit(stop: StopLoss, long: bool, candle: Candle) -> bool {
    stop.stop_type != StopLossType::Disabled && if long {
        candle.low <= stop.price
    } else {
        candle.high >= stop.price
    }
}

impl StopLoss {
    pub open spec fn wf(&self) -> bool {
        &&& 0 <= self.value <= MAX_PARAM
        &&& -64 * MAX_PRICE <= self.price <= 64 * MAX_PRICE
    }

    /// Whether the parameter and the trigger are in range.
    pub fn is_valid(&self) -> (r: bool)
        ensures
            r == self.wf(),
    {
        0 <= self.value && self.value <= MAX_PARAM && -64 * MAX_PRICE <= self.price && self.price
            <= 64 * MAX_PRICE
    }

    /// A stop loss of the given kind, not yet armed.
    pub fn new(stop_type: StopLossType, value: i64) -> (r: StopLoss)
        ensures
            r == (StopLoss { stop_type, value, price: 0 }),
    {
        StopLoss { stop_type, value, price: 0 }
    }

    pub fn stop_type(&self) -> (r: StopLossType)
        ensures
            r == self.stop_type,
    {
        self.stop_type
    }

    pub fn price(&self) -> (r: i64)
        ensures
            r == self.price,
    {
        self.price
    }

    /// Sets the trigger for a position entered at `entry`; the ATR and the pip size are
    /// read at that moment and the trigger is then frozen.
    pub fn arm(&mut self, long: bool, entry: i64, atr: i64, pip_size: i64)
        requires
            old(self).wf(),
            -3 * MAX_PRICE <= entry <= 3 * MAX_PRICE,
            0 <= atr <= MAX_PRICE / MAX_PARAM,
            0 <= pip_size <= MAX_PRICE / MAX_PARAM,
        ensures
            final(self).wf(),
            final(self).stop_type == old(self).stop_type,
            final(self).value == old(self).value,
            final(self).price == trigger_of(
                old(self).stop_type,
                old(self).value as int,
                long,
                entry as int,
                atr as int,
                pip_size as int,
            ),
    {
        let value = self.value;
        proof {
            assert(0 <= atr * value <= MAX_PRICE) by (nonlinear_arith)
                requires
                    0 <= atr <= MAX_PRICE / MAX_PARAM,
                    0 <= value <= MAX_PARAM,
            ;
            let mag = if entry >= 0 { entry as int } else { -entry };
            assert(0 <= mag * value <= 3 * MAX_PRICE * MAX_PARAM) by (nonlinear_arith)
                requires
                    0 <= mag <= 3 * MAX_PRICE,
                    0 <= value <= MAX_PARAM,
            ;
            assert(mag * value / 10000 <= mag * value) by (nonlinear_arith)
                requires
                    0 <= mag * value,
            ;
            assert(0 <= value * pip_size <= MAX_PRICE) by (nonlinear_arith)
                requires
                    0 <= pip_size <= MAX_PRICE / MAX_PARAM,
                    0 <= value <= MAX_PARAM,
            ;
        }
        let distance: i64 = match self.stop_type {
            StopLossType::Atr => atr * value / 100,
            StopLossType::Percentage => if entry >= 0 {
                entry * value / 10000
            } else {
                -((-entry) * value / 10000)
            },
            StopLossType::Pips => value * pip_size,
            StopLossType::Trailing => value,
            _ => 0,
        };
        self.price = match self.stop_type {
            StopLossType::Price => value,
            _ => if long { entry - distance } else { entry + distance },
        };
    }

    /// Replaces the stop loss by one of the given kind at `price`; a trailing update keeps
    /// the more favourable of the current and the proposed trigger, so it never loosens.
    pub fn update(&mut self, stop_type: StopLossType, long: bool, price: i64)
        requires
            old(self).wf(),
            -64 * MAX_PRICE <= price <= 64 * MAX_PRICE,
        ensures
            final(self).wf(),
            *final(self) == updated(*old(self), stop_type, long, price),
            final(self).stop_type == stop_type,
            stop_type == StopLossType::Trailing ==> final(self).price == tighter(
                old(self).price as int,
                price as int,
                long,
            ),
            stop_type != StopLossType::Trailing ==> final(self).price == price,
    {
        let value = self.value;
        let next = if stop_type == StopLossType::Trailing {
            if long {
                if price > self.price { price } else { self.price }
            } else {
                if price < self.price { price } else { self.price }
            }
        } else {
            price
        };
        *self = StopLoss { stop_type, value, price: next };
    }

    /// Whether `candle` reaches the trigger of a position on the given side.
    pub fn is_hit(&self, long: bool, candle: &Candle) -> (r: bool)
        ensures
            r == hit(*self, long, *candle),
    {
        self.stop_type != StopLossType::Disabled && if long {
            candle.low <= self.price
        } else {
            candle.high >= self.price
        }
    }
}

/// A trailing stop on a long position never moves down: after any sequence of updates
/// the trigger is at least where it was after any earlier prefix of that sequence.
pub proof fn lemma_trailing_long_monotone(start: int, proposals: Seq<i64>, i: int, j: int)
    requires
        0 <= i <= j <= proposals.len(),
    ensures
        trail(start, proposals.take(i), true) <= trail(start, proposals.take(j), true),
    decreases j - i,
{
    if i < j {
        lemma_trailing_long_monotone(start, proposals, i, j - 1);
        assert(proposals.take(j).drop_last() =~= proposals.take(j - 1));
    }
}

/// A trailing stop on a short position never moves up.
pub proof fn lemma_trailing_short_monotone(start: int, proposals: Seq<i64>, i: int, j: int)
    requires
        0 <= i <= j <= proposals.len(),
    ensures
        trail(start, proposals.take(i), false) >= trail(start, proposals.take(j), false),
    decreases j - i,
{
    if i < j {
        lemma_trailing_short_monotone(start, proposals, i, j - 1);
        assert(proposals.take(j).drop_last() =~= proposals.take(j - 1));
    }
}

} // verus!
