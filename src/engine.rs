//! The simulation driver: one deterministic pass over the candles of an instrument.
use vstd::prelude::*;
use crate::candle::{Candle, MAX_PRICE};
use crate::instrument::{Instrument, TimeFrameType, MAX_CANDLES, minutes_of};
use crate::order::{
    Order, OrderSpec, OrderType, OrderStatus, ids_ok, groups_below, groups_settled, targets_ok,
    no_pending_exits, one_cancels_other, same_shape, prepare_orders, add_pending, fulfill_order,
    cancel_pending, cancel_pending_expired_orders, resolve_active_orders, has_pending, has_pending_of,
    keep_kind, first_eligible, eligible, fulfilled, canceled_kind, expired_all, placed_all, any_pending,
    any_pending_of, kept,
};
use crate::stats::{MAX_COMMISSION, Stats, stats_of, compute_stats};
use crate::stop_loss::{StopLoss, StopLossType, trigger_of, hit, updated};
use crate::strategy::{
    Strategy, StrategyType, TradeDirection, Position, Decision, Rule, lemma_decision_specs,
    entry_decision, exit_decision, direction_of, companion_candle, rule_direction,
};
use crate::trade::{
    TradeIn, TradeOut, TradeType, Pricing, MAX_SIZE, resolve_trade_in,
    resolve_trade_out, trade_in_of, trade_out_of,
};

verus! {

/// Largest cool-down, in candles.
pub const MAX_COOLDOWN: i64 = 1_000_000;

/// The options of a run.
#[derive(Debug, Clone, Copy, PartialEq, Eq, Structural)]
pub struct Config {
    /// Units traded per position.
    pub order_size: i64,
    /// Charged once per round trip, in basis points.
    pub commission: i64,
    /// Starting equity; the engine carries it into the result unchanged.
    pub equity: i64,
    /// The spread, in ticks.
    pub spread: i64,
    /// Whether entries wait `candles_until_new_entry` candles after an exit.
    pub wait_for_new_entry: bool,
    pub candles_until_new_entry: i64,
    /// Whether a new entry decision replaces the entry orders still pending.
    pub overwrite_orders: bool,
    /// The first index the driver evaluates.
    pub warm_up: usize,
}

impl Config {
    pub open spec fn wf(&self) -> bool {
        &&& 0 <= self.order_size <= MAX_SIZE
        &&& 0 <= self.commission <= MAX_COMMISSION
        &&& 0 <= self.spread <= MAX_PRICE
        &&& 0 <= self.candles_until_new_entry <= MAX_COOLDOWN
        &&& self.warm_up >= 1
    }

    /// Whether every option is in range.
    pub fn is_valid(&self) -> (r: bool)
        ensures
            r == self.wf(),
    {
        0 <= self.order_size && self.order_size <= MAX_SIZE && 0 <= self.commission
            && self.commission <= MAX_COMMISSION && 0 <= self.spread && self.spread <= MAX_PRICE
            && 0 <= self.candles_until_new_entry && self.candles_until_new_entry <= MAX_COOLDOWN
            && self.warm_up >= 1
    }
}

/// Why a run could not start.
#[derive(Debug, Clone, Copy, PartialEq, Eq, Structural)]
pub enum BacktestError {
    InvalidConfig,
    InvalidStrategy,
    /// The instrument or its companion is malformed.
    InvalidData,
    EmptySeries,
    /// The strategy confirms on a higher time frame and no companion was given.
    MissingCompanion,
}

/// Entries are allowed again at `date`: the cool-down is off, nothing was closed yet, or
/// the last exit is at least `candles` candles of `tf` in the past.
pub open spec fn cooldown_over(
    wait: bool,
    candles: int,
    tf: TimeFrameType,
    last_exit: Option<TradeOut>,
    date: int,
) -> bool {
    !wait || match last_exit {
        None => true,
        Some(t) => t.date_out + candles * 60 * minutes_of(tf) <= date,
    }
}

/// Whether entries are allowed at `index` after the trades closed so far.
pub fn waits_for_next_trade(
    index: usize,
    instrument: &Instrument,
    trades_out: &Vec<TradeOut>,
    config: &Config,
) -> (r: bool)
    requires
        index < instrument.data.len(),
        0 <= config.candles_until_new_entry <= MAX_COOLDOWN,
    ensures
        r == cooldown_over(
            config.wait_for_new_entry,
            config.candles_until_new_entry as int,
            instrument.time_frame,
            if trades_out.len() == 0 { None } else { Some(trades_out@.last()) },
            instrument.data[index as int].date as int,
        ),
{
    if !config.wait_for_new_entry || trades_out.len() == 0 {
        return true;
    }
    let last = &trades_out[trades_out.len() - 1];
    let secs = instrument.time_frame.to_seconds();
    assert(0 < secs <= 604800);
    assert(0 <= config.candles_until_new_entry * secs <= MAX_COOLDOWN * 604800) by (nonlinear_arith)
        requires
            0 <= config.candles_until_new_entry <= MAX_COOLDOWN,
            0 < secs <= 604800,
    ;
    assert(config.candles_until_new_entry * secs == config.candles_until_new_entry * 60 * minutes_of(
        instrument.time_frame,
    )) by (nonlinear_arith)
        requires
            secs == 60 * minutes_of(instrument.time_frame),
    ;
    let next: i128 = last.date_out as i128 + config.candles_until_new_entry as i128 * secs as i128;
    next <= instrument.data[index].date as i128
}

/// Sum of the per-trade profits, in basis points.
pub open spec fn total_per(s: Seq<TradeOut>) -> int
    decreases s.len(),
{
    if s.len() == 0 { 0 } else { total_per(s.drop_last()) + s.last().profit_per }
}

/// Whether the account still has funds: the trades so far lost less than 90%.
pub fn there_are_funds(trades_out: &Vec<TradeOut>) -> (r: bool)
    ensures
        r == (total_per(trades_out@) > -9000),
{
    let mut sum: i128 = 0;
    let mut i: usize = 0;
    while i < trades_out.len()
        invariant
            i <= trades_out.len(),
            sum == total_per(trades_out@.take(i as int)),
            -i * 0x8000_0000_0000_0000 <= sum <= i * 0x8000_0000_0000_0000,
        decreases trades_out.len() - i,
    {
        proof {
            assert(trades_out@.take(i + 1).drop_last() =~= trades_out@.take(i as int));
            assert((i + 1) * 0x8000_0000_0000_0000 <= 0xffff_ffff_ffff_ffff * 0x8000_0000_0000_0000)
                by (nonlinear_arith)
                requires
                    i < trades_out.len(),
                    trades_out.len() <= usize::MAX,
            ;
        }
        sum = sum + trades_out[i].profit_per as i128;
        i = i + 1;
    }
    proof {
        assert(trades_out@.take(trades_out.len() as int) =~= trades_out@);
    }
    sum > -9000
}

/// Trades that open and close in turn: every exit closes the entry of the same rank,
/// no earlier than it opened, and no later than the next entry opened.
pub open spec fn alternating(ins: Seq<TradeIn>, outs: Seq<TradeOut>) -> bool {
    &&& outs.len() <= ins.len() <= outs.len() + 1
    &&& forall|k: int| 0 <= k < ins.len() ==> (#[trigger] ins[k]).id == k
    &&& forall|k: int|
        0 <= k < outs.len() ==> (#[trigger] outs[k]).id == ins[k].id && ins[k].index_in
            <= outs[k].index_out
    &&& forall|k: int| 0 <= k && k + 1 < ins.len() ==> outs[k].index_out <= (#[trigger] ins[k + 1]).index_in
}

/// The state of a run: the orders placed, the trades made, and whether a position is open.
pub struct Backtest {
    pub orders: Vec<Order>,
    pub trades_in: Vec<TradeIn>,
    pub trades_out: Vec<TradeOut>,
    pub open: bool,
    pub next_group: usize,
}

impl Backtest {
    /// What holds after every step, with every trade at an index below `upto`.
    pub open spec fn inv(&self, upto: int) -> bool {
        &&& alternating(self.trades_in@, self.trades_out@)
        &&& self.open == (self.trades_in.len() == self.trades_out.len() + 1)
        &&& forall|k: int|
            0 <= k < self.trades_in.len() ==> {
                &&& (#[trigger] self.trades_in[k]).index_in < upto
                &&& -3 * MAX_PRICE <= self.trades_in[k].price_in <= 3 * MAX_PRICE
                &&& 0 <= self.trades_in[k].size <= MAX_SIZE
            }
        &&& forall|k: int|
            0 <= k < self.trades_out.len() ==> {
                &&& (#[trigger] self.trades_out[k]).index_out < upto
            }
        &&& self.trades_in.len() <= 2 * upto
        &&& ids_ok(self.orders@)
        &&& groups_below(self.orders@, self.next_group as int)
        &&& groups_settled(self.orders@)
        &&& targets_ok(self.orders@)
        &&& !self.open ==> no_pending_exits(self.orders@)
        &&& self.orders.len() <= 4 * upto
        &&& self.next_group <= 2 * upto
        &&& upto <= MAX_CANDLES
    }

    /// No orders and no trades.
    pub fn new() -> (r: Backtest)
        ensures
            r.inv(0),
            r.orders.len() == 0,
            r.trades_in.len() == 0,
            r.trades_out.len() == 0,
            !r.open,
    {
        Backtest { orders: Vec::new(), trades_in: Vec::new(), trades_out: Vec::new(), open: false, next_group: 0 }
    }
}

proof fn lemma_inv_grows(b: &Backtest, upto: int, more: int)
    requires
        b.inv(upto),
        upto <= more <= MAX_CANDLES,
    ensures
        b.inv(more),
{
}

} // verus!

verus! {

/// The state of a run seen as values: its orders and trades, whether a position is open,
/// the next order group, and the strategy's stop loss.
pub struct SimState {
    pub orders: Seq<Order>,
    pub trades_in: Seq<TradeIn>,
    pub trades_out: Seq<TradeOut>,
    pub open: bool,
    pub next_group: int,
    pub stop: StopLoss,
}

impl Backtest {
    /// This state together with the stop loss `stop`.
    pub open spec fn state(&self, stop: StopLoss) -> SimState {
        SimState {
            orders: self.orders@,
            trades_in: self.trades_in@,
            trades_out: self.trades_out@,
            open: self.open,
            next_group: self.next_group as int,
            stop,
        }
    }
}

/// `stop` armed for a position entered at `entry`.
pub open spec fn armed(stop: StopLoss, long: bool, entry: i64, atr: i64, pip_size: i64) -> StopLoss {
    StopLoss {
        price: trigger_of(stop.stop_type, stop.value as int, long, entry as int, atr as int, pip_size as int) as i64,
        ..stop
    }
}

/// `s` after a position opens at `index`.
pub open spec fn s_open(
    s: SimState,
    inst: Instrument,
    index: int,
    spread: i64,
    size: i64,
    trade_type: TradeType,
    price: Option<i64>,
) -> SimState {
    let t = trade_in_of(s.trades_in.len() as usize, index as usize, size, inst.data@[index], spread, trade_type, price);
    SimState {
        trades_in: s.trades_in.push(t),
        open: true,
        stop: armed(s.stop, trade_type.long(), t.price_in, inst.atr@[index], inst.pip_size),
        ..s
    }
}

/// `s` after the open position closes at `index` and its pending exits are canceled.
pub open spec fn s_close(
    s: SimState,
    inst: Instrument,
    index: int,
    spread: i64,
    trade_type: TradeType,
    price: Option<i64>,
) -> SimState {
    let t = trade_out_of(index as usize, inst.data@, spread, s.trades_in.last(), trade_type, price);
    SimState {
        trades_out: s.trades_out.push(t),
        open: false,
        orders: canceled_kind(s.orders, true, inst.data@[index].date),
        ..s
    }
}

/// `s` after the orders of one decision are placed at `index` as a new group.
pub open spec fn s_place(
    s: SimState,
    inst: Instrument,
    index: int,
    specs: Seq<OrderSpec>,
    trade_id: Option<usize>,
) -> SimState {
    SimState {
        orders: s.orders + placed_all(
            specs,
            s.orders.len() as int,
            s.next_group,
            index,
            inst.data@[index],
            inst.atr@[index] as int,
            inst.pip_size as int,
            trade_id,
        ),
        next_group: s.next_group + 1,
        ..s
    }
}

/// `s` after order `k` fills.
pub open spec fn s_fill(s: SimState, k: int, index: int, date: i64, trade_id: int) -> SimState {
    SimState { orders: fulfilled(s.orders, k, index, date, trade_id), ..s }
}

/// The price a stop fills at: the trigger, or the open where the candle opened beyond it.
pub open spec fn stop_fill_of(stop: int, long: bool, open: int) -> int {
    if long {
        if stop < open { stop } else { open }
    } else {
        if stop > open { stop } else { open }
    }
}

/// First part of a step: the stop loss, then the pending orders.
pub open spec fn phase_orders(s: SimState, inst: Instrument, index: int, spread: i64, size: i64) -> SimState {
    let c = inst.data@[index];
    if s.open {
        let long = s.trades_in.last().trade_type.long();
        if hit(s.stop, long, c) {
            s_close(
                s,
                inst,
                index,
                spread,
                if long { TradeType::StopLossLong } else { TradeType::StopLossShort },
                Some(stop_fill_of(s.stop.price as int, long, c.open as int) as i64),
            )
        } else {
            match first_eligible(s.orders, c, true, 0) {
                Some(k) => {
                    let o = s.orders[k];
                    let tt = if o.order_type == OrderType::StopLossLong || o.order_type == OrderType::StopLossShort {
                        if long { TradeType::StopLossLong } else { TradeType::StopLossShort }
                    } else {
                        if long { TradeType::OrderOutLong } else { TradeType::OrderOutShort }
                    };
                    s_close(s_fill(s, k, index, c.date, s.trades_in.len() - 1), inst, index, spread, tt, Some(o.target_price))
                },
                None => s,
            }
        }
    } else {
        match first_eligible(s.orders, c, false, 0) {
            Some(k) => {
                let o = s.orders[k];
                s_open(
                    s_fill(s, k, index, c.date, s.trades_in.len() as int),
                    inst,
                    index,
                    spread,
                    size,
                    if o.order_type.long() { TradeType::OrderInLong } else { TradeType::OrderInShort },
                    Some(o.target_price),
                )
            },
            None => s,
        }
    }
}

/// `s` with a trailing stop moved toward `close`, to `value` ticks from it; it never loosens.
pub open spec fn trailed(s: SimState, long: bool, close: i64) -> SimState {
    if s.stop.stop_type == StopLossType::Trailing {
        let proposed = if long { close - s.stop.value } else { close + s.stop.value };
        SimState { stop: updated(s.stop, StopLossType::Trailing, long, proposed as i64), ..s }
    } else {
        s
    }
}

/// Second part of a step: a trailing stop follows the close, then the exit rule decides,
/// while a position is open. Exit orders are placed only while none is pending, whatever
/// the overwrite option, which governs entry orders.
pub open spec fn phase_exit(s0: SimState, inst: Instrument, rule: Rule, index: int, spread: i64) -> SimState {
    if s0.open {
        let long = s0.trades_in.last().trade_type.long();
        let s = trailed(s0, long, inst.data@[index].close);
        match exit_decision(rule, long, inst, index) {
            Decision::MarketOut => s_close(
                s,
                inst,
                index,
                spread,
                if long { TradeType::MarketOutLong } else { TradeType::MarketOutShort },
                None,
            ),
            Decision::Order(specs) => if !any_pending_of(s.orders, true) {
                s_place(s, inst, index, kept(specs, true), Some((s.trades_in.len() - 1) as usize))
            } else {
                s
            },
            _ => s,
        }
    } else {
        s0
    }
}

/// Which side an entry is sought on: the one the direction names, where the strategy
/// trades it; a neutral direction seeks none.
pub open spec fn sides_of(st: StrategyType, dir: TradeDirection) -> (bool, bool) {
    (st.long() && dir == TradeDirection::Long, st.short() && dir == TradeDirection::Short)
}

/// The entry decision and whether it is on the long side: only the entry rule of the side
/// that the direction names is consulted.
pub open spec fn entry_choice(
    rule: Rule,
    st: StrategyType,
    dir: TradeDirection,
    inst: Instrument,
    index: int,
) -> (Decision, bool) {
    let sides = sides_of(st, dir);
    if sides.0 {
        (entry_decision(rule, true, inst, index), true)
    } else if sides.1 {
        (entry_decision(rule, false, inst, index), false)
    } else {
        (Decision::Hold, true)
    }
}

/// Third part of a step: the entry rule while flat, with funds, after the cool-down.
pub open spec fn phase_entry(
    s: SimState,
    inst: Instrument,
    comp: Option<Instrument>,
    rule: Rule,
    st: StrategyType,
    config: Config,
    index: int,
) -> SimState {
    let c = inst.data@[index];
    let spread = config.spread;
    if !s.open && total_per(s.trades_out) > -9000 && cooldown_over(
        config.wait_for_new_entry,
        config.candles_until_new_entry as int,
        inst.time_frame,
        if s.trades_out.len() == 0 { None } else { Some(s.trades_out.last()) },
        c.date as int,
    ) {
        let dir = direction_of(
            st,
            companion_candle(
                match comp {
                    Some(h) => Some(h.data@),
                    None => None,
                },
                c.date,
            ),
            rule_direction(rule, inst, index),
        );
        let choice = entry_choice(rule, st, dir, inst, index);
        let long = choice.1;
        match choice.0 {
            Decision::MarketIn(att) => {
                let s1 = s_open(
                    s,
                    inst,
                    index,
                    spread,
                    config.order_size,
                    if long { TradeType::MarketInLong } else { TradeType::MarketInShort },
                    None,
                );
                match att {
                    Some(specs) => if config.overwrite_orders || !any_pending(s1.orders) {
                        s_place(s1, inst, index, kept(specs, true), Some(s.trades_in.len() as usize))
                    } else {
                        s1
                    },
                    None => s1,
                }
            },
            Decision::Order(specs) => {
                let e = kept(specs, false);
                if config.overwrite_orders {
                    s_place(SimState { orders: canceled_kind(s.orders, false, c.date), ..s }, inst, index, e, None)
                } else if !any_pending(s.orders) {
                    s_place(s, inst, index, e, None)
                } else {
                    s
                }
            },
            _ => s,
        }
    } else {
        s
    }
}

/// Last part of a step: while flat, stale pending orders expire.
pub open spec fn phase_expiry(s: SimState, inst: Instrument, index: int) -> SimState {
    if !s.open {
        SimState { orders: expired_all(s.orders, inst.data@[index].date), ..s }
    } else {
        s
    }
}

/// One step of a run at `index`.
pub open spec fn step_of(
    s: SimState,
    inst: Instrument,
    comp: Option<Instrument>,
    rule: Rule,
    st: StrategyType,
    config: Config,
    index: int,
) -> SimState {
    let s1 = phase_orders(s, inst, index, config.spread, config.order_size);
    let s2 = phase_exit(s1, inst, rule, index, config.spread);
    let s3 = phase_entry(s2, inst, comp, rule, st, config, index);
    phase_expiry(s3, inst, index)
}

/// The state after the steps from `index` to the candle before the last.
pub open spec fn run_from(
    s: SimState,
    inst: Instrument,
    comp: Option<Instrument>,
    rule: Rule,
    st: StrategyType,
    config: Config,
    index: int,
) -> SimState
    decreases inst.data.len() - index,
{
    if index >= inst.data.len() - 1 {
        s
    } else {
        run_from(step_of(s, inst, comp, rule, st, config, index), inst, comp, rule, st, config, index + 1)
    }
}

/// The state before the first step.
pub open spec fn initial(stop: StopLoss) -> SimState {
    SimState {
        orders: Seq::empty(),
        trades_in: Seq::empty(),
        trades_out: Seq::empty(),
        open: false,
        next_group: 0,
        stop,
    }
}

} // verus!

verus! {

impl Backtest {
    /// Opens a position at `index` and arms the strategy's stop loss at the entry price.
    fn open_position(
        &mut self,
        strategy: &mut Strategy,
        index: usize,
        instrument: &Instrument,
        pricing: &Pricing,
        size: i64,
        trade_type: TradeType,
        price: Option<i64>,
    )
        requires
            old(self).inv(index + 1),
            old(self).trades_in.len() + 1 <= 2 * (index + 1),
            !old(self).open,
            instrument.wf(),
            index < instrument.data.len(),
            pricing.wf(),
            0 <= size <= MAX_SIZE,
            trade_type.entry(),
            price is Some ==> -MAX_PRICE <= price->0 <= 2 * MAX_PRICE,
            old(strategy).wf(),
        ensures
            final(self).inv(index + 1),
            final(self).state(final(strategy).stop_loss) == s_open(
                old(self).state(old(strategy).stop_loss),
                *instrument,
                index as int,
                pricing.spread,
                size,
                trade_type,
                price,
            ),
            final(strategy).wf(),
            final(strategy).rule == old(strategy).rule,
            final(strategy).strategy_type == old(strategy).strategy_type,
            final(strategy).name == old(strategy).name,
            final(strategy).higher_time_frame == old(strategy).higher_time_frame,
    {
        assert(instrument.data[index as int].wf());
        let id = self.trades_in.len();
        let trade_in = resolve_trade_in(id, index, size, &instrument.data, pricing, trade_type, price);
        strategy.stop_loss.arm(trade_type.is_long(), trade_in.price_in, instrument.atr[index], instrument.pip_size);
        self.trades_in.push(trade_in);
        self.open = true;
    }

    /// Closes the open position at `index` and cancels the exit orders still pending.
    fn close_position(
        &mut self,
        index: usize,
        instrument: &Instrument,
        pricing: &Pricing,
        trade_type: TradeType,
        price: Option<i64>,
    )
        requires
            old(self).inv(index + 1),
            old(self).open,
            instrument.wf(),
            index < instrument.data.len(),
            pricing.wf(),
            !trade_type.entry(),
            trade_type.long() == old(self).trades_in@.last().trade_type.long(),
            price is Some ==> -MAX_PRICE <= price->0 <= 2 * MAX_PRICE,
        ensures
            final(self).inv(index + 1),
            forall|stop: StopLoss| #[trigger] final(self).state(stop) == s_close(
                old(self).state(stop),
                *instrument,
                index as int,
                pricing.spread,
                trade_type,
                price,
            ),
            final(self).orders.len() == old(self).orders.len(),
            !final(self).open,
            final(self).trades_in == old(self).trades_in,
            final(self).next_group == old(self).next_group,
    {
        let k = self.trades_in.len() - 1;
        let trade_in = self.trades_in[k];
        assert(crate::trade::series_wf(instrument.data@)) by {
            assert forall|i: int| 0 <= i < instrument.data@.len() implies #[trigger] instrument.data@[i].wf() by {
                assert(instrument.data[i].wf());
            }
        }
        let trade_out = resolve_trade_out(index, &instrument.data, pricing, &trade_in, trade_type, price);
        self.trades_out.push(trade_out);
        self.open = false;
        let date = instrument.data[index].date;
        let ghost before = self.orders@;
        cancel_pending(&mut self.orders, true, date);
        proof {
            assert forall|j: int| 0 <= j < self.orders@.len() implies same_shape(#[trigger] self.orders@[j], before[j]) by {
                assert(same_shape(self.orders[j], before[j]));
            }
            assert(ids_ok(self.orders@));
            assert(groups_below(self.orders@, self.next_group as int));
            assert(targets_ok(self.orders@));
        }
    }

    /// Places the orders of one decision as a new group, tied to `trade_id`.
    fn place_orders(
        &mut self,
        index: usize,
        instrument: &Instrument,
        specs: &Vec<OrderSpec>,
        trade_id: Option<usize>,
    )
        requires
            old(self).inv(index + 1),
            instrument.wf(),
            index < instrument.data.len(),
            forall|k: int| 0 <= k < specs.len() ==> (#[trigger] specs[k]).target.wf(),
            old(self).orders.len() + specs.len() <= 4 * (index + 1),
            old(self).next_group + 1 <= 2 * (index + 1),
            !old(self).open ==> forall|k: int| 0 <= k < specs.len() ==> (#[trigger] specs[k]).order_type.entry(),
        ensures
            final(self).inv(index + 1),
            forall|stop: StopLoss| #[trigger] final(self).state(stop) == s_place(
                old(self).state(stop),
                *instrument,
                index as int,
                specs@,
                trade_id,
            ),
            final(self).orders.len() == old(self).orders.len() + specs.len(),
            final(self).open == old(self).open,
            final(self).trades_in == old(self).trades_in,
            final(self).trades_out == old(self).trades_out,
            final(self).next_group == old(self).next_group + 1,
    {
        let candle = &instrument.data[index];
        assert(candle.wf());
        let placed = prepare_orders(
            index,
            candle,
            instrument.atr[index],
            instrument.pip_size,
            specs,
            self.orders.len(),
            self.next_group,
            trade_id,
        );
        let ghost before = self.orders@;
        let ghost g = self.next_group;
        add_pending(&mut self.orders, placed);
        self.next_group = self.next_group + 1;
        proof {
            let o = self.orders@;
            let n = before.len();
            assert forall|j: int| 0 <= j < o.len() implies (#[trigger] o[j]).id == j by {
                if j >= n {
                    assert(o[j] == placed[j - n]);
                } else {
                    assert(o[j] == before[j]);
                }
            }
            assert forall|j: int| 0 <= j < o.len() implies (#[trigger] o[j]).group < self.next_group by {
                if j >= n {
                    assert(o[j] == placed[j - n]);
                } else {
                    assert(o[j] == before[j]);
                }
            }
            assert forall|j: int| 0 <= j < o.len() implies -MAX_PRICE <= (#[trigger] o[j]).target_price
                <= 2 * MAX_PRICE by {
                if j >= n {
                    assert(o[j] == placed[j - n]);
                } else {
                    assert(o[j] == before[j]);
                }
            }
            assert forall|a: int, b: int|
                0 <= a < o.len() && 0 <= b < o.len() && a != b && o[a].group == o[b].group
                    && #[trigger] o[a].status == OrderStatus::Fulfilled implies #[trigger] o[b].status
                == OrderStatus::Canceled || o[b].status == OrderStatus::Expired by {
                if a >= n {
                    assert(o[a] == placed[a - n]);
                } else {
                    assert(o[a] == before[a]);
                    if b >= n {
                        assert(o[b] == placed[b - n]);
                        assert(before[a].group < g);
                    } else {
                        assert(o[b] == before[b]);
                    }
                }
            }
            if !self.open {
                assert forall|j: int|
                    0 <= j < o.len() && (#[trigger] o[j]).status == OrderStatus::Pending implies o[j].order_type.entry() by {
                    if j >= n {
                        assert(o[j] == placed[j - n]);
                    } else {
                        assert(o[j] == before[j]);
                    }
                }
            }
        }
    }

    /// Fills order `k` for trade `trade_id`, canceling its siblings.
    fn fill(&mut self, k: usize, index: usize, date: i64, trade_id: usize)
        requires
            old(self).inv(index + 1),
            k < old(self).orders.len(),
            old(self).orders[k as int].status == OrderStatus::Pending,
            old(self).open != old(self).orders[k as int].order_type.entry(),
        ensures
            final(self).inv(index + 1),
            forall|stop: StopLoss| #[trigger] final(self).state(stop) == s_fill(
                old(self).state(stop),
                k as int,
                index as int,
                date,
                trade_id as int,
            ),
            final(self).orders.len() == old(self).orders.len(),
            final(self).open == old(self).open,
            final(self).trades_in == old(self).trades_in,
            final(self).trades_out == old(self).trades_out,
            final(self).next_group == old(self).next_group,
    {
        let ghost before = self.orders@;
        fulfill_order(&mut self.orders, k, index, date, trade_id);
        proof {
            assert forall|j: int| 0 <= j < self.orders@.len() implies same_shape(#[trigger] self.orders@[j], before[j]) by {
                assert(same_shape(self.orders[j], before[j]));
            }
            assert(ids_ok(self.orders@));
            assert(groups_below(self.orders@, self.next_group as int));
            assert(targets_ok(self.orders@));
        }
    }

    /// Cancels the pending orders of one kind: exits (`exits`) or entries.
    fn cancel_kind(&mut self, exits: bool, index: usize, date: i64)
        requires
            old(self).inv(index + 1),
        ensures
            final(self).inv(index + 1),
            forall|stop: StopLoss| #[trigger] final(self).state(stop) == (SimState {
                orders: canceled_kind(old(self).orders@, exits, date),
                ..old(self).state(stop)
            }),
            final(self).orders.len() == old(self).orders.len(),
            final(self).open == old(self).open,
            final(self).trades_in == old(self).trades_in,
            final(self).trades_out == old(self).trades_out,
            final(self).next_group == old(self).next_group,
    {
        let ghost before = self.orders@;
        cancel_pending(&mut self.orders, exits, date);
        proof {
            assert forall|j: int| 0 <= j < self.orders@.len() implies same_shape(#[trigger] self.orders@[j], before[j]) by {
                assert(same_shape(self.orders[j], before[j]));
            }
            assert(ids_ok(self.orders@));
            assert(groups_below(self.orders@, self.next_group as int));
            assert(targets_ok(self.orders@));
        }
    }

    /// Expires the pending orders whose validity ended before `date`.
    fn expire(&mut self, index: usize, date: i64)
        requires
            old(self).inv(index + 1),
        ensures
            final(self).inv(index + 1),
            forall|stop: StopLoss| #[trigger] final(self).state(stop) == (SimState {
                orders: expired_all(old(self).orders@, date),
                ..old(self).state(stop)
            }),
            final(self).orders.len() == old(self).orders.len(),
            final(self).open == old(self).open,
            final(self).trades_in == old(self).trades_in,
            final(self).trades_out == old(self).trades_out,
            final(self).next_group == old(self).next_group,
    {
        let ghost before = self.orders@;
        cancel_pending_expired_orders(&mut self.orders, date);
        proof {
            assert forall|j: int| 0 <= j < self.orders@.len() implies same_shape(#[trigger] self.orders@[j], before[j]) by {
                assert(same_shape(self.orders[j], before[j]));
            }
            assert(ids_ok(self.orders@));
            assert(groups_below(self.orders@, self.next_group as int));
            assert(targets_ok(self.orders@));
        }
    }
}

} // verus!

verus! {

impl Backtest {
    /// The stop loss, then the pending orders.
    fn phase_orders(
        &mut self,
        strategy: &mut Strategy,
        index: usize,
        instrument: &Instrument,
        config: &Config,
        pricing: &Pricing,
    )
        requires
            old(self).inv(index + 1),
            old(self).trades_in.len() + 2 <= 2 * (index + 1),
            instrument.wf(),
            index < instrument.data.len(),
            config.wf(),
            pricing.wf(),
            old(strategy).wf(),
        ensures
            final(self).inv(index + 1),
            final(self).state(final(strategy).stop_loss) == phase_orders(
                old(self).state(old(strategy).stop_loss),
                *instrument,
                index as int,
                pricing.spread,
                config.order_size,
            ),
            final(self).orders.len() == old(self).orders.len(),
            final(self).trades_in.len() <= old(self).trades_in.len() + 1,
            final(self).next_group == old(self).next_group,
            final(strategy).wf(),
            final(strategy).rule == old(strategy).rule,
            final(strategy).strategy_type == old(strategy).strategy_type,
            final(strategy).name == old(strategy).name,
            final(strategy).higher_time_frame == old(strategy).higher_time_frame,
    {
        let candle = instrument.data[index];
        assert(candle.wf());
        let date = candle.date;
        if self.open {
            let tid = self.trades_in.len() - 1;
            let long = self.trades_in[tid].trade_type.is_long();
            if strategy.stop_loss.is_hit(long, &candle) {
                let stop = strategy.stop_loss.price;
                let fill = if long {
                    if stop < candle.open { stop } else { candle.open }
                } else {
                    if stop > candle.open { stop } else { candle.open }
                };
                let tt = if long { TradeType::StopLossLong } else { TradeType::StopLossShort };
                self.close_position(index, instrument, pricing, tt, Some(fill));
            } else {
                match resolve_active_orders(&self.orders, &candle, true) {
                    Some(k) => {
                        let order = self.orders[k];
                        self.fill(k, index, date, tid);
                        let tt = if order.order_type.is_stop() {
                            if long { TradeType::StopLossLong } else { TradeType::StopLossShort }
                        } else {
                            if long { TradeType::OrderOutLong } else { TradeType::OrderOutShort }
                        };
                        self.close_position(index, instrument, pricing, tt, Some(order.target_price));
                    },
                    None => {},
                }
            }
        } else {
            match resolve_active_orders(&self.orders, &candle, false) {
                Some(k) => {
                    let order = self.orders[k];
                    let tid = self.trades_in.len();
                    self.fill(k, index, date, tid);
                    let tt = if order.order_type.is_long() { TradeType::OrderInLong } else { TradeType::OrderInShort };
                    self.open_position(strategy, index, instrument, pricing, config.order_size, tt, Some(order.target_price));
                },
                None => {},
            }
        }
    }

    /// A trailing stop follows the close, then the exit rule decides, while a position is open.
    fn phase_exit(&mut self, strategy: &mut Strategy, index: usize, instrument: &Instrument, pricing: &Pricing)
        requires
            old(self).inv(index + 1),
            instrument.wf(),
            1 <= index < instrument.data.len(),
            pricing.wf(),
            old(strategy).wf(),
            old(strategy).rule.fits(*instrument),
            old(self).orders.len() + 2 <= 4 * (index + 1),
            old(self).next_group + 1 <= 2 * (index + 1),
        ensures
            final(self).inv(index + 1),
            final(self).state(final(strategy).stop_loss) == phase_exit(
                old(self).state(old(strategy).stop_loss),
                *instrument,
                old(strategy).rule,
                index as int,
                pricing.spread,
            ),
            final(self).orders.len() <= old(self).orders.len() + 2,
            final(self).trades_in == old(self).trades_in,
            final(self).next_group <= old(self).next_group + 1,
            final(strategy).wf(),
            final(strategy).rule == old(strategy).rule,
            final(strategy).strategy_type == old(strategy).strategy_type,
            final(strategy).name == old(strategy).name,
            final(strategy).higher_time_frame == old(strategy).higher_time_frame,
    {
        if self.open {
            let tid = self.trades_in.len() - 1;
            let long = self.trades_in[tid].trade_type.is_long();
            if strategy.stop_loss.stop_type == StopLossType::Trailing {
                let close = instrument.data[index].close;
                assert(instrument.data[index as int].wf());
                let distance = strategy.stop_loss.value;
                let proposed = if long { close - distance } else { close + distance };
                strategy.update_stop_loss(StopLossType::Trailing, long, proposed);
            }
            let p = strategy.exit(long, index, instrument);
            proof {
                lemma_decision_specs(strategy.rule, long, *instrument, index as int);
            }
            match p {
                Position::MarketOut => {
                    let tt = if long { TradeType::MarketOutLong } else { TradeType::MarketOutShort };
                    self.close_position(index, instrument, pricing, tt, None);
                },
                Position::Order(specs) => {
                    if !has_pending_of(&self.orders, true) {
                        let exits = keep_kind(&specs, true);
                        proof {
                            assert forall|k: int| 0 <= k < exits.len() implies (#[trigger] exits[k]).target.wf() by {
                                let i = choose|i: int| 0 <= i < specs.len() && specs[i] == exits[k];
                                assert(specs@[i].target.wf());
                            }
                        }
                        self.place_orders(index, instrument, &exits, Some(tid));
                    }
                },
                _ => {},
            }
        }
    }

    /// The entry rule while flat, with funds, after the cool-down.
    fn phase_entry(
        &mut self,
        strategy: &mut Strategy,
        index: usize,
        instrument: &Instrument,
        companion: &Option<Instrument>,
        config: &Config,
        pricing: &Pricing,
    )
        requires
            old(self).inv(index + 1),
            old(self).trades_in.len() + 1 <= 2 * (index + 1),
            instrument.wf(),
            companion is Some ==> companion->0.wf(),
            1 <= index < instrument.data.len(),
            config.wf(),
            pricing.wf(),
            pricing.spread == config.spread,
            old(strategy).wf(),
            old(strategy).rule.fits(*instrument),
            old(self).orders.len() + 2 <= 4 * (index + 1),
            old(self).next_group + 1 <= 2 * (index + 1),
        ensures
            final(self).inv(index + 1),
            final(self).state(final(strategy).stop_loss) == phase_entry(
                old(self).state(old(strategy).stop_loss),
                *instrument,
                *companion,
                old(strategy).rule,
                old(strategy).strategy_type,
                *config,
                index as int,
            ),
            final(strategy).wf(),
            final(strategy).rule == old(strategy).rule,
            final(strategy).strategy_type == old(strategy).strategy_type,
            final(strategy).name == old(strategy).name,
            final(strategy).higher_time_frame == old(strategy).higher_time_frame,
    {
        let date = instrument.data[index].date;
        if !self.open && there_are_funds(&self.trades_out) && waits_for_next_trade(
            index,
            instrument,
            &self.trades_out,
            config,
        ) {
            let dir = strategy.trading_direction(index, instrument, companion);
            let st = strategy.strategy_type;
            let long_ok = st.is_long_strategy() && dir == TradeDirection::Long;
            let short_ok = st.is_short_strategy() && dir == TradeDirection::Short;
            let mut long = true;
            let mut p = Position::Hold;
            if long_ok {
                p = strategy.entry(true, index, instrument);
            } else if short_ok {
                p = strategy.entry(false, index, instrument);
                long = false;
            }
            proof {
                lemma_decision_specs(strategy.rule, long, *instrument, index as int);
            }
            match p {
                Position::MarketIn(attached) => {
                    let id = self.trades_in.len();
                    let tt = if long { TradeType::MarketInLong } else { TradeType::MarketInShort };
                    self.open_position(strategy, index, instrument, pricing, config.order_size, tt, None);
                    match attached {
                        Some(specs) => {
                            if config.overwrite_orders || !has_pending(&self.orders) {
                                let exits = keep_kind(&specs, true);
                                self.place_orders(index, instrument, &exits, Some(id));
                            }
                        },
                        None => {},
                    }
                },
                Position::Order(specs) => {
                    let entries = keep_kind(&specs, false);
                    proof {
                        assert forall|k: int| 0 <= k < entries.len() implies (#[trigger] entries[k]).target.wf() by {
                            let i = choose|i: int| 0 <= i < specs.len() && specs[i] == entries[k];
                            assert(specs@[i].target.wf());
                        }
                    }
                    if config.overwrite_orders {
                        self.cancel_kind(false, index, date);
                        self.place_orders(index, instrument, &entries, None);
                    } else if !has_pending(&self.orders) {
                        self.place_orders(index, instrument, &entries, None);
                    }
                },
                _ => {},
            }
        }
    }

    /// One step at `index`: the stop loss and the pending orders first, then the exit
    /// rule while a position is open, then the entry rule while flat, then the expiry
    /// of stale orders while still flat.
    fn step(
        &mut self,
        strategy: &mut Strategy,
        index: usize,
        instrument: &Instrument,
        companion: &Option<Instrument>,
        config: &Config,
        pricing: &Pricing,
    )
        requires
            old(self).inv(index as int),
            instrument.wf(),
            companion is Some ==> companion->0.wf(),
            1 <= index < instrument.data.len(),
            config.wf(),
            pricing.wf(),
            pricing.spread == config.spread,
            old(strategy).wf(),
            old(strategy).rule.fits(*instrument),
        ensures
            final(self).inv(index + 1),
            final(self).state(final(strategy).stop_loss) == step_of(
                old(self).state(old(strategy).stop_loss),
                *instrument,
                *companion,
                old(strategy).rule,
                old(strategy).strategy_type,
                *config,
                index as int,
            ),
            final(strategy).wf(),
            final(strategy).rule == old(strategy).rule,
            final(strategy).strategy_type == old(strategy).strategy_type,
            final(strategy).name == old(strategy).name,
            final(strategy).higher_time_frame == old(strategy).higher_time_frame,
    {
        assert(self.orders.len() <= 4 * index && self.next_group <= 2 * index && self.trades_in.len() <= 2 * index);
        proof {
            lemma_inv_grows(self, index as int, index + 1);
        }
        self.phase_orders(strategy, index, instrument, config, pricing);
        self.phase_exit(strategy, index, instrument, pricing);
        self.phase_entry(strategy, index, instrument, companion, config, pricing);
        if !self.open {
            let date = instrument.data[index].date;
            self.expire(index, date);
        }
    }
}

/// The outcome of a run of one strategy on one instrument.
pub struct BacktestResult {
    pub symbol: String,
    pub market: String,
    pub strategy: String,
    pub strategy_type: StrategyType,
    pub time_frame: TimeFrameType,
    pub higher_time_frame: Option<TimeFrameType>,
    /// The starting equity of the run.
    pub equity: i64,
    pub trades_in: Vec<TradeIn>,
    pub trades_out: Vec<TradeOut>,
    pub orders: Vec<Order>,
    pub stats: Stats,
}

/// Fulfilled orders leave their group settled, so no two orders of a group both fill.
pub proof fn lemma_settled_one_cancels_other(orders: Seq<Order>)
    requires
        groups_settled(orders),
    ensures
        one_cancels_other(orders),
{
    assert forall|i: int, j: int|
        0 <= i < orders.len() && 0 <= j < orders.len() && i != j && orders[i].group == orders[j].group
            && #[trigger] orders[i].status == OrderStatus::Fulfilled implies #[trigger] orders[j].status
        != OrderStatus::Fulfilled by {
        assert(orders[j].status == OrderStatus::Canceled || orders[j].status == OrderStatus::Expired);
    }
}

/// The error a run stops with before its first step, if any.
pub open spec fn run_error(
    strategy: Strategy,
    instrument: Instrument,
    companion: Option<Instrument>,
    config: Config,
) -> Option<BacktestError> {
    if !config.wf() {
        Some(BacktestError::InvalidConfig)
    } else if !strategy.wf() {
        Some(BacktestError::InvalidStrategy)
    } else if !instrument.wf() || (companion is Some && !companion->0.wf()) || !strategy.rule.fits(
        instrument,
    ) {
        Some(BacktestError::InvalidData)
    } else if instrument.data.len() == 0 {
        Some(BacktestError::EmptySeries)
    } else if strategy.strategy_type.multi_timeframe() && companion is None {
        Some(BacktestError::MissingCompanion)
    } else {
        None
    }
}

/// The state a run of `strategy` on `instrument` ends in.
pub open spec fn outcome(
    strategy: Strategy,
    instrument: Instrument,
    companion: Option<Instrument>,
    config: Config,
) -> SimState {
    run_from(
        initial(strategy.stop_loss),
        instrument,
        companion,
        strategy.rule,
        strategy.strategy_type,
        config,
        config.warm_up as int,
    )
}

/// What `run` returns: the error of `run_error` where there is one, else the trades and
/// orders of `outcome`, folded into statistics.
pub open spec fn run_result(
    strategy: Strategy,
    instrument: Instrument,
    companion: Option<Instrument>,
    config: Config,
    r: Result<BacktestResult, BacktestError>,
) -> bool {
    match run_error(strategy, instrument, companion, config) {
        Some(e) => r == Err::<BacktestResult, BacktestError>(e),
        None => r is Ok && {
            let res = r->Ok_0;
            let out = outcome(strategy, instrument, companion, config);
            &&& res.trades_in@ == out.trades_in
            &&& res.trades_out@ == out.trades_out
            &&& res.orders@ == out.orders
            &&& res.stats == stats_of(
                out.trades_out,
                config.commission as int,
                instrument.data@[0].close as int,
                instrument.data@.last().close as int,
            )
            &&& res.symbol@ == instrument.symbol@
            &&& res.market@ == instrument.market@
            &&& res.strategy@ == strategy.name@
            &&& res.strategy_type == strategy.strategy_type
            &&& res.time_frame == instrument.time_frame
            &&& res.higher_time_frame == strategy.higher_time_frame
            &&& res.equity == config.equity
        },
    }
}

/// Runs `strategy` over `instrument`, step by step from the warm-up index to the candle
/// before the last, and folds the closed trades into statistics.
pub fn run(
    strategy: &mut Strategy,
    instrument: &Instrument,
    companion: &Option<Instrument>,
    config: &Config,
) -> (r: Result<BacktestResult, BacktestError>)
    ensures
        run_result(*old(strategy), *instrument, *companion, *config, r),
        r is Ok ==> final(strategy).stop_loss == outcome(*old(strategy), *instrument, *companion, *config).stop,
        r is Ok ==> {
            let res = r->Ok_0;
            &&& alternating(res.trades_in@, res.trades_out@)
            &&& one_cancels_other(res.orders@)
            &&& groups_settled(res.orders@)
            &&& forall|k: int| 0 <= k < res.trades_out.len() ==> (#[trigger] res.trades_out[k]).index_out
                < instrument.data.len() - 1
        },
{
    if !config.is_valid() {
        return Err(BacktestError::InvalidConfig);
    }
    if !(strategy.rule.is_valid() && strategy.stop_loss.is_valid()) {
        return Err(BacktestError::InvalidStrategy);
    }
    let companion_ok = match companion {
        Some(c) => c.is_valid(),
        None => true,
    };
    if !instrument.is_valid() || !companion_ok || !strategy.rule.fits_instrument(instrument) {
        return Err(BacktestError::InvalidData);
    }
    let len = instrument.data.len();
    if len == 0 {
        return Err(BacktestError::EmptySeries);
    }
    if strategy.strategy_type.is_multi_timeframe() && companion.is_none() {
        return Err(BacktestError::MissingCompanion);
    }
    let ghost start = *strategy;
    let pricing = Pricing::new(config.spread);
    let mut bt = Backtest::new();
    let mut index: usize = config.warm_up;
    proof {
        lemma_inv_grows(&bt, 0, if index < len { index as int } else { len as int });
        assert(bt.orders@ =~= Seq::<Order>::empty());
        assert(bt.trades_in@ =~= Seq::<TradeIn>::empty());
        assert(bt.trades_out@ =~= Seq::<TradeOut>::empty());
        assert(bt.state(strategy.stop_loss) == initial(start.stop_loss));
    }
    while index < len - 1
        invariant
            instrument.wf(),
            companion is Some ==> companion->0.wf(),
            config.wf(),
            pricing.wf(),
            pricing.spread == config.spread,
            strategy.wf(),
            strategy.rule.fits(*instrument),
            len == instrument.data.len(),
            len >= 1,
            index >= 1,
            bt.inv(if index < len { index as int } else { len as int }),
            index + 1 < len ==> bt.inv(index as int),
            forall|k: int| 0 <= k < bt.trades_out.len() ==> (#[trigger] bt.trades_out[k]).index_out < len - 1,
            strategy.name == start.name,
            strategy.strategy_type == start.strategy_type,
            strategy.higher_time_frame == start.higher_time_frame,
            strategy.rule == start.rule,
            outcome(start, *instrument, *companion, *config) == run_from(
                bt.state(strategy.stop_loss),
                *instrument,
                *companion,
                start.rule,
                start.strategy_type,
                *config,
                index as int,
            ),
        decreases len - index,
    {
        bt.step(strategy, index, instrument, companion, config, &pricing);
        index = index + 1;
    }
    proof {
        lemma_settled_one_cancels_other(bt.orders@);
        assert(bt.trades_out.len() <= crate::stats::MAX_TRADES);
        assert(instrument.data[0].wf());
        assert(instrument.data[len - 1].wf());
    }
    let stats = compute_stats(&bt.trades_out, config.commission, &instrument.data);
    Ok(BacktestResult {
        symbol: instrument.symbol.clone(),
        market: instrument.market.clone(),
        strategy: strategy.name.clone(),
        strategy_type: strategy.strategy_type,
        time_frame: instrument.time_frame,
        higher_time_frame: strategy.higher_time_frame,
        equity: config.equity,
        trades_in: bt.trades_in,
        trades_out: bt.trades_out,
        orders: bt.orders,
        stats,
    })
}

/// Runs are deterministic: two runs of one strategy on one instrument, companion and
/// configuration return the same error, or the same trades, orders and statistics.
pub proof fn lemma_run_deterministic(
    strategy: Strategy,
    instrument: Instrument,
    companion: Option<Instrument>,
    config: Config,
    r1: Result<BacktestResult, BacktestError>,
    r2: Result<BacktestResult, BacktestError>,
)
    requires
        run_result(strategy, instrument, companion, config, r1),
        run_result(strategy, instrument, companion, config, r2),
    ensures
        r1 is Err ==> r1 == r2,
        r1 is Ok <==> r2 is Ok,
        r1 is Ok ==> {
            &&& r1->Ok_0.trades_in@ == r2->Ok_0.trades_in@
            &&& r1->Ok_0.trades_out@ == r2->Ok_0.trades_out@
            &&& r1->Ok_0.orders@ == r2->Ok_0.orders@
            &&& r1->Ok_0.stats == r2->Ok_0.stats
        },
{
}

} // verus!

verus! {

proof fn lemma_first_eligible(s: Seq<Order>, candle: Candle, open: bool, i: int)
    requires
        0 <= i,
    ensures
        match first_eligible(s, candle, open, i) {
            Some(k) => i <= k < s.len() && eligible(s[k], candle, open),
            None => true,
        },
    decreases s.len() - i,
{
    if i < s.len() {
        lemma_first_eligible(s, candle, open, i + 1);
    }
}

/// Orders that are no longer pending, and their number, survive one phase.
pub open spec fn keeps_settled(a: Seq<Order>, b: Seq<Order>) -> bool {
    &&& a.len() <= b.len()
    &&& forall|j: int| 0 <= j < a.len() && a[j].status != OrderStatus::Pending ==> #[trigger] b[j] == a[j]
}

proof fn lemma_keeps_settled_trans(a: Seq<Order>, b: Seq<Order>, c: Seq<Order>)
    requires
        keeps_settled(a, b),
        keeps_settled(b, c),
    ensures
        keeps_settled(a, c),
{
    assert forall|j: int| 0 <= j < a.len() && a[j].status != OrderStatus::Pending implies #[trigger] c[j] == a[j] by {
        assert(b[j] == a[j]);
    }
}

proof fn lemma_step_keeps_settled(
    s: SimState,
    inst: Instrument,
    comp: Option<Instrument>,
    rule: Rule,
    st: StrategyType,
    config: Config,
    index: int,
)
    ensures
        keeps_settled(s.orders, step_of(s, inst, comp, rule, st, config, index).orders),
{
    let c = inst.data@[index];
    lemma_first_eligible(s.orders, c, true, 0);
    lemma_first_eligible(s.orders, c, false, 0);
    let s1 = phase_orders(s, inst, index, config.spread, config.order_size);
    let s2 = phase_exit(s1, inst, rule, index, config.spread);
    let s3 = phase_entry(s2, inst, comp, rule, st, config, index);
    let s4 = phase_expiry(s3, inst, index);
    assert(keeps_settled(s.orders, s1.orders)) by {
        assert forall|j: int| 0 <= j < s.orders.len() && s.orders[j].status != OrderStatus::Pending implies #[trigger] s1.orders[j] == s.orders[j] by {
        }
    }
    assert(keeps_settled(s1.orders, s2.orders));
    assert(keeps_settled(s2.orders, s3.orders)) by {
        assert forall|j: int| 0 <= j < s2.orders.len() && s2.orders[j].status != OrderStatus::Pending implies #[trigger] s3.orders[j] == s2.orders[j] by {
        }
    }
    assert(keeps_settled(s3.orders, s4.orders));
    lemma_keeps_settled_trans(s.orders, s1.orders, s2.orders);
    lemma_keeps_settled_trans(s.orders, s2.orders, s3.orders);
    lemma_keeps_settled_trans(s.orders, s3.orders, s4.orders);
}

/// Filled, canceled and expired are final: an order that has left `Pending` in some state
/// of a run is the same order, with the same status, in every later state and at the end.
pub proof fn lemma_settled_orders_stay(
    s: SimState,
    inst: Instrument,
    comp: Option<Instrument>,
    rule: Rule,
    st: StrategyType,
    config: Config,
    index: int,
)
    ensures
        keeps_settled(s.orders, run_from(s, inst, comp, rule, st, config, index).orders),
    decreases inst.data.len() - index,
{
    if index < inst.data.len() - 1 {
        let s1 = step_of(s, inst, comp, rule, st, config, index);
        lemma_step_keeps_settled(s, inst, comp, rule, st, config, index);
        lemma_settled_orders_stay(s1, inst, comp, rule, st, config, index + 1);
        lemma_keeps_settled_trans(s.orders, s1.orders, run_from(s1, inst, comp, rule, st, config, index + 1).orders);
    }
}

/// A step leaves the stop loss where it was unless it opens a trade, which arms the stop,
/// or the stop is a trailing one: an ATR, price, percentage or pip stop stays frozen while
/// its trade is open.
pub proof fn lemma_stop_frozen(
    s: SimState,
    inst: Instrument,
    comp: Option<Instrument>,
    rule: Rule,
    st: StrategyType,
    config: Config,
    index: int,
)
    requires
        s.stop.stop_type != StopLossType::Trailing,
        step_of(s, inst, comp, rule, st, config, index).trades_in.len() == s.trades_in.len(),
    ensures
        step_of(s, inst, comp, rule, st, config, index).stop == s.stop,
{
    let c = inst.data@[index];
    let s1 = phase_orders(s, inst, index, config.spread, config.order_size);
    let s2 = phase_exit(s1, inst, rule, index, config.spread);
    let s3 = phase_entry(s2, inst, comp, rule, st, config, index);
    assert(s1.trades_in.len() >= s.trades_in.len());
    assert(s2.trades_in.len() == s1.trades_in.len());
    assert(s3.trades_in.len() >= s2.trades_in.len());
    assert(s1.stop == s.stop);
    assert(s2.stop == s1.stop);
    assert(s3.stop == s2.stop);
}

} // verus!
