//! Summary statistics folded from the closed trades of a run.
use vstd::prelude::*;
use crate::candle::Candle;
use crate::trade::{TradeOut, per_of};

verus! {

/// Sum of the per-trade profits, in basis points.
pub open spec fn sum_per(s: Seq<TradeOut>) -> int
    decreases s.len(),
{
    if s.len() == 0 { 0 } else { sum_per(s.drop_last()) + s.last().profit_per }
}

/// Sum of the profits of the winning trades.
pub open spec fn gross_profit(s: Seq<TradeOut>) -> int
    decreases s.len(),
{
    if s.len() == 0 {
        0
    } else {
        gross_profit(s.drop_last()) + if s.last().profit > 0 { s.last().profit as int } else { 0 }
    }
}

/// Sum of the profits of the losing trades (not positive).
pub open spec fn gross_loss(s: Seq<TradeOut>) -> int
    decreases s.len(),
{
    if s.len() == 0 {
        0
    } else {
        gross_loss(s.drop_last()) + if s.last().profit < 0 { s.last().profit as int } else { 0 }
    }
}

pub open spec fn wins(s: Seq<TradeOut>) -> int
    decreases s.len(),
{
    if s.len() == 0 { 0 } else { wins(s.drop_last()) + if s.last().profit > 0 { 1int } else { 0 } }
}

pub open spec fn losses(s: Seq<TradeOut>) -> int
    decreases s.len(),
{
    if s.len() == 0 { 0 } else { losses(s.drop_last()) + if s.last().profit < 0 { 1int } else { 0 } }
}

pub open spec fn stops(s: Seq<TradeOut>) -> int
    decreases s.len(),
{
    if s.len() == 0 {
        0
    } else {
        stops(s.drop_last()) + if s.last().stop_loss_activated { 1int } else { 0 }
    }
}

/// Highest cumulative profit reached so far, starting from zero.
pub open spec fn peak(s: Seq<TradeOut>) -> int
    decreases s.len(),
{
    if s.len() == 0 {
        0
    } else {
        let p = peak(s.drop_last());
        if sum_per(s) > p { sum_per(s) } else { p }
    }
}

/// Largest fall of the cumulative profit below its running peak, in basis points.
pub open spec fn max_drawdown(s: Seq<TradeOut>) -> int
    decreases s.len(),
{
    if s.len() == 0 {
        0
    } else {
        let d = max_drawdown(s.drop_last());
        if peak(s) - sum_per(s) > d { peak(s) - sum_per(s) } else { d }
    }
}

/// `a / b`, or `0` where `b` is zero.
pub open spec fn ratio(a: int, b: int) -> int {
    if b == 0 { 0 } else { a / b }
}

/// The statistics of a run. Percentages are in basis points.
#[derive(Debug, Clone, Copy, PartialEq, Eq, Structural)]
pub struct Stats {
    pub trades: usize,
    pub wins: usize,
    pub losses: usize,
    pub stop_losses: usize,
    pub gross_profit: i128,
    pub gross_loss: i128,
    pub net_profit: i128,
    /// Sum of the per-trade profits less one commission per round trip.
    pub net_profit_per: i128,
    pub commissions: i128,
    /// Winning trades over all trades.
    pub win_rate: i128,
    /// Gross profit over the absolute gross loss, in hundredths; zero with no loss.
    pub profit_factor: i128,
    pub avg_win: i128,
    pub avg_loss: i128,
    pub max_drawdown: i128,
    /// Change from the first to the last close of the series.
    pub buy_hold: i128,
}

/// What `compute_stats` returns for closed trades `s`, a commission per round trip, and
/// the first and last closes of the series.
pub open spec fn stats_of(s: Seq<TradeOut>, commission: int, first: int, last: int) -> Stats {
    let n = s.len() as int;
    Stats {
        trades: n as usize,
        wins: wins(s) as usize,
        losses: losses(s) as usize,
        stop_losses: stops(s) as usize,
        gross_profit: gross_profit(s) as i128,
        gross_loss: gross_loss(s) as i128,
        net_profit: (gross_profit(s) + gross_loss(s)) as i128,
        net_profit_per: (sum_per(s) - n * commission) as i128,
        commissions: (n * commission) as i128,
        win_rate: ratio(wins(s) * 10000, n) as i128,
        profit_factor: ratio(gross_profit(s) * 100, -gross_loss(s)) as i128,
        avg_win: ratio(gross_profit(s), wins(s)) as i128,
        avg_loss: -ratio(-gross_loss(s), losses(s)) as i128,
        max_drawdown: max_drawdown(s) as i128,
        buy_hold: per_of(last - first, first) as i128,
    }
}

/// Largest commission per round trip, in basis points.
pub const MAX_COMMISSION: i64 = 10_000;

/// Largest number of closed trades folded at once: two round trips per candle.
pub const MAX_TRADES: usize = 200_000_000;

/// The magnitude bound of an `i64`.
pub open spec fn b63() -> int {
    0x8000_0000_0000_0000
}

proof fn lemma_prefix_bounds(s: Seq<TradeOut>)
    ensures
        0 <= wins(s) <= s.len(),
        0 <= losses(s) <= s.len(),
        0 <= stops(s) <= s.len(),
        -s.len() * b63() <= sum_per(s) <= s.len() * b63(),
        0 <= gross_profit(s) <= s.len() * b63(),
        -s.len() * b63() <= gross_loss(s) <= 0,
        -s.len() * b63() <= peak(s) <= s.len() * b63(),
        0 <= peak(s) - sum_per(s) <= s.len() * b63(),
        0 <= max_drawdown(s) <= s.len() * b63(),
        peak(s) >= 0,
    decreases s.len(),
{
    if s.len() > 0 {
        lemma_prefix_bounds(s.drop_last());
    }
}

/// Folds the closed trades of a run into its statistics.
pub fn compute_stats(trades_out: &Vec<TradeOut>, commission: i64, data: &Vec<Candle>) -> (r: Stats)
    requires
        trades_out.len() <= MAX_TRADES,
        0 <= commission <= MAX_COMMISSION,
        data.len() > 0,
        -1_000_000_000_000 <= data[0].close <= 1_000_000_000_000,
        -1_000_000_000_000 <= data@.last().close <= 1_000_000_000_000,
    ensures
        r == stats_of(trades_out@, commission as int, data[0].close as int, data@.last().close as int),
{
    let s = Ghost(trades_out@);
    let n = trades_out.len();
    let mut sum: i128 = 0;
    let mut gp: i128 = 0;
    let mut gl: i128 = 0;
    let mut w: usize = 0;
    let mut l: usize = 0;
    let mut st: usize = 0;
    let mut pk: i128 = 0;
    let mut dd: i128 = 0;
    let mut i: usize = 0;
    while i < n
        invariant
            n == trades_out.len(),
            s@ == trades_out@,
            n <= MAX_TRADES,
            i <= n,
            sum == sum_per(s@.take(i as int)),
            gp == gross_profit(s@.take(i as int)),
            gl == gross_loss(s@.take(i as int)),
            w == wins(s@.take(i as int)),
            l == losses(s@.take(i as int)),
            st == stops(s@.take(i as int)),
            pk == peak(s@.take(i as int)),
            dd == max_drawdown(s@.take(i as int)),
        decreases n - i,
    {
        let t = &trades_out[i];
        proof {
            let p = s@.take(i as int);
            let q = s@.take(i + 1);
            assert(q.drop_last() =~= p);
            assert(q.last() == *t);
            lemma_prefix_bounds(p);
            lemma_prefix_bounds(q);
            assert((i + 1) * b63() <= MAX_TRADES * b63()) by (nonlinear_arith)
                requires
                    i < n,
                    n <= MAX_TRADES,
            ;
        }
        sum = sum + t.profit_per as i128;
        if t.profit > 0 {
            gp = gp + t.profit as i128;
            w = w + 1;
        }
        if t.profit < 0 {
            gl = gl + t.profit as i128;
            l = l + 1;
        }
        if t.stop_loss_activated {
            st = st + 1;
        }
        if sum > pk {
            pk = sum;
        }
        if pk - sum > dd {
            dd = pk - sum;
        }
        i = i + 1;
    }
    proof {
        assert(s@.take(n as int) =~= s@);
        lemma_prefix_bounds(s@);
        assert(n * b63() <= MAX_TRADES * b63()) by (nonlinear_arith)
            requires
                n <= MAX_TRADES,
        ;
        assert(0 <= n * commission <= MAX_TRADES * MAX_COMMISSION) by (nonlinear_arith)
            requires
                n <= MAX_TRADES,
                0 <= commission <= MAX_COMMISSION,
        ;
    }
    let first = data[0].close;
    let last = data[data.len() - 1].close;
    let nc: i128 = n as i128 * commission as i128;
    let buy_hold: i128 = if first <= 0 {
        0
    } else if last - first >= 0 {
        ((last - first) as i128 * 10000) / first as i128
    } else {
        -(((first - last) as i128 * 10000) / first as i128)
    };
    Stats {
        trades: n,
        wins: w,
        losses: l,
        stop_losses: st,
        gross_profit: gp,
        gross_loss: gl,
        net_profit: gp + gl,
        net_profit_per: sum - nc,
        commissions: nc,
        win_rate: if n == 0 { 0 } else { (w as i128 * 10000) / n as i128 },
        profit_factor: if gl == 0 { 0 } else { (gp * 100) / (-gl) },
        avg_win: if w == 0 { 0 } else { gp / w as i128 },
        avg_loss: if l == 0 { 0 } else { -((-gl) / l as i128) },
        max_drawdown: dd,
        buy_hold,
    }
}

} // verus!
