//! Instruments: a price series with its indicator series and its time frame.
use vstd::prelude::*;
use crate::candle::{Candle, MAX_PRICE};
use crate::stop_loss::MAX_PARAM;

verus! {

/// Largest timestamp, in seconds.
pub const MAX_DATE: i64 = 1_000_000_000_000;

/// Largest number of candles in a series.
pub const MAX_CANDLES: usize = 100_000_000;

/// The length of one candle.
#[derive(Debug, Clone, Copy, PartialEq, Eq, Structural)]
pub enum TimeFrameType {
    M1,
    M5,
    M15,
    M30,
    H1,
    H4,
    D,
    W,
}

pub open spec fn minutes_of(tf: TimeFrameType) -> int {
    match tf {
        TimeFrameType::M1 => 1,
        TimeFrameType::M5 => 5,
        TimeFrameType::M15 => 15,
        TimeFrameType::M30 => 30,
        TimeFrameType::H1 => 60,
        TimeFrameType::H4 => 240,
        TimeFrameType::D => 1440,
        TimeFrameType::W => 10080,
    }
}

impl TimeFrameType {
    /// The length of one candle in minutes.
    pub fn to_minutes(&self) -> (r: i64)
        ensures
            r == minutes_of(*self),
    {
        match self {
            TimeFrameType::M1 => 1,
            TimeFrameType::M5 => 5,
            TimeFrameType::M15 => 15,
            TimeFrameType::M30 => 30,
            TimeFrameType::H1 => 60,
            TimeFrameType::H4 => 240,
            TimeFrameType::D => 1440,
            TimeFrameType::W => 10080,
        }
    }

    /// The length of one candle in seconds.
    pub fn to_seconds(&self) -> (r: i64)
        ensures
            r == 60 * minutes_of(*self),
    {
        60 * self.to_minutes()
    }
}

/// A price series with its ATR series and its pip size.
pub struct Instrument {
    pub symbol: String,
    pub market: String,
    pub time_frame: TimeFrameType,
    pub data: Vec<Candle>,
    /// The ATR at each index, in ticks.
    pub atr: Vec<i64>,
    /// The value of one pip, in ticks.
    pub pip_size: i64,
    /// Indicator series, each with one value per candle.
    pub indicators: Vec<Vec<i64>>,
}

/// Timestamps that strictly increase and stay in `[0, MAX_DATE]`.
pub open spec fn dates_ok(data: Seq<Candle>) -> bool {
    &&& forall|i: int| 0 <= i < data.len() ==> 0 <= #[trigger] data[i].date <= MAX_DATE
    &&& forall|i: int, j: int| 0 <= i < j < data.len() ==> data[i].date < data[j].date
}

impl Instrument {
    /// Candles well formed and in time order, with one ATR value per candle.
    pub open spec fn wf(&self) -> bool {
        &&& forall|i: int| 0 <= i < self.data.len() ==> #[trigger] self.data[i].wf()
        &&& dates_ok(self.data@)
        &&& self.data.len() <= MAX_CANDLES
        &&& self.atr.len() == self.data.len()
        &&& forall|i: int| 0 <= i < self.atr.len() ==> 0 <= #[trigger] self.atr[i] <= MAX_PRICE / MAX_PARAM
        &&& 0 <= self.pip_size <= MAX_PRICE / MAX_PARAM
        &&& forall|k: int| 0 <= k < self.indicators.len() ==> (#[trigger] self.indicators[k]).len() == self.data.len()
    }

    /// Whether the instrument is well formed.
    pub fn is_valid(&self) -> (r: bool)
        ensures
            r == self.wf(),
    {
        if self.data.len() > MAX_CANDLES || self.atr.len() != self.data.len() || self.pip_size < 0
            || self.pip_size > MAX_PRICE / MAX_PARAM {
            return false;
        }
        let mut k: usize = 0;
        while k < self.indicators.len()
            invariant
                k <= self.indicators.len(),
                forall|j: int| 0 <= j < k ==> (#[trigger] self.indicators[j]).len() == self.data.len(),
            decreases self.indicators.len() - k,
        {
            if self.indicators[k].len() != self.data.len() {
                return false;
            }
            k = k + 1;
        }
        let mut i: usize = 0;
        while i < self.data.len()
            invariant
                i <= self.data.len(),
                self.atr.len() == self.data.len(),
                forall|j: int| 0 <= j < i ==> #[trigger] self.data[j].wf(),
                forall|j: int| 0 <= j < i ==> 0 <= #[trigger] self.data[j].date <= MAX_DATE,
                forall|a: int, b: int| 0 <= a < b < i ==> self.data[a].date < self.data[b].date,
                forall|j: int| 0 <= j < i ==> 0 <= #[trigger] self.atr[j] <= MAX_PRICE / MAX_PARAM,
                forall|j: int| 0 <= j < self.indicators.len() ==> (#[trigger] self.indicators[j]).len() == self.data.len(),
                self.data.len() <= MAX_CANDLES,
                0 <= self.pip_size <= MAX_PRICE / MAX_PARAM,
            decreases self.data.len() - i,
        {
            let c = &self.data[i];
            if !c.is_valid() || c.date < 0 || c.date > MAX_DATE || self.atr[i] < 0 || self.atr[i]
                > MAX_PRICE / MAX_PARAM {
                return false;
            }
            if i > 0 && self.data[i - 1].date >= c.date {
                assert(!dates_ok(self.data@)) by {
                    assert(self.data[i - 1].date >= self.data[i as int].date);
                }
                return false;
            }
            proof {
                assert forall|a: int, b: int| 0 <= a < b < i + 1 implies self.data[a].date
                    < self.data[b].date by {
                    if b == i && a < i - 1 {
                        assert(self.data[a].date < self.data[i - 1].date);
                    }
                }
            }
            i = i + 1;
        }
        true
    }

    pub fn symbol(&self) -> (r: &String)
        ensures
            r == &self.symbol,
    {
        &self.symbol
    }

    pub fn time_frame(&self) -> (r: TimeFrameType)
        ensures
            r == self.time_frame,
    {
        self.time_frame
    }

    pub fn data(&self) -> (r: &Vec<Candle>)
        ensures
            r == &self.data,
    {
        &self.data
    }
}

/// The index of the last candle of `data` dated at or before `date`, if any.
pub open spec fn last_at_or_before(data: Seq<Candle>, date: i64, r: Option<usize>) -> bool {
    match r {
        None => forall|i: int| 0 <= i < data.len() ==> #[trigger] data[i].date > date,
        Some(k) => {
            &&& k < data.len()
            &&& data[k as int].date <= date
            &&& forall|i: int| k < i < data.len() ==> #[trigger] data[i].date > date
        },
    }
}

/// The index of the last candle of `data` dated at or before `date`.
pub open spec fn covering(data: Seq<Candle>, date: i64) -> Option<int>
    decreases data.len(),
{
    if data.len() == 0 {
        None
    } else if data.last().date <= date {
        Some(data.len() - 1)
    } else {
        covering(data.drop_last(), date)
    }
}

proof fn lemma_covering(data: Seq<Candle>, date: i64, r: Option<usize>)
    requires
        last_at_or_before(data, date, r),
    ensures
        covering(data, date) == match r {
            Some(k) => Some(k as int),
            None => None::<int>,
        },
    decreases data.len(),
{
    if data.len() > 0 {
        match r {
            Some(k) => {
                if k + 1 < data.len() {
                    assert(data.last().date > date);
                    assert(last_at_or_before(data.drop_last(), date, r));
                    lemma_covering(data.drop_last(), date, r);
                }
            },
            None => {
                assert(data[data.len() - 1].date > date);
                assert(last_at_or_before(data.drop_last(), date, r));
                lemma_covering(data.drop_last(), date, r);
            },
        }
    }
}

/// The candle of a coarser series that covers `date`: the last one dated at or before it,
/// found by binary search.
pub fn companion_index(data: &Vec<Candle>, date: i64) -> (r: Option<usize>)
    requires
        dates_ok(data@),
    ensures
        last_at_or_before(data@, date, r),
        covering(data@, date) == match r {
            Some(k) => Some(k as int),
            None => None::<int>,
        },
{
    // Invariant: data[..lo] are at or before `date`, data[hi..] are after it.
    let mut lo: usize = 0;
    let mut hi: usize = data.len();
    while lo < hi
        invariant
            0 <= lo <= hi <= data.len(),
            dates_ok(data@),
            forall|i: int| 0 <= i < lo ==> #[trigger] data[i].date <= date,
            forall|i: int| hi <= i < data.len() ==> #[trigger] data[i].date > date,
        decreases hi - lo,
    {
        let mid = lo + (hi - lo) / 2;
        if data[mid].date <= date {
            proof {
                assert forall|i: int| 0 <= i < mid + 1 implies #[trigger] data[i].date <= date by {
                    if i < mid {
                        assert(data[i].date < data[mid as int].date);
                    }
                }
            }
            lo = mid + 1;
        } else {
            proof {
                assert forall|i: int| mid <= i < data.len() implies #[trigger] data[i].date > date by {
                    if i > mid {
                        assert(data[mid as int].date < data[i].date);
                    }
                }
            }
            hi = mid;
        }
    }
    let r = if lo == 0 {
        None
    } else {
        Some(lo - 1)
    };
    proof {
        lemma_covering(data@, date, r);
    }
    r
}

} // verus!
