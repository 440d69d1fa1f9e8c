//! Candles: one OHLCV bar each, with the shape it was classified as.
use vstd::prelude::*;

verus! {

/// Largest price, in ticks, that a candle may carry.
pub const MAX_PRICE: i64 = 1_000_000_000_000;

/// The shape of a candle, judged from its own prices and those of the candle before it.
#[derive(Debug, Clone, Copy, PartialEq, Eq, Structural)]
pub enum CandleType {
    Default,
    Doji,
    Karakasa,
    BearishKarakasa,
    Marubozu,
    BearishMarubozu,
    Harami,
    BearishHarami,
    Engulfing,
    BearishEngulfing,
    HangingMan,
}

/// One bar of a price series. Prices are in ticks, `date` in seconds.
#[derive(Debug, Clone, Copy, PartialEq, Eq, Structural)]
pub struct Candle {
    pub candle_type: CandleType,
    pub date: i64,
    pub open: i64,
    pub high: i64,
    pub low: i64,
    pub close: i64,
    pub volume: i64,
}

/// Prices that lie in `[0, MAX_PRICE]`, with the low below and the high above the rest.
pub open spec fn prices_ok(open: i64, high: i64, low: i64, close: i64) -> bool {
    &&& 0 <= low
    &&& low <= open <= high
    &&& low <= close <= high
    &&& high <= MAX_PRICE
}

impl Candle {
    /// A candle whose prices are consistent and in range.
    pub open spec fn wf(&self) -> bool {
        prices_ok(self.open, self.high, self.low, self.close) && self.volume >= 0
    }

    /// Whether the candle is well formed.
    pub fn is_valid(&self) -> (r: bool)
        ensures
            r == self.wf(),
    {
        0 <= self.low && self.low <= self.open && self.open <= self.high && self.low <= self.close
            && self.close <= self.high && self.high <= MAX_PRICE && self.volume >= 0
    }

    /// Starts building a candle.
    pub fn new() -> (r: CandleBuilder)
        ensures
            r == CandleBuilder::empty(),
    {
        CandleBuilder::new()
    }

    pub fn date(&self) -> (r: i64)
        ensures
            r == self.date,
    {
        self.date
    }

    pub fn open(&self) -> (r: i64)
        ensures
            r == self.open,
    {
        self.open
    }

    pub fn high(&self) -> (r: i64)
        ensures
            r == self.high,
    {
        self.high
    }

    pub fn low(&self) -> (r: i64)
        ensures
            r == self.low,
    {
        self.low
    }

    pub fn close(&self) -> (r: i64)
        ensures
            r == self.close,
    {
        self.close
    }

    pub fn volume(&self) -> (r: i64)
        ensures
            r == self.volume,
    {
        self.volume
    }

    pub fn candle_type(&self) -> (r: &CandleType)
        ensures
            *r == self.candle_type,
    {
        &self.candle_type
    }
}

/// Why a candle could not be built.
#[derive(Debug, Clone, Copy, PartialEq, Eq, Structural)]
pub enum CandleError {
    /// A field was never set.
    InvalidCandle,
}

/// The previous candle: date, open, high, low, close, volume.
pub type PreviousCandle = (i64, i64, i64, i64, i64, i64);

/// The open of a previous candle.
pub open spec fn prev_open(p: PreviousCandle) -> i64 {
    p.1
}

/// The close of a previous candle.
pub open spec fn prev_close(p: PreviousCandle) -> i64 {
    p.4
}

/// Collects the fields of a candle, then classifies and builds it.
pub struct CandleBuilder {
    pub date: Option<i64>,
    pub open: Option<i64>,
    pub high: Option<i64>,
    pub low: Option<i64>,
    pub close: Option<i64>,
    pub volume: Option<i64>,
    pub previous: Option<PreviousCandle>,
}

/// `|x|`.
pub open spec fn abs(x: int) -> int {
    if x < 0 { -x } else { x }
}

/// The body is at most a tenth of the range.
pub open spec fn is_doji(o: int, h: int, l: int, c: int) -> bool {
    o == c || 10 * abs(o - c) <= h - l
}

/// A long lower shadow: open and close both in the top 40% of the range.
pub open spec fn is_karakasa(o: int, h: int, l: int, c: int) -> bool {
    &&& h - l > 3 * (o - c)
    &&& 10 * (c - l) > 6 * (h - l)
    &&& 10 * (o - l) > 6 * (h - l)
}

/// A long upper shadow: open and close both in the bottom 40% of the range.
pub open spec fn is_bearish_karakasa(o: int, h: int, l: int, c: int) -> bool {
    &&& h - l > 3 * (o - c)
    &&& 10 * (h - c) > 6 * (h - l)
    &&& 10 * (h - o) > 6 * (h - l)
}

/// Open and close both in the top quarter of the range.
pub open spec fn is_hanging_man(o: int, h: int, l: int, c: int) -> bool {
    &&& h - l > 4 * (o - c)
    &&& 100 * (c - l) > 75 * (h - l)
    &&& 100 * (o - l) > 75 * (h - l)
}

/// Opens at the low and closes at the high, within a tenth of the prices.
pub open spec fn is_marubozu(o: int, h: int, l: int, c: int) -> bool {
    &&& o <= l && 10 * (l - o) < o
    &&& h >= c && 10 * (h - c) < c
}

/// Opens at the high and closes at the low; both shadows are measured at the top.
pub open spec fn is_bearish_marubozu(o: int, h: int, l: int, c: int) -> bool {
    &&& o >= h && 10 * (h - o) < o
    &&& l <= c && 10 * (h - o) < o
}

/// A rising body that swallows the falling body before it.
pub open spec fn is_engulfing(o: int, c: int, po: int, pc: int) -> bool {
    po > pc && c > o && c >= po && pc >= o && c - o > po - pc
}

/// A falling body that swallows the rising body before it.
pub open spec fn is_bearish_engulfing(o: int, c: int, po: int, pc: int) -> bool {
    pc > po && o > c && o >= pc && po >= c && o - c > pc - po
}

/// A rising body inside the falling body before it.
pub open spec fn is_harami(o: int, c: int, po: int, pc: int) -> bool {
    po > pc && c > o && c <= po && pc <= o && c - o < po - pc
}

/// A falling body inside the rising body before it.
pub open spec fn is_bearish_harami(o: int, c: int, po: int, pc: int) -> bool {
    pc > po && o > c && o <= pc && po <= c && o - c < pc - po
}

/// The first shape, in a fixed order of precedence, that a candle matches.
pub open spec fn candle_type_of(o: int, h: int, l: int, c: int, po: int, pc: int) -> CandleType {
    if is_doji(o, h, l, c) {
        CandleType::Doji
    } else if is_karakasa(o, h, l, c) {
        CandleType::Karakasa
    } else if is_bearish_karakasa(o, h, l, c) {
        CandleType::BearishKarakasa
    } else if is_hanging_man(o, h, l, c) {
        CandleType::HangingMan
    } else if is_marubozu(o, h, l, c) {
        CandleType::Marubozu
    } else if is_bearish_marubozu(o, h, l, c) {
        CandleType::BearishMarubozu
    } else if is_engulfing(o, c, po, pc) {
        CandleType::Engulfing
    } else if is_bearish_engulfing(o, c, po, pc) {
        CandleType::BearishEngulfing
    } else if is_harami(o, c, po, pc) {
        CandleType::Harami
    } else if is_bearish_harami(o, c, po, pc) {
        CandleType::BearishHarami
    } else {
        CandleType::Default
    }
}

/// `i64` values in `[-MAX_PRICE, MAX_PRICE]`.
pub open spec fn in_range(x: i64) -> bool {
    -MAX_PRICE <= x <= MAX_PRICE
}

impl CandleBuilder {
    /// A builder with no field set.
    pub open spec fn empty() -> CandleBuilder {
        CandleBuilder {
            date: None,
            open: None,
            high: None,
            low: None,
            close: None,
            volume: None,
            previous: None,
        }
    }

    pub fn new() -> (r: Self)
        ensures
            r == Self::empty(),
    {
        CandleBuilder {
            date: None,
            open: None,
            high: None,
            low: None,
            close: None,
            volume: None,
            previous: None,
        }
    }

    pub fn date(self, val: i64) -> (r: Self)
        ensures
            r == (CandleBuilder { date: Some(val), ..self }),
    {
        CandleBuilder { date: Some(val), ..self }
    }

    pub fn open(self, val: i64) -> (r: Self)
        ensures
            r == (CandleBuilder { open: Some(val), ..self }),
    {
        CandleBuilder { open: Some(val), ..self }
    }

    pub fn high(self, val: i64) -> (r: Self)
        ensures
            r == (CandleBuilder { high: Some(val), ..self }),
    {
        CandleBuilder { high: Some(val), ..self }
    }

    pub fn low(self, val: i64) -> (r: Self)
        ensures
            r == (CandleBuilder { low: Some(val), ..self }),
    {
        CandleBuilder { low: Some(val), ..self }
    }

    pub fn close(self, val: i64) -> (r: Self)
        ensures
            r == (CandleBuilder { close: Some(val), ..self }),
    {
        CandleBuilder { close: Some(val), ..self }
    }

    pub fn volume(self, val: i64) -> (r: Self)
        ensures
            r == (CandleBuilder { volume: Some(val), ..self }),
    {
        CandleBuilder { volume: Some(val), ..self }
    }

    pub fn previous(self, val: PreviousCandle) -> (r: Self)
        ensures
            r == (CandleBuilder { previous: Some(val), ..self }),
    {
        CandleBuilder { previous: Some(val), ..self }
    }

    /// Classifies a candle from its prices and the open and close of the one before it.
    pub fn identify_candle_type(o: i64, h: i64, l: i64, c: i64, po: i64, pc: i64) -> (r: CandleType)
        requires
            in_range(o),
            in_range(h),
            in_range(l),
            in_range(c),
            in_range(po),
            in_range(pc),
        ensures
            r == candle_type_of(o as int, h as int, l as int, c as int, po as int, pc as int),
    {
        let body: i64 = if o >= c { o - c } else { c - o };
        let range: i64 = h - l;
        if o == c || 10 * body <= range {
            CandleType::Doji
        } else if range > 3 * (o - c) && 10 * (c - l) > 6 * range && 10 * (o - l) > 6 * range {
            CandleType::Karakasa
        } else if range > 3 * (o - c) && 10 * (h - c) > 6 * range && 10 * (h - o) > 6 * range {
            CandleType::BearishKarakasa
        } else if range > 4 * (o - c) && 100 * (c - l) > 75 * range && 100 * (o - l) > 75
            * range {
            CandleType::HangingMan
        } else if o <= l && 10 * (l - o) < o && h >= c && 10 * (h - c) < c {
            CandleType::Marubozu
        } else if o >= h && 10 * (h - o) < o && l <= c && 10 * (h - o) < o {
            CandleType::BearishMarubozu
        } else if po > pc && c > o && c >= po && pc >= o && c - o > po - pc {
            CandleType::Engulfing
        } else if pc > po && o > c && o >= pc && po >= c && o - c > pc - po {
            CandleType::BearishEngulfing
        } else if po > pc && c > o && c <= po && pc <= o && c - o < po - pc {
            CandleType::Harami
        } else if pc > po && o > c && o <= pc && po <= c && o - c < pc - po {
            CandleType::BearishHarami
        } else {
            CandleType::Default
        }
    }

    /// Builds the candle once every field is set, classified against the previous one.
    /// The order of the prices is not checked here; `Instrument::is_valid` checks it.
    pub fn build(self) -> (r: Result<Candle, CandleError>)
        requires
            self.open is Some ==> in_range(self.open->0),
            self.high is Some ==> in_range(self.high->0),
            self.low is Some ==> in_range(self.low->0),
            self.close is Some ==> in_range(self.close->0),
            self.previous is Some ==> in_range(prev_open(self.previous->0)) && in_range(prev_close(self.previous->0)),
        ensures
            (self.date is None || self.open is None || self.high is None || self.low is None
                || self.close is None || self.volume is None || self.previous is None)
                ==> r == Err::<Candle, CandleError>(CandleError::InvalidCandle),
            (self.date is Some && self.open is Some && self.high is Some && self.low is Some
                && self.close is Some && self.volume is Some && self.previous is Some) ==> r
                == Ok::<Candle, CandleError>(
                Candle {
                    candle_type: candle_type_of(
                        self.open->0 as int,
                        self.high->0 as int,
                        self.low->0 as int,
                        self.close->0 as int,
                        prev_open(self.previous->0) as int,
                        prev_close(self.previous->0) as int,
                    ),
                    date: self.date->0,
                    open: self.open->0,
                    high: self.high->0,
                    low: self.low->0,
                    close: self.close->0,
                    volume: self.volume->0,
                },
            ),
    {
        match (self.date, self.open, self.high, self.low, self.close, self.volume, self.previous) {
            (Some(date), Some(o), Some(h), Some(l), Some(c), Some(v), Some(p)) => {
                let candle_type = Self::identify_candle_type(o, h, l, c, p.1, p.4);
                Ok(Candle { candle_type, date, open: o, high: h, low: l, close: c, volume: v })
            },
            _ => Err(CandleError::InvalidCandle),
        }
    }
}

} // verus!
