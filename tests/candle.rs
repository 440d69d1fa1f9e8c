use rs_algo_backtest::candle::{Candle, CandleBuilder, CandleError, CandleType};
use rs_algo_backtest::pattern::{
    is_higher_highs_top, is_lower_lows_bottom, two_increments, PatternSize, PatternType, Patterns,
};

fn build(o: i64, h: i64, l: i64, c: i64, prev: (i64, i64)) -> Result<Candle, CandleError> {
    Candle::new()
        .date(100)
        .open(o)
        .high(h)
        .low(l)
        .close(c)
        .volume(5)
        .previous((40, prev.0, 0, 0, prev.1, 0))
        .build()
}

#[test]
fn build_without_previous_is_invalid() {
    let r = CandleBuilder::new().date(1).open(1).high(2).low(0).close(1).volume(1).build();
    assert_eq!(r, Err(CandleError::InvalidCandle));
}

#[test]
fn build_without_date_and_previous_is_invalid() {
    let r = CandleBuilder::new().open(100).high(200).low(50).close(150).volume(10).build();
    assert_eq!(r, Err(CandleError::InvalidCandle));
}

#[test]
fn build_accepts_prices_out_of_order() {
    let c = build(10, 5, 12, 15, (0, 0)).unwrap();
    assert_eq!(c.high(), 5);
    assert_eq!(c.low(), 12);
    assert!(!c.is_valid());
}

#[test]
fn build_keeps_fields() {
    let c = build(100, 130, 90, 120, (100, 100)).unwrap();
    assert_eq!(c.date(), 100);
    assert_eq!(c.open(), 100);
    assert_eq!(c.high(), 130);
    assert_eq!(c.low(), 90);
    assert_eq!(c.close(), 120);
    assert_eq!(c.volume(), 5);
}

#[test]
fn equal_open_and_close_is_doji() {
    let c = build(100, 110, 90, 100, (0, 0)).unwrap();
    assert_eq!(*c.candle_type(), CandleType::Doji);
}

#[test]
fn small_body_within_a_tenth_is_doji() {
    // body 2 against a range of 20
    let c = build(100, 110, 90, 102, (0, 0)).unwrap();
    assert_eq!(*c.candle_type(), CandleType::Doji);
}

#[test]
fn long_lower_shadow_is_karakasa() {
    // range 100, open 70 and close 95 both in the top 40%
    let c = build(70, 100, 0, 95, (0, 0)).unwrap();
    assert_eq!(*c.candle_type(), CandleType::Karakasa);
}

#[test]
fn rising_body_over_falling_body_is_engulfing() {
    // previous: open 110, close 100; current: open 98, close 115
    let c = build(98, 200, 50, 115, (110, 100)).unwrap();
    assert_eq!(*c.candle_type(), CandleType::Engulfing);
}

#[test]
fn rising_body_inside_falling_body_is_harami() {
    // previous: open 130, close 100; current: open 105, close 125
    let c = build(105, 200, 20, 125, (130, 100)).unwrap();
    assert_eq!(*c.candle_type(), CandleType::Harami);
}

#[test]
fn plain_candle_is_default() {
    let c = build(105, 200, 20, 125, (100, 130)).unwrap();
    assert_eq!(*c.candle_type(), CandleType::Default);
}

#[test]
fn highs_and_lows_comparisons() {
    let up = vec![(0, 10), (1, 5), (2, 20), (3, 4), (4, 30)];
    assert!(is_higher_highs_top(&up));
    assert!(is_lower_lows_bottom(&up));
    assert!(two_increments(&up));
    let flat = vec![(0, 10), (1, 5), (2, 10), (3, 5), (4, 10)];
    assert!(!is_higher_highs_top(&flat));
    assert!(!is_lower_lows_bottom(&flat));
}

#[test]
fn current_pattern_is_last_one_started() {
    let mut p = Patterns::new();
    assert_eq!(p.current_pattern(50), PatternType::NoPattern);
    p.set_pattern(vec![(30, 1), (10, 2)], PatternSize::Local, PatternType::ChannelUpTop);
    p.set_pattern(vec![(60, 1), (40, 2)], PatternSize::Local, PatternType::DoubleTop);
    p.set_pattern(vec![(5, 1)], PatternSize::Extrema, PatternType::RectangleTop);
    assert_eq!(p.local_patterns.len(), 2);
    assert_eq!(p.extrema_patterns.len(), 1);
    assert_eq!(p.current_pattern(20), PatternType::ChannelUpTop);
    assert_eq!(p.current_pattern(45), PatternType::DoubleTop);
    assert_eq!(p.current_pattern(5), PatternType::NoPattern);
}
