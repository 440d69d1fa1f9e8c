use rs_algo_backtest::candle::{Candle, CandleType};
use rs_algo_backtest::stop_loss::{StopLoss, StopLossType};
use rs_algo_backtest::trade::{resolve_trade_in, resolve_trade_out, Pricing, TradeType};

fn candle(date: i64, o: i64, h: i64, l: i64, c: i64) -> Candle {
    Candle { candle_type: CandleType::Default, date, open: o, high: h, low: l, close: c, volume: 1 }
}

fn series() -> Vec<Candle> {
    vec![
        candle(0, 100, 110, 95, 100),
        candle(1, 100, 130, 90, 120),
        candle(2, 120, 125, 80, 110),
        candle(3, 110, 140, 105, 135),
    ]
}

#[test]
fn market_entry_pays_half_the_spread() {
    let data = series();
    let long = resolve_trade_in(0, 1, 2, &data, &Pricing::new(4), TradeType::MarketInLong, None);
    assert_eq!(long.price_in, 122);
    assert_eq!(long.index_in, 1);
    assert_eq!(long.date_in, 1);
    let short = resolve_trade_in(0, 1, 2, &data, &Pricing::new(4), TradeType::MarketInShort, None);
    assert_eq!(short.price_in, 118);
}

#[test]
fn order_entry_uses_the_order_price() {
    let data = series();
    let t = resolve_trade_in(3, 2, 1, &data, &Pricing::new(0), TradeType::OrderInLong, Some(115));
    assert_eq!(t.price_in, 115);
    assert_eq!(t.id, 3);
}

#[test]
fn long_round_trip_accounting() {
    let data = series();
    let pricing = Pricing::new(0);
    let t_in = resolve_trade_in(0, 0, 10, &data, &pricing, TradeType::MarketInLong, None);
    let t = resolve_trade_out(3, &data, &pricing, &t_in, TradeType::MarketOutLong, None);
    assert_eq!(t.price_in, 100);
    assert_eq!(t.price_out, 135);
    assert_eq!(t.profit, 350);
    // 35% in basis points
    assert_eq!(t.profit_per, 3500);
    // highest high before the exit: 130; lowest low: 80
    assert_eq!(t.run_up, 30);
    assert_eq!(t.draw_down, 20);
    assert_eq!(t.run_up_per, 3000);
    assert_eq!(t.draw_down_per, 2000);
    assert!(!t.stop_loss_activated);
    // the profit share equals profit over entry value
    assert_eq!(t.profit * 10000 / (t.price_in * t.size), t.profit_per);
}

#[test]
fn short_round_trip_is_negated() {
    let data = series();
    let pricing = Pricing::new(0);
    let t_in = resolve_trade_in(0, 1, 3, &data, &pricing, TradeType::MarketInShort, None);
    let t = resolve_trade_out(2, &data, &pricing, &t_in, TradeType::StopLossShort, Some(111));
    assert_eq!(t.price_in, 120);
    assert_eq!(t.price_out, 111);
    assert_eq!(t.profit, 27);
    assert_eq!(t.profit_per, 750);
    // favourable for a short is the lowest low (90), adverse the highest high (130)
    assert_eq!(t.run_up, 30);
    assert_eq!(t.draw_down, 10);
    assert!(t.stop_loss_activated);
}

#[test]
fn losing_long_rounds_toward_zero() {
    let data = vec![candle(0, 10500, 10500, 10500, 10500), candle(1, 9900, 9900, 9900, 9900)];
    let pricing = Pricing::new(0);
    let t_in = resolve_trade_in(0, 0, 1, &data, &pricing, TradeType::MarketInLong, None);
    let t = resolve_trade_out(1, &data, &pricing, &t_in, TradeType::MarketOutLong, None);
    assert_eq!(t.profit_per, -571);
    assert_eq!(t.profit, -600);
}

#[test]
fn atr_stop_is_armed_below_a_long_entry() {
    let mut s = StopLoss::new(StopLossType::Atr, 150);
    // ATR 2.00 and a multiple of 1.5 at an entry of 100.00, prices in hundredths
    s.arm(true, 10000, 200, 1);
    assert_eq!(s.price(), 9700);
    assert_eq!(s.stop_type(), StopLossType::Atr);
    let c = candle(0, 9800, 9900, 9750, 9800);
    assert!(!s.is_hit(true, &c));
    let c = candle(1, 9800, 9900, 9700, 9800);
    assert!(s.is_hit(true, &c));
    s.update(StopLossType::Trailing, true, 9800);
    assert_eq!(s.price(), 9800);
    assert_eq!(s.stop_type(), StopLossType::Trailing);
}

#[test]
fn atr_stop_is_armed_above_a_short_entry() {
    let mut s = StopLoss::new(StopLossType::Atr, 150);
    s.arm(false, 10000, 200, 1);
    assert_eq!(s.price(), 10300);
}

#[test]
fn other_stop_kinds() {
    let mut p = StopLoss::new(StopLossType::Percentage, 250);
    p.arm(true, 10000, 0, 1);
    assert_eq!(p.price(), 9750);
    let mut q = StopLoss::new(StopLossType::Pips, 30);
    q.arm(false, 10000, 0, 10);
    assert_eq!(q.price(), 10300);
    let mut f = StopLoss::new(StopLossType::Price, 9000);
    f.arm(true, 10000, 0, 1);
    assert_eq!(f.price(), 9000);
    let mut off = StopLoss::new(StopLossType::Disabled, 0);
    off.arm(true, 10000, 0, 1);
    assert!(!off.is_hit(true, &candle(0, 0, 0, 0, 0)));
}

#[test]
fn trailing_stop_never_loosens() {
    let mut long = StopLoss::new(StopLossType::Trailing, 100);
    long.arm(true, 10000, 0, 1);
    assert_eq!(long.price(), 9900);
    let mut seen = vec![long.price()];
    for p in [9950, 9920, 10010, 9000, 10010, 10020] {
        long.update(StopLossType::Trailing, true, p);
        seen.push(long.price());
    }
    assert_eq!(seen, vec![9900, 9950, 9950, 10010, 10010, 10010, 10020]);
    assert!(seen.windows(2).all(|w| w[0] <= w[1]));

    let mut short = StopLoss::new(StopLossType::Trailing, 100);
    short.arm(false, 10000, 0, 1);
    short.update(StopLossType::Trailing, false, 10050);
    assert_eq!(short.price(), 10050);
    short.update(StopLossType::Trailing, false, 10080);
    assert_eq!(short.price(), 10050);
}
