use rs_algo_backtest::candle::{Candle, CandleType};
use rs_algo_backtest::engine::{
    run, there_are_funds, waits_for_next_trade, BacktestError, BacktestResult, Config,
};
use rs_algo_backtest::instrument::{companion_index, Instrument, TimeFrameType};
use rs_algo_backtest::order::OrderStatus;
use rs_algo_backtest::stats::compute_stats;
use rs_algo_backtest::stop_loss::{StopLoss, StopLossType};
use rs_algo_backtest::store::ResultStore;
use rs_algo_backtest::strategy::{Rule, Strategy, StrategyType, TradeDirection};
use rs_algo_backtest::trade::{TradeOut, TradeType};

const HOUR: i64 = 3600;

fn flat(date: i64, close: i64) -> Candle {
    Candle {
        candle_type: CandleType::Default,
        date,
        open: close,
        high: close + 10,
        low: close - 10,
        close,
        volume: 1,
    }
}

fn instrument(symbol: &str, closes: &[i64]) -> Instrument {
    let data: Vec<Candle> =
        closes.iter().enumerate().map(|(i, c)| flat(1_000_000 + i as i64 * HOUR, *c)).collect();
    let atr = vec![0; data.len()];
    Instrument {
        symbol: symbol.to_string(),
        market: "Forex".to_string(),
        time_frame: TimeFrameType::H1,
        data,
        atr,
        pip_size: 1,
        indicators: vec![],
    }
}

fn config() -> Config {
    Config {
        order_size: 1,
        commission: 10,
        equity: 100_000,
        spread: 0,
        wait_for_new_entry: false,
        candles_until_new_entry: 0,
        overwrite_orders: false,
        warm_up: 10,
    }
}

fn band_strategy(stop: StopLoss) -> Strategy {
    Strategy::new(
        "band".to_string(),
        StrategyType::OnlyLong,
        TimeFrameType::H1,
        None,
        Rule::BandCross { upper: 10200, lower: 10000 },
        stop,
    )
}

/// Twenty candles: flat below the band, above it from candle 10, below the lower band at 15.
fn band_closes() -> Vec<i64> {
    (0..20)
        .map(|i| match i {
            0..=9 => 10100,
            10..=14 => 10500,
            _ => 9900,
        })
        .collect()
}

#[test]
fn band_cross_scenario_enters_at_ten_and_exits_at_fifteen() {
    let inst = instrument("EURUSD", &band_closes());
    let mut s = band_strategy(StopLoss::new(StopLossType::Disabled, 0));
    let r = run(&mut s, &inst, &None, &config()).unwrap();
    assert_eq!(r.trades_in.len(), 1);
    assert_eq!(r.trades_out.len(), 1);
    assert_eq!(r.trades_in[0].index_in, 10);
    assert_eq!(r.trades_in[0].trade_type, TradeType::MarketInLong);
    let t = &r.trades_out[0];
    assert_eq!(t.index_out, 15);
    assert_eq!(t.trade_type, TradeType::MarketOutLong);
    assert_eq!(t.price_in, 10500);
    assert_eq!(t.price_out, 9900);
    // (9900 - 10500) / 10500 in basis points, rounded toward zero
    assert_eq!(t.profit_per, -571);
    assert_eq!(r.stats.net_profit_per, -571 - 10);
    assert_eq!(r.stats.commissions, 10);
    assert_eq!(r.stats.trades, 1);
    assert_eq!(r.stats.losses, 1);
    assert_eq!(r.stats.win_rate, 0);
    // first close 10100, last 9900
    assert_eq!(r.stats.buy_hold, -198);
    assert_eq!(r.symbol, "EURUSD");
    assert_eq!(r.strategy, "band");
}

#[test]
fn repeated_runs_give_identical_results() {
    let inst = instrument("EURUSD", &band_closes());
    let mut a = band_strategy(StopLoss::new(StopLossType::Atr, 150));
    let mut b = band_strategy(StopLoss::new(StopLossType::Atr, 150));
    let ra = run(&mut a, &inst, &None, &config()).unwrap();
    let rb = run(&mut b, &inst, &None, &config()).unwrap();
    assert_eq!(ra.trades_in, rb.trades_in);
    assert_eq!(ra.trades_out, rb.trades_out);
    assert_eq!(ra.orders, rb.orders);
    assert_eq!(ra.stats, rb.stats);
    assert_eq!(a.stop_loss, b.stop_loss);
}

fn assert_alternating(r: &BacktestResult) {
    assert!(r.trades_out.len() <= r.trades_in.len());
    assert!(r.trades_in.len() <= r.trades_out.len() + 1);
    for (k, t) in r.trades_out.iter().enumerate() {
        assert_eq!(t.id, r.trades_in[k].id);
        assert!(r.trades_in[k].index_in <= t.index_out);
        if k + 1 < r.trades_in.len() {
            assert!(t.index_out <= r.trades_in[k + 1].index_in);
        }
    }
}

fn zigzag() -> Vec<i64> {
    (0..60).map(|i| if (i / 3) % 2 == 0 { 9800 } else { 10500 }).collect()
}

#[test]
fn trades_alternate_on_a_zigzag() {
    let inst = instrument("GBPUSD", &zigzag());
    let mut s = band_strategy(StopLoss::new(StopLossType::Disabled, 0));
    let r = run(&mut s, &inst, &None, &config()).unwrap();
    assert!(r.trades_in.len() >= 5);
    assert_alternating(&r);
}

#[test]
fn breakout_pair_fills_only_one() {
    // rises steadily, so the entry stop and then the take profit fill
    let closes: Vec<i64> = (0..40).map(|i| 10000 + 30 * i).collect();
    let inst = instrument("USDJPY", &closes);
    let mut s = Strategy::new(
        "breakout".to_string(),
        StrategyType::OnlyLong,
        TimeFrameType::H1,
        None,
        Rule::Breakout { entry_offset: 20, take_profit: 50, stop_offset: 40, valid_for: 10 * HOUR },
        StopLoss::new(StopLossType::Disabled, 0),
    );
    let r = run(&mut s, &inst, &None, &config()).unwrap();
    assert!(r.trades_out.len() >= 1);
    assert_alternating(&r);
    let mut groups = std::collections::HashMap::new();
    for o in &r.orders {
        if o.status == OrderStatus::Fulfilled {
            *groups.entry(o.group).or_insert(0) += 1;
        }
    }
    assert!(groups.values().all(|n| *n == 1));
    // every exit pair has one fill and one cancel
    let exits: Vec<_> = r.orders.iter().filter(|o| o.trade_id.is_some() && o.group > 0).collect();
    for o in &exits {
        let sibling_filled = r
            .orders
            .iter()
            .any(|p| p.group == o.group && p.id != o.id && p.status == OrderStatus::Fulfilled);
        if o.status == OrderStatus::Fulfilled {
            assert!(!sibling_filled);
        }
    }
}

#[test]
fn unfilled_order_expires_at_the_candle_after_valid_until() {
    let closes = vec![10000; 8];
    let inst = instrument("AUDUSD", &closes);
    let mut s = Strategy::new(
        "far".to_string(),
        StrategyType::OnlyLong,
        TimeFrameType::H1,
        None,
        Rule::Breakout { entry_offset: 5000, take_profit: 50, stop_offset: 40, valid_for: 3 * HOUR },
        StopLoss::new(StopLossType::Disabled, 0),
    );
    let mut cfg = config();
    cfg.warm_up = 2;
    let r = run(&mut s, &inst, &None, &cfg).unwrap();
    assert_eq!(r.trades_in.len(), 0);
    assert_eq!(r.trades_out.len(), 0);
    assert_eq!(r.orders.len(), 1);
    let o = &r.orders[0];
    assert_eq!(o.index_created, 2);
    assert_eq!(o.valid_until, inst.data[5].date);
    assert_eq!(o.status, OrderStatus::Expired);
    assert_eq!(o.updated_at, inst.data[6].date);
}

#[test]
fn atr_stop_closes_the_trade() {
    // enters at 10 (close 10500), ATR 200 and multiple 1.5 put the stop at 10200
    let mut closes = band_closes();
    closes[12] = 10150;
    closes[13] = 10500;
    let mut inst = instrument("EURUSD", &closes);
    inst.atr = vec![200; 20];
    let mut s = band_strategy(StopLoss::new(StopLossType::Atr, 150));
    let r = run(&mut s, &inst, &None, &config()).unwrap();
    assert_eq!(s.stop_loss.price, 10500 - 300);
    let t = &r.trades_out[0];
    assert!(t.stop_loss_activated);
    assert_eq!(t.index_out, 12);
    assert_eq!(t.trade_type, TradeType::StopLossLong);
    // the candle opened below the stop, so it fills at the open
    assert_eq!(t.price_out, 10150);
    // re-enters at 13 and is stopped again at 15, where the candle opens at 9900
    assert_eq!(r.trades_in[1].index_in, 13);
    assert_eq!(r.trades_out[1].index_out, 15);
    assert_eq!(r.trades_out[1].price_out, 9900);
    assert_eq!(r.stats.stop_losses, 2);
}

#[test]
fn errors_are_reported_before_the_run() {
    let inst = instrument("EURUSD", &band_closes());
    let mut s = band_strategy(StopLoss::new(StopLossType::Disabled, 0));
    let mut bad = config();
    bad.warm_up = 0;
    assert_eq!(run(&mut s, &inst, &None, &bad).err(), Some(BacktestError::InvalidConfig));
    let mut bad_rule = band_strategy(StopLoss::new(StopLossType::Disabled, 0));
    bad_rule.rule = Rule::Breakout { entry_offset: -1, take_profit: 0, stop_offset: 0, valid_for: 0 };
    assert_eq!(run(&mut bad_rule, &inst, &None, &config()).err(), Some(BacktestError::InvalidStrategy));
    let mut unordered = instrument("EURUSD", &band_closes());
    unordered.data[3].date = 0;
    assert_eq!(run(&mut s, &unordered, &None, &config()).err(), Some(BacktestError::InvalidData));
    let empty = instrument("EURUSD", &[]);
    assert_eq!(run(&mut s, &empty, &None, &config()).err(), Some(BacktestError::EmptySeries));
    let mut mtf = band_strategy(StopLoss::new(StopLossType::Disabled, 0));
    mtf.strategy_type = StrategyType::OnlyLongMTF;
    assert_eq!(run(&mut mtf, &inst, &None, &config()).err(), Some(BacktestError::MissingCompanion));
}

#[test]
fn short_series_runs_without_trades() {
    let inst = instrument("EURUSD", &[10000, 10100, 10200]);
    let mut s = band_strategy(StopLoss::new(StopLossType::Disabled, 0));
    let r = run(&mut s, &inst, &None, &config()).unwrap();
    assert!(r.trades_in.is_empty());
    assert_eq!(r.stats.trades, 0);
    assert_eq!(r.stats.profit_factor, 0);
    assert_eq!(r.stats.buy_hold, 200);
}

#[test]
fn companion_lookup_finds_the_covering_candle() {
    let htf = instrument("EURUSD", &[1, 2, 3]);
    let d = &htf.data;
    assert_eq!(companion_index(d, d[0].date - 1), None);
    assert_eq!(companion_index(d, d[0].date), Some(0));
    assert_eq!(companion_index(d, d[1].date + 5), Some(1));
    assert_eq!(companion_index(d, d[2].date + 99999), Some(2));
}

#[test]
fn direction_follows_the_higher_time_frame() {
    let inst = instrument("EURUSD", &band_closes());
    let mut htf = instrument("EURUSD", &[10000, 10000]);
    htf.data[0].close = 10005;
    htf.data[1].open = 10010;
    htf.data[1].close = 10000;
    htf.data[1].date = inst.data[12].date;
    let mut s = band_strategy(StopLoss::new(StopLossType::Disabled, 0));
    s.strategy_type = StrategyType::OnlyLongMTF;
    let comp = Some(htf);
    assert_eq!(s.trading_direction(11, &inst, &comp), TradeDirection::Long);
    assert_eq!(s.trading_direction(12, &inst, &comp), TradeDirection::Short);
    // without confirmation a long-and-short band cross follows the bands: above the
    // upper band at 12, between the bands at 5, below the lower one at 16
    s.strategy_type = StrategyType::LongShort;
    assert_eq!(s.trading_direction(12, &inst, &comp), TradeDirection::Long);
    assert_eq!(s.trading_direction(5, &inst, &comp), TradeDirection::Neutral);
    assert_eq!(s.trading_direction(16, &inst, &comp), TradeDirection::Short);
}

#[test]
fn neutral_direction_opens_nothing() {
    // closes stay between the bands, so a long-and-short band cross never leaves neutral
    let closes = vec![10100; 20];
    let inst = instrument("EURUSD", &closes);
    let mut s = band_strategy(StopLoss::new(StopLossType::Disabled, 0));
    s.strategy_type = StrategyType::LongShort;
    let r = run(&mut s, &inst, &None, &config()).unwrap();
    assert!(r.trades_in.is_empty());
}

#[test]
fn long_short_band_cross_trades_both_sides() {
    // up through the upper band at 10, down through the lower one at 15
    let inst = instrument("EURUSD", &band_closes());
    let mut s = band_strategy(StopLoss::new(StopLossType::Disabled, 0));
    s.strategy_type = StrategyType::LongShort;
    let r = run(&mut s, &inst, &None, &config()).unwrap();
    assert_eq!(r.trades_in.len(), 2);
    assert_eq!(r.trades_in[0].trade_type, TradeType::MarketInLong);
    assert_eq!(r.trades_in[0].index_in, 10);
    assert_eq!(r.trades_out[0].index_out, 15);
    assert_eq!(r.trades_in[1].trade_type, TradeType::MarketInShort);
    assert_eq!(r.trades_in[1].index_in, 15);
}

fn out(profit: i64, profit_per: i64, date_out: i64, stop: bool) -> TradeOut {
    TradeOut {
        id: 0,
        trade_type: TradeType::MarketOutLong,
        index_in: 0,
        index_out: 1,
        date_in: 0,
        date_out,
        price_in: 100,
        price_out: 100,
        size: 1,
        profit,
        profit_per,
        run_up: 0,
        run_up_per: 0,
        draw_down: 0,
        draw_down_per: 0,
        stop_loss_activated: stop,
    }
}

#[test]
fn statistics_fold_the_trades() {
    let trades = vec![out(300, 300, 0, false), out(-100, -500, 0, true), out(200, 100, 0, false), out(-200, -200, 0, false)];
    let data = vec![flat(0, 1000), flat(1, 1100)];
    let s = compute_stats(&trades, 5, &data);
    assert_eq!(s.trades, 4);
    assert_eq!(s.wins, 2);
    assert_eq!(s.losses, 2);
    assert_eq!(s.stop_losses, 1);
    assert_eq!(s.gross_profit, 500);
    assert_eq!(s.gross_loss, -300);
    assert_eq!(s.net_profit, 200);
    assert_eq!(s.net_profit_per, -300 - 20);
    assert_eq!(s.win_rate, 5000);
    assert_eq!(s.profit_factor, 166);
    assert_eq!(s.avg_win, 250);
    assert_eq!(s.avg_loss, -150);
    // cumulative 300, -200, -100, -300 against a peak of 300
    assert_eq!(s.max_drawdown, 600);
    assert_eq!(s.buy_hold, 1000);
}

#[test]
fn funds_run_out_after_a_ninety_percent_loss() {
    assert!(there_are_funds(&vec![]));
    assert!(there_are_funds(&vec![out(0, -8999, 0, false)]));
    assert!(!there_are_funds(&vec![out(0, -5000, 0, false), out(0, -4000, 0, false)]));
}

#[test]
fn cooldown_waits_whole_candles() {
    let inst = instrument("EURUSD", &band_closes());
    let mut cfg = config();
    cfg.wait_for_new_entry = true;
    cfg.candles_until_new_entry = 3;
    let last = vec![out(0, 0, inst.data[5].date, false)];
    assert!(!waits_for_next_trade(7, &inst, &last, &cfg));
    assert!(waits_for_next_trade(8, &inst, &last, &cfg));
    assert!(waits_for_next_trade(8, &inst, &vec![], &cfg));
    cfg.wait_for_new_entry = false;
    assert!(waits_for_next_trade(6, &inst, &last, &cfg));
}

#[test]
fn upsert_replaces_the_result_of_the_same_key() {
    let inst = instrument("EURUSD", &band_closes());
    let mut s = band_strategy(StopLoss::new(StopLossType::Disabled, 0));
    let mut store = ResultStore::new();
    store.upsert(run(&mut s, &inst, &None, &config()).unwrap());
    store.upsert(run(&mut s, &inst, &None, &config()).unwrap());
    assert_eq!(store.len(), 1);
    let other = instrument("GBPUSD", &band_closes());
    store.upsert(run(&mut s, &other, &None, &config()).unwrap());
    assert_eq!(store.len(), 2);
    let mut cfg = config();
    cfg.commission = 20;
    store.upsert(run(&mut s, &inst, &None, &cfg).unwrap());
    assert_eq!(store.len(), 2);
    assert_eq!(store.results[0].stats.commissions, 20);
}

#[test]
fn moving_average_crossover_enters_and_leaves() {
    let closes = vec![10000; 30];
    let mut inst = instrument("EURUSD", &closes);
    // the fast average crosses above the slow one at 12 and back below at 20
    let fast: Vec<i64> = (0..30).map(|i| if (12..20).contains(&i) { 10100 } else { 9900 }).collect();
    let slow = vec![10000; 30];
    inst.indicators = vec![fast, slow];
    let mut s = Strategy::new(
        "EMA_50_200".to_string(),
        StrategyType::OnlyLong,
        TimeFrameType::H1,
        None,
        Rule::LineCross { fast: 0, slow: 1 },
        StopLoss::new(StopLossType::Disabled, 0),
    );
    let r = run(&mut s, &inst, &None, &config()).unwrap();
    assert_eq!(r.trades_in.len(), 1);
    assert_eq!(r.trades_in[0].index_in, 12);
    assert_eq!(r.trades_out[0].index_out, 20);
    assert_eq!(r.trades_out[0].profit_per, 0);
}

#[test]
fn crossover_on_a_missing_series_is_a_data_error() {
    let inst = instrument("EURUSD", &band_closes());
    let mut s = Strategy::new(
        "EMA_50_200".to_string(),
        StrategyType::OnlyLong,
        TimeFrameType::H1,
        None,
        Rule::LineCross { fast: 0, slow: 1 },
        StopLoss::new(StopLossType::Disabled, 0),
    );
    assert_eq!(run(&mut s, &inst, &None, &config()).err(), Some(BacktestError::InvalidData));
    let mut short = instrument("EURUSD", &band_closes());
    short.indicators = vec![vec![0; 20], vec![0; 19]];
    assert_eq!(run(&mut s, &short, &None, &config()).err(), Some(BacktestError::InvalidData));
}

#[test]
fn trailing_stop_follows_the_close_and_exits() {
    let mut closes = band_closes();
    closes[11] = 10600;
    closes[12] = 10800;
    closes[13] = 10650;
    closes[14] = 10650;
    let inst = instrument("EURUSD", &closes);
    let mut s = band_strategy(StopLoss::new(StopLossType::Trailing, 100));
    let r = run(&mut s, &inst, &None, &config()).unwrap();
    // armed at 10400 on entry, raised to 10500 at 11 and 10700 at 12, hit at 13
    assert_eq!(s.stop_loss.price, 10700);
    assert_eq!(r.trades_out.len(), 1);
    let t = &r.trades_out[0];
    assert_eq!(t.index_out, 13);
    assert_eq!(t.price_out, 10650);
    assert!(t.stop_loss_activated);
    assert_eq!(t.profit_per, 142);
}

#[test]
fn band_reversal_enters_below_the_band_and_leaves_after_three_hits() {
    let closes: Vec<i64> = (0..30)
        .map(|i| match i {
            12 => 9900,
            13..=15 => 9930,
            _ => 10000,
        })
        .collect();
    let mut inst = instrument("EURUSD", &closes);
    inst.indicators = vec![vec![10100; 30], vec![10000; 30], vec![9950; 30], vec![35; 30]];
    let mut s = Strategy::new(
        "Bollinger_Bands_Reversal_Riding_RSI".to_string(),
        StrategyType::OnlyLong,
        TimeFrameType::H1,
        None,
        Rule::BandReversal { low: 2, rsi: 3, rsi_min: 30, rsi_max: 40 },
        StopLoss::new(StopLossType::Disabled, 0),
    );
    let r = run(&mut s, &inst, &None, &config()).unwrap();
    assert_eq!(r.trades_in.len(), 1);
    assert_eq!(r.trades_in[0].index_in, 12);
    assert_eq!(r.trades_in[0].price_in, 9900);
    // lows below the band at 12, 13 and 14 make three hits in the window before 15
    assert_eq!(r.trades_out[0].index_out, 15);
    assert_eq!(r.trades_out[0].profit_per, 30);

    // with the RSI out of range there is no entry
    inst.indicators[3] = vec![55; 30];
    let r = run(&mut s, &inst, &None, &config()).unwrap();
    assert!(r.trades_in.is_empty());
}

#[test]
fn higher_time_frame_gates_entries() {
    let inst = instrument("EURUSD", &band_closes());
    let mut htf = instrument("EURUSD", &[10000]);
    let mut s = band_strategy(StopLoss::new(StopLossType::Disabled, 0));
    s.strategy_type = StrategyType::OnlyLongMTF;
    s.higher_time_frame = Some(TimeFrameType::H4);

    // a falling companion candle points short: the long-only strategy stays out
    htf.data[0].open = 10005;
    htf.data[0].close = 9995;
    let r = run(&mut s, &inst, &Some(htf), &config()).unwrap();
    assert!(r.trades_in.is_empty());
    assert_eq!(r.higher_time_frame, Some(TimeFrameType::H4));

    // a rising one lets the crossing at 10 through
    let mut htf = instrument("EURUSD", &[10000]);
    htf.data[0].open = 9995;
    htf.data[0].close = 10005;
    let r = run(&mut s, &inst, &Some(htf), &config()).unwrap();
    assert_eq!(r.trades_in.len(), 1);
    assert_eq!(r.trades_in[0].index_in, 10);
}

#[test]
fn a_standard_lot_is_a_valid_order_size() {
    let inst = instrument("EURUSD", &band_closes());
    let mut s = band_strategy(StopLoss::new(StopLossType::Disabled, 0));
    let mut cfg = config();
    cfg.order_size = 100_000;
    let r = run(&mut s, &inst, &None, &cfg).unwrap();
    assert_eq!(r.trades_out[0].profit, 100_000 * (9900 - 10500));
    assert_eq!(r.equity, 100_000);
    cfg.order_size = 2_000_000;
    assert_eq!(run(&mut s, &inst, &None, &cfg).err(), Some(BacktestError::InvalidConfig));
}
