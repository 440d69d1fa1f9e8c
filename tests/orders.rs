use rs_algo_backtest::candle::{Candle, CandleType};
use rs_algo_backtest::order::{
    cancel_pending_expired_orders, fulfill_order, has_pending, is_triggered, keep_kind,
    prepare_orders, resolve_active_orders, resolve_target, OrderCondition, OrderSpec, OrderStatus,
    OrderType, Target,
};

fn candle(date: i64, o: i64, h: i64, l: i64, c: i64) -> Candle {
    Candle { candle_type: CandleType::Default, date, open: o, high: h, low: l, close: c, volume: 1 }
}

fn spec(order_type: OrderType, target: Target, valid_until: i64) -> OrderSpec {
    OrderSpec { order_type, target, valid_until }
}

#[test]
fn targets_resolve_against_the_close() {
    assert_eq!(resolve_target(Target::Price(950), 1000, 20, 5), 950);
    assert_eq!(resolve_target(Target::Offset(-30), 1000, 20, 5), 970);
    assert_eq!(resolve_target(Target::Pips(4), 1000, 20, 5), 1020);
    assert_eq!(resolve_target(Target::Atr(150), 1000, 20, 5), 1030);
    assert_eq!(resolve_target(Target::Atr(-150), 1000, 20, 5), 970);
}

#[test]
fn prepared_orders_are_pending_with_frozen_prices() {
    let c = candle(7, 1000, 1010, 990, 1000);
    let specs = vec![
        spec(OrderType::TakeProfitLong, Target::Offset(50), 100),
        spec(OrderType::StopLossLong, Target::Offset(-40), 100),
    ];
    let orders = prepare_orders(3, &c, 0, 1, &specs, 5, 2, Some(1));
    assert_eq!(orders.len(), 2);
    assert_eq!(orders[0].id, 5);
    assert_eq!(orders[1].id, 6);
    assert_eq!(orders[0].group, 2);
    assert_eq!(orders[0].target_price, 1050);
    assert_eq!(orders[0].condition, OrderCondition::Greater);
    assert_eq!(orders[1].target_price, 960);
    assert_eq!(orders[1].condition, OrderCondition::Lower);
    assert_eq!(orders[1].status, OrderStatus::Pending);
    assert_eq!(orders[1].created_at, 7);
    assert_eq!(orders[1].trade_id, Some(1));
    assert!(is_triggered(&orders[0], &candle(8, 1000, 1050, 1000, 1000)));
    assert!(!is_triggered(&orders[0], &candle(8, 1000, 1049, 1000, 1000)));
}

#[test]
fn one_cancels_other_on_fill() {
    let c = candle(7, 1000, 1010, 990, 1000);
    let specs = vec![
        spec(OrderType::TakeProfitLong, Target::Offset(50), 100),
        spec(OrderType::StopLossLong, Target::Offset(-40), 100),
    ];
    let mut orders = prepare_orders(3, &c, 0, 1, &specs, 0, 0, Some(0));
    // a candle that reaches the take profit only
    let k = resolve_active_orders(&orders, &candle(9, 1000, 1060, 995, 1055), true);
    assert_eq!(k, Some(0));
    fulfill_order(&mut orders, 0, 4, 9, 0);
    assert_eq!(orders[0].status, OrderStatus::Fulfilled);
    assert_eq!(orders[0].index_fulfilled, Some(4));
    assert_eq!(orders[1].status, OrderStatus::Canceled);
    assert_eq!(orders[1].updated_at, 9);
    // the canceled sibling can no longer fill
    assert_eq!(resolve_active_orders(&orders, &candle(10, 900, 900, 900, 900), true), None);
    assert!(!has_pending(&orders));
}

#[test]
fn exits_are_not_eligible_while_flat() {
    let c = candle(7, 1000, 1010, 990, 1000);
    let specs = vec![
        spec(OrderType::StopLossLong, Target::Offset(-40), 100),
        spec(OrderType::BuyOrderLong, Target::Offset(20), 100),
    ];
    let orders = prepare_orders(3, &c, 0, 1, &specs, 0, 0, None);
    let wide = candle(8, 1000, 2000, 0, 1000);
    assert_eq!(resolve_active_orders(&orders, &wide, false), Some(1));
    assert_eq!(resolve_active_orders(&orders, &wide, true), Some(0));
}

#[test]
fn keep_kind_filters_in_order() {
    let specs = vec![
        spec(OrderType::StopLossLong, Target::Offset(-40), 1),
        spec(OrderType::BuyOrderLong, Target::Offset(20), 2),
        spec(OrderType::TakeProfitShort, Target::Offset(-20), 3),
    ];
    let exits = keep_kind(&specs, true);
    assert_eq!(exits, vec![specs[0], specs[2]]);
    let entries = keep_kind(&specs, false);
    assert_eq!(entries, vec![specs[1]]);
}

#[test]
fn order_expires_strictly_after_valid_until() {
    let dates: Vec<i64> = (0..8).map(|i| 1000 + 60 * i).collect();
    let placed_at = candle(dates[2], 1000, 1000, 1000, 1000);
    let specs = vec![spec(OrderType::BuyOrderLong, Target::Offset(500), dates[5])];
    let mut orders = prepare_orders(2, &placed_at, 0, 1, &specs, 0, 0, None);
    for i in 3..=5 {
        let c = candle(dates[i], 1000, 1010, 990, 1000);
        assert_eq!(resolve_active_orders(&orders, &c, false), None);
        cancel_pending_expired_orders(&mut orders, dates[i]);
        assert_eq!(orders[0].status, OrderStatus::Pending);
    }
    cancel_pending_expired_orders(&mut orders, dates[6]);
    assert_eq!(orders[0].status, OrderStatus::Expired);
    assert_eq!(orders[0].updated_at, dates[6]);
}
