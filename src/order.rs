//! Orders and their lifecycle: pending, then fulfilled, canceled or expired.
use vstd::prelude::*;
use crate::candle::{Candle, MAX_PRICE};
use crate::stop_loss::MAX_PARAM;

verus! {

/// What an order does when it fills.
#[derive(Debug, Clone, Copy, PartialEq, Eq, Structural)]
pub enum OrderType {
    BuyOrderLong,
    BuyOrderShort,
    SellOrderLong,
    SellOrderShort,
    TakeProfitLong,
    TakeProfitShort,
    StopLossLong,
    StopLossShort,
}

impl OrderType {
    /// The order opens a position.
    pub open spec fn entry(self) -> bool {
        self == OrderType::BuyOrderLong || self == OrderType::BuyOrderShort
    }

    /// The order belongs to the long side.
    pub open spec fn long(self) -> bool {
        match self {
            OrderType::BuyOrderLong | OrderType::SellOrderLong | OrderType::TakeProfitLong
            | OrderType::StopLossLong => true,
            _ => false,
        }
    }

    pub fn is_entry(&self) -> (r: bool)
        ensures
            r == self.entry(),
    {
        match self {
            OrderType::BuyOrderLong | OrderType::BuyOrderShort => true,
            _ => false,
        }
    }

    pub fn is_long(&self) -> (r: bool)
        ensures
            r == self.long(),
    {
        match self {
            OrderType::BuyOrderLong | OrderType::SellOrderLong | OrderType::TakeProfitLong
            | OrderType::StopLossLong => true,
            _ => false,
        }
    }

    /// The order is a stop loss.
    pub fn is_stop(&self) -> (r: bool)
        ensures
            r == (*self == OrderType::StopLossLong || *self == OrderType::StopLossShort),
    {
        match self {
            OrderType::StopLossLong | OrderType::StopLossShort => true,
            _ => false,
        }
    }
}

/// On which side of the market the target lies when the order is placed.
#[derive(Debug, Clone, Copy, PartialEq, Eq, Structural)]
pub enum OrderCondition {
    /// Fills once a high reaches the target.
    Greater,
    /// Fills once a low reaches the target.
    Lower,
}

#[derive(Debug, Clone, Copy, PartialEq, Eq, Structural)]
pub enum OrderStatus {
    Pending,
    Fulfilled,
    Canceled,
    Expired,
}

/// Where a strategy asks the target price to be, resolved when the order is placed.
#[derive(Debug, Clone, Copy, PartialEq, Eq, Structural)]
pub enum Target {
    /// A literal price.
    Price(i64),
    /// A signed number of ticks from the close.
    Offset(i64),
    /// A signed number of pips from the close.
    Pips(i64),
    /// A signed multiple, in hundredths, of the ATR from the close.
    Atr(i64),
}

/// An order as a strategy asks for it.
#[derive(Debug, Clone, Copy, PartialEq, Eq, Structural)]
pub struct OrderSpec {
    pub order_type: OrderType,
    pub target: Target,
    /// The last timestamp at which the order may still fill.
    pub valid_until: i64,
}

/// An order placed on the market.
#[derive(Debug, Clone, Copy, PartialEq, Eq, Structural)]
pub struct Order {
    pub id: usize,
    /// Orders placed together by one decision share a group.
    pub group: usize,
    pub order_type: OrderType,
    pub condition: OrderCondition,
    pub origin_price: i64,
    pub target_price: i64,
    pub created_at: i64,
    pub updated_at: i64,
    pub valid_until: i64,
    pub index_created: usize,
    pub index_fulfilled: Option<usize>,
    pub status: OrderStatus,
    /// The trade that the order opened, or that it protects.
    pub trade_id: Option<usize>,
}

impl Target {
    pub open spec fn wf(self) -> bool {
        match self {
            Target::Price(p) => 0 <= p <= MAX_PRICE,
            Target::Offset(d) => -MAX_PRICE <= d <= MAX_PRICE,
            Target::Pips(n) => -MAX_PARAM <= n <= MAX_PARAM,
            Target::Atr(m) => -MAX_PARAM <= m <= MAX_PARAM,
        }
    }
}

/// The absolute target price, given the close, the ATR and the pip size at placement.
pub open spec fn target_of(target: Target, close: int, atr: int, pip_size: int) -> int {
    match target {
        Target::Price(p) => p as int,
        Target::Offset(d) => close + d,
        Target::Pips(n) => close + n * pip_size,
        Target::Atr(m) => if m >= 0 { close + atr * m / 100 } else { close - atr * (-m) / 100 },
    }
}

/// The order that `spec` becomes when placed at `index` on `candle`.
pub open spec fn placed(
    spec: OrderSpec,
    id: int,
    group: int,
    index: int,
    candle: Candle,
    atr: int,
    pip_size: int,
    trade_id: Option<usize>,
) -> Order {
    let target = target_of(spec.target, candle.close as int, atr, pip_size);
    Order {
        id: id as usize,
        group: group as usize,
        order_type: spec.order_type,
        condition: if target >= candle.close { OrderCondition::Greater } else { OrderCondition::Lower },
        origin_price: candle.close,
        target_price: target as i64,
        created_at: candle.date,
        updated_at: candle.date,
        valid_until: spec.valid_until,
        index_created: index as usize,
        index_fulfilled: None,
        status: OrderStatus::Pending,
        trade_id,
    }
}

/// Whether a candle reaches the order's target.
pub open spec fn triggered(order: Order, candle: Candle) -> bool {
    match order.condition {
        OrderCondition::Greater => candle.high >= order.target_price,
        OrderCondition::Lower => candle.low <= order.target_price,
    }
}

/// `order`, canceled at `date`.
pub open spec fn canceled(order: Order, date: i64) -> Order {
    Order { status: OrderStatus::Canceled, updated_at: date, ..order }
}

/// `order`, expired at `date`.
pub open spec fn expired(order: Order, date: i64) -> Order {
    Order { status: OrderStatus::Expired, updated_at: date, ..order }
}

/// Two orders that stand or fall together: placed by one decision, or both exits.
pub open spec fn siblings(a: Order, b: Order) -> bool {
    a.group == b.group || (!a.order_type.entry() && !b.order_type.entry())
}

/// An order that may fill now: pending, on the side that matches the position, and reached.
pub open spec fn eligible(order: Order, candle: Candle, open: bool) -> bool {
    &&& order.status == OrderStatus::Pending
    &&& order.order_type.entry() != open
    &&& triggered(order, candle)
}

/// The index of the first order at or after `i` that may fill on `candle`.
pub open spec fn first_eligible(s: Seq<Order>, candle: Candle, open: bool, i: int) -> Option<int>
    decreases s.len() - i,
{
    if i < 0 || i >= s.len() {
        None
    } else if eligible(s[i], candle, open) {
        Some(i)
    } else {
        first_eligible(s, candle, open, i + 1)
    }
}

/// `s` after order `k` fills at `index` for trade `trade_id` and its pending siblings are canceled.
pub open spec fn fulfilled(s: Seq<Order>, k: int, index: int, date: i64, trade_id: int) -> Seq<Order> {
    Seq::new(
        s.len(),
        |j: int|
            if j == k {
                Order {
                    status: OrderStatus::Fulfilled,
                    index_fulfilled: Some(index as usize),
                    updated_at: date,
                    trade_id: Some(trade_id as usize),
                    ..s[k]
                }
            } else if s[j].status == OrderStatus::Pending && siblings(s[j], s[k]) {
                canceled(s[j], date)
            } else {
                s[j]
            },
    )
}

/// `s` with its pending exits (`exits`) or else its pending entries canceled.
pub open spec fn canceled_kind(s: Seq<Order>, exits: bool, date: i64) -> Seq<Order> {
    Seq::new(
        s.len(),
        |j: int|
            if s[j].status == OrderStatus::Pending && s[j].order_type.entry() != exits {
                canceled(s[j], date)
            } else {
                s[j]
            },
    )
}

/// `s` with the pending orders whose validity ended before `date` expired.
pub open spec fn expired_all(s: Seq<Order>, date: i64) -> Seq<Order> {
    Seq::new(
        s.len(),
        |j: int|
            if s[j].status == OrderStatus::Pending && s[j].valid_until < date {
                expired(s[j], date)
            } else {
                s[j]
            },
    )
}

/// The orders that `specs` become when placed together.
pub open spec fn placed_all(
    specs: Seq<OrderSpec>,
    next_id: int,
    group: int,
    index: int,
    candle: Candle,
    atr: int,
    pip_size: int,
    trade_id: Option<usize>,
) -> Seq<Order> {
    Seq::new(
        specs.len(),
        |k: int| placed(specs[k], next_id + k, group, index, candle, atr, pip_size, trade_id),
    )
}

/// Order ids are positions in the list.
pub open spec fn ids_ok(orders: Seq<Order>) -> bool {
    forall|i: int| 0 <= i < orders.len() ==> (#[trigger] orders[i]).id == i
}

/// No two orders placed together have both filled.
pub open spec fn one_cancels_other(orders: Seq<Order>) -> bool {
    forall|i: int, j: int|
        0 <= i < orders.len() && 0 <= j < orders.len() && i != j && orders[i].group
            == orders[j].group && #[trigger] orders[i].status == OrderStatus::Fulfilled
            ==> #[trigger] orders[j].status != OrderStatus::Fulfilled
}

/// Once an order has filled, every other order of its group is settled, neither
/// pending nor filled.
pub open spec fn groups_settled(orders: Seq<Order>) -> bool {
    forall|i: int, j: int|
        0 <= i < orders.len() && 0 <= j < orders.len() && i != j && orders[i].group
            == orders[j].group && #[trigger] orders[i].status == OrderStatus::Fulfilled
            ==> #[trigger] orders[j].status == OrderStatus::Canceled || orders[j].status
            == OrderStatus::Expired
}

/// No exit order is pending.
pub open spec fn no_pending_exits(orders: Seq<Order>) -> bool {
    forall|j: int|
        0 <= j < orders.len() && (#[trigger] orders[j]).status == OrderStatus::Pending
            ==> orders[j].order_type.entry()
}

/// Every target price lies in `[-MAX_PRICE, 2 * MAX_PRICE]`.
pub open spec fn targets_ok(orders: Seq<Order>) -> bool {
    forall|j: int| 0 <= j < orders.len() ==> -MAX_PRICE <= (#[trigger] orders[j]).target_price <= 2 * MAX_PRICE
}

/// The fields that never change once an order is placed.
pub open spec fn same_shape(a: Order, b: Order) -> bool {
    &&& a.id == b.id
    &&& a.group == b.group
    &&& a.order_type == b.order_type
    &&& a.condition == b.condition
    &&& a.target_price == b.target_price
    &&& a.valid_until == b.valid_until
}

/// Every group is below `next_group`.
pub open spec fn groups_below(orders: Seq<Order>, next_group: int) -> bool {
    forall|i: int| 0 <= i < orders.len() ==> (#[trigger] orders[i]).group < next_group
}

/// The absolute target price of `target`.
pub fn resolve_target(target: Target, close: i64, atr: i64, pip_size: i64) -> (r: i64)
    requires
        target.wf(),
        0 <= close <= MAX_PRICE,
        0 <= atr <= MAX_PRICE / MAX_PARAM,
        0 <= pip_size <= MAX_PRICE / MAX_PARAM,
    ensures
        r == target_of(target, close as int, atr as int, pip_size as int),
        -MAX_PRICE <= r <= 2 * MAX_PRICE,
{
    match target {
        Target::Price(p) => p,
        Target::Offset(d) => close + d,
        Target::Pips(n) => {
            proof {
                assert(-MAX_PRICE <= n * pip_size <= MAX_PRICE) by (nonlinear_arith)
                    requires
                        -MAX_PARAM <= n <= MAX_PARAM,
                        0 <= pip_size <= MAX_PRICE / MAX_PARAM,
                ;
            }
            close + n * pip_size
        },
        Target::Atr(m) => {
            let mag: i64 = if m >= 0 { m } else { -m };
            proof {
                assert(0 <= atr * mag <= MAX_PRICE) by (nonlinear_arith)
                    requires
                        0 <= mag <= MAX_PARAM,
                        0 <= atr <= MAX_PRICE / MAX_PARAM,
                ;
            }
            if m >= 0 {
                close + atr * m / 100
            } else {
                close - atr * mag / 100
            }
        },
    }
}

/// Places the orders that a strategy asked for at `index`: ids run from `next_id`,
/// all share `group`, and each target is resolved against the current close, ATR
/// and pip size, then frozen.
pub fn prepare_orders(
    index: usize,
    candle: &Candle,
    atr: i64,
    pip_size: i64,
    specs: &Vec<OrderSpec>,
    next_id: usize,
    group: usize,
    trade_id: Option<usize>,
) -> (r: Vec<Order>)
    requires
        candle.wf(),
        0 <= atr <= MAX_PRICE / MAX_PARAM,
        0 <= pip_size <= MAX_PRICE / MAX_PARAM,
        forall|k: int| 0 <= k < specs.len() ==> (#[trigger] specs[k]).target.wf(),
        next_id + specs.len() <= usize::MAX,
    ensures
        r.len() == specs.len(),
        forall|k: int|
            0 <= k < r.len() ==> #[trigger] r[k] == placed(
                specs[k],
                next_id + k,
                group as int,
                index as int,
                *candle,
                atr as int,
                pip_size as int,
                trade_id,
            ),
        forall|k: int| 0 <= k < r.len() ==> -MAX_PRICE <= #[trigger] r[k].target_price <= 2 * MAX_PRICE,
        r@ == placed_all(specs@, next_id as int, group as int, index as int, *candle, atr as int, pip_size as int, trade_id),
{
    let mut r: Vec<Order> = Vec::new();
    let mut k: usize = 0;
    while k < specs.len()
        invariant
            k <= specs.len(),
            r.len() == k,
            candle.wf(),
            0 <= atr <= MAX_PRICE / MAX_PARAM,
            0 <= pip_size <= MAX_PRICE / MAX_PARAM,
            forall|k: int| 0 <= k < specs.len() ==> (#[trigger] specs[k]).target.wf(),
            next_id + specs.len() <= usize::MAX,
            forall|j: int|
                0 <= j < k ==> #[trigger] r[j] == placed(
                    specs[j],
                    next_id + j,
                    group as int,
                    index as int,
                    *candle,
                    atr as int,
                    pip_size as int,
                    trade_id,
                ),
            forall|j: int| 0 <= j < k ==> -MAX_PRICE <= #[trigger] r[j].target_price <= 2 * MAX_PRICE,
        decreases specs.len() - k,
    {
        let spec = specs[k];
        let target = resolve_target(spec.target, candle.close, atr, pip_size);
        let condition = if target >= candle.close {
            OrderCondition::Greater
        } else {
            OrderCondition::Lower
        };
        r.push(
            Order {
                id: next_id + k,
                group,
                order_type: spec.order_type,
                condition,
                origin_price: candle.close,
                target_price: target,
                created_at: candle.date,
                updated_at: candle.date,
                valid_until: spec.valid_until,
                index_created: index,
                index_fulfilled: None,
                status: OrderStatus::Pending,
                trade_id,
            },
        );
        k = k + 1;
    }
    assert(r@ =~= placed_all(specs@, next_id as int, group as int, index as int, *candle, atr as int, pip_size as int, trade_id));
    r
}

/// Whether a candle reaches the order's target.
pub fn is_triggered(order: &Order, candle: &Candle) -> (r: bool)
    ensures
        r == triggered(*order, *candle),
{
    match order.condition {
        OrderCondition::Greater => candle.high >= order.target_price,
        OrderCondition::Lower => candle.low <= order.target_price,
    }
}

/// The first order that may fill on `candle`: an exit while a position is open, an
/// entry while flat.
pub fn resolve_active_orders(orders: &Vec<Order>, candle: &Candle, open: bool) -> (r: Option<usize>)
    ensures
        r is None ==> forall|j: int| 0 <= j < orders.len() ==> !eligible(#[trigger] orders[j], *candle, open),
        r is Some ==> {
            &&& r->0 < orders.len()
            &&& eligible(orders[r->0 as int], *candle, open)
            &&& forall|j: int| 0 <= j < r->0 ==> !eligible(#[trigger] orders[j], *candle, open)
        },
        match r {
            Some(k) => first_eligible(orders@, *candle, open, 0) == Some(k as int),
            None => first_eligible(orders@, *candle, open, 0) is None,
        },
{
    let mut i: usize = 0;
    while i < orders.len()
        invariant
            i <= orders.len(),
            forall|j: int| 0 <= j < i ==> !eligible(#[trigger] orders[j], *candle, open),
            first_eligible(orders@, *candle, open, 0) == first_eligible(orders@, *candle, open, i as int),
        decreases orders.len() - i,
    {
        let o = &orders[i];
        if o.status == OrderStatus::Pending && o.order_type.is_entry() != open && is_triggered(o, candle) {
            return Some(i);
        }
        i = i + 1;
    }
    None
}

/// Fills order `k` at `index` for trade `trade_id`, and cancels every pending sibling:
/// the other orders of its group and, when it is an exit, every other pending exit.
pub fn fulfill_order(orders: &mut Vec<Order>, k: usize, index: usize, date: i64, trade_id: usize)
    requires
        k < old(orders).len(),
        old(orders)[k as int].status == OrderStatus::Pending,
    ensures
        final(orders).len() == old(orders).len(),
        final(orders)[k as int] == (Order {
            status: OrderStatus::Fulfilled,
            index_fulfilled: Some(index),
            updated_at: date,
            trade_id: Some(trade_id),
            ..old(orders)[k as int]
        }),
        forall|j: int|
            0 <= j < old(orders).len() && j != k ==> #[trigger] final(orders)[j] == if old(orders)[j].status
                == OrderStatus::Pending && siblings(old(orders)[j], old(orders)[k as int]) {
                canceled(old(orders)[j], date)
            } else {
                old(orders)[j]
            },
        forall|j: int| 0 <= j < old(orders).len() ==> same_shape(#[trigger] final(orders)[j], old(orders)[j]),
        groups_settled(old(orders)@) ==> groups_settled(final(orders)@),
        !old(orders)[k as int].order_type.entry() ==> no_pending_exits(final(orders)@),
        no_pending_exits(old(orders)@) ==> no_pending_exits(final(orders)@),
        final(orders)@ == fulfilled(old(orders)@, k as int, index as int, date, trade_id as int),
{
    let filled = orders[k];
    let mut i: usize = 0;
    while i < orders.len()
        invariant
            i <= orders.len(),
            orders.len() == old(orders).len(),
            k < old(orders).len(),
            filled == old(orders)[k as int],
            forall|j: int|
                0 <= j < i && j != k ==> #[trigger] orders[j] == if old(orders)[j].status
                    == OrderStatus::Pending && siblings(old(orders)[j], filled) {
                    canceled(old(orders)[j], date)
                } else {
                    old(orders)[j]
                },
            forall|j: int| i <= j < orders.len() ==> #[trigger] orders[j] == old(orders)[j],
            i > k ==> orders[k as int] == old(orders)[k as int],
        decreases orders.len() - i,
    {
        let o = orders[i];
        if i != k && o.status == OrderStatus::Pending && (o.group == filled.group
            || (!o.order_type.is_entry() && !filled.order_type.is_entry())) {
            orders.set(i, Order { status: OrderStatus::Canceled, updated_at: date, ..o });
        }
        i = i + 1;
    }
    orders.set(
        k,
        Order {
            status: OrderStatus::Fulfilled,
            index_fulfilled: Some(index),
            updated_at: date,
            trade_id: Some(trade_id),
            ..filled
        },
    );
    proof {
        let o = old(orders)@;
        let f = orders@;
        if groups_settled(o) {
            assert forall|a: int, b: int|
                0 <= a < f.len() && 0 <= b < f.len() && a != b && f[a].group == f[b].group
                    && #[trigger] f[a].status == OrderStatus::Fulfilled implies #[trigger] f[b].status
                == OrderStatus::Canceled || f[b].status == OrderStatus::Expired by {
                if a == k {
                    if o[b].status == OrderStatus::Fulfilled {
                        assert(o[k as int].status == OrderStatus::Canceled || o[k as int].status
                            == OrderStatus::Expired);
                    }
                } else {
                    assert(o[a].status == OrderStatus::Fulfilled);
                    if b == k {
                        assert(o[b].status == OrderStatus::Canceled || o[b].status
                            == OrderStatus::Expired);
                    } else {
                        assert(o[b].status == OrderStatus::Canceled || o[b].status
                            == OrderStatus::Expired);
                    }
                }
            }
        }
        assert(f =~= fulfilled(o, k as int, index as int, date, trade_id as int));
    }
}

/// Cancels every pending order that satisfies `exits` (exit orders) or else entry orders.
pub fn cancel_pending(orders: &mut Vec<Order>, exits: bool, date: i64)
    ensures
        final(orders).len() == old(orders).len(),
        forall|j: int|
            0 <= j < old(orders).len() ==> #[trigger] final(orders)[j] == if old(orders)[j].status
                == OrderStatus::Pending && old(orders)[j].order_type.entry() != exits {
                canceled(old(orders)[j], date)
            } else {
                old(orders)[j]
            },
        forall|j: int| 0 <= j < old(orders).len() ==> same_shape(#[trigger] final(orders)[j], old(orders)[j]),
        groups_settled(old(orders)@) ==> groups_settled(final(orders)@),
        exits ==> no_pending_exits(final(orders)@),
        no_pending_exits(old(orders)@) ==> no_pending_exits(final(orders)@),
        final(orders)@ == canceled_kind(old(orders)@, exits, date),
{
    let mut i: usize = 0;
    while i < orders.len()
        invariant
            i <= orders.len(),
            orders.len() == old(orders).len(),
            forall|j: int|
                0 <= j < i ==> #[trigger] orders[j] == if old(orders)[j].status
                    == OrderStatus::Pending && old(orders)[j].order_type.entry() != exits {
                    canceled(old(orders)[j], date)
                } else {
                    old(orders)[j]
                },
            forall|j: int| i <= j < orders.len() ==> #[trigger] orders[j] == old(orders)[j],
        decreases orders.len() - i,
    {
        let o = orders[i];
        if o.status == OrderStatus::Pending && o.order_type.is_entry() != exits {
            orders.set(i, Order { status: OrderStatus::Canceled, updated_at: date, ..o });
        }
        i = i + 1;
    }
    assert(orders@ =~= canceled_kind(old(orders)@, exits, date));
}

/// Marks as expired every pending order whose `valid_until` is strictly before `date`.
pub fn cancel_pending_expired_orders(orders: &mut Vec<Order>, date: i64)
    ensures
        final(orders).len() == old(orders).len(),
        forall|j: int|
            0 <= j < old(orders).len() ==> #[trigger] final(orders)[j] == if old(orders)[j].status
                == OrderStatus::Pending && old(orders)[j].valid_until < date {
                expired(old(orders)[j], date)
            } else {
                old(orders)[j]
            },
        forall|j: int| 0 <= j < old(orders).len() ==> same_shape(#[trigger] final(orders)[j], old(orders)[j]),
        groups_settled(old(orders)@) ==> groups_settled(final(orders)@),
        no_pending_exits(old(orders)@) ==> no_pending_exits(final(orders)@),
        final(orders)@ == expired_all(old(orders)@, date),
{
    let mut i: usize = 0;
    while i < orders.len()
        invariant
            i <= orders.len(),
            orders.len() == old(orders).len(),
            forall|j: int|
                0 <= j < i ==> #[trigger] orders[j] == if old(orders)[j].status
                    == OrderStatus::Pending && old(orders)[j].valid_until < date {
                    expired(old(orders)[j], date)
                } else {
                    old(orders)[j]
                },
            forall|j: int| i <= j < orders.len() ==> #[trigger] orders[j] == old(orders)[j],
        decreases orders.len() - i,
    {
        let o = orders[i];
        if o.status == OrderStatus::Pending && o.valid_until < date {
            orders.set(i, Order { status: OrderStatus::Expired, updated_at: date, ..o });
        }
        i = i + 1;
    }
    assert(orders@ =~= expired_all(old(orders)@, date));
}

/// Some order is still pending.
pub open spec fn any_pending(s: Seq<Order>) -> bool {
    exists|j: int| 0 <= j < s.len() && (#[trigger] s[j]).status == OrderStatus::Pending
}

/// Some exit (`exits`) or else some entry is still pending.
pub open spec fn any_pending_of(s: Seq<Order>, exits: bool) -> bool {
    exists|j: int|
        0 <= j < s.len() && (#[trigger] s[j]).status == OrderStatus::Pending && s[j].order_type.entry()
            != exits
}

/// Whether any order is still pending.
pub fn has_pending(orders: &Vec<Order>) -> (r: bool)
    ensures
        r == any_pending(orders@),
{
    let mut i: usize = 0;
    while i < orders.len()
        invariant
            i <= orders.len(),
            forall|j: int| 0 <= j < i ==> (#[trigger] orders[j]).status != OrderStatus::Pending,
        decreases orders.len() - i,
    {
        if orders[i].status == OrderStatus::Pending {
            return true;
        }
        i = i + 1;
    }
    false
}

/// Whether any order is pending among the exits (`exits`) or else among the entries.
pub fn has_pending_of(orders: &Vec<Order>, exits: bool) -> (r: bool)
    ensures
        r == any_pending_of(orders@, exits),
{
    let mut i: usize = 0;
    while i < orders.len()
        invariant
            i <= orders.len(),
            forall|j: int|
                0 <= j < i ==> !((#[trigger] orders[j]).status == OrderStatus::Pending
                    && orders[j].order_type.entry() != exits),
        decreases orders.len() - i,
    {
        if orders[i].status == OrderStatus::Pending && orders[i].order_type.is_entry() != exits {
            return true;
        }
        i = i + 1;
    }
    false
}

/// The order specifications of `s` that exit a position (`exits`) or else enter one,
/// in their order.
pub open spec fn kept(s: Seq<OrderSpec>, exits: bool) -> Seq<OrderSpec>
    decreases s.len(),
{
    if s.len() == 0 {
        s
    } else if s.last().order_type.entry() != exits {
        kept(s.drop_last(), exits).push(s.last())
    } else {
        kept(s.drop_last(), exits)
    }
}

proof fn lemma_kept_bounds(s: Seq<OrderSpec>, exits: bool)
    ensures
        kept(s, exits).len() <= s.len(),
        forall|j: int| 0 <= j < kept(s, exits).len() ==> #[trigger] kept(s, exits)[j].order_type.entry() != exits,
        forall|j: int|
            0 <= j < kept(s, exits).len() ==> exists|i: int| 0 <= i < s.len() && s[i] == #[trigger] kept(s, exits)[j],
    decreases s.len(),
{
    if s.len() > 0 {
        lemma_kept_bounds(s.drop_last(), exits);
        let d = s.drop_last();
        assert forall|j: int| 0 <= j < kept(s, exits).len() implies exists|i: int|
            0 <= i < s.len() && s[i] == #[trigger] kept(s, exits)[j] by {
            if j < kept(d, exits).len() {
                let i = choose|i: int| 0 <= i < d.len() && d[i] == kept(d, exits)[j];
                assert(s[i] == kept(s, exits)[j]);
            } else {
                assert(s[s.len() - 1] == kept(s, exits)[j]);
            }
        }
    }
}

/// The specifications of `specs` that exit a position (`exits`) or else enter one.
pub fn keep_kind(specs: &Vec<OrderSpec>, exits: bool) -> (r: Vec<OrderSpec>)
    ensures
        r@ == kept(specs@, exits),
        r.len() <= specs.len(),
        forall|j: int| 0 <= j < r.len() ==> (#[trigger] r[j]).order_type.entry() != exits,
        forall|j: int| 0 <= j < r.len() ==> exists|i: int| 0 <= i < specs.len() && specs[i] == #[trigger] r[j],
{
    let mut r: Vec<OrderSpec> = Vec::new();
    let mut i: usize = 0;
    while i < specs.len()
        invariant
            i <= specs.len(),
            r@ == kept(specs@.take(i as int), exits),
        decreases specs.len() - i,
    {
        proof {
            assert(specs@.take(i + 1).drop_last() =~= specs@.take(i as int));
        }
        if specs[i].order_type.is_entry() != exits {
            r.push(specs[i]);
        }
        i = i + 1;
    }
    proof {
        assert(specs@.take(specs.len() as int) =~= specs@);
        lemma_kept_bounds(specs@, exits);
    }
    r
}

/// Appends newly placed orders.
pub fn add_pending(orders: &mut Vec<Order>, new_orders: Vec<Order>)
    ensures
        final(orders)@ == old(orders)@ + new_orders@,
{
    let mut new_orders = new_orders;
    orders.append(&mut new_orders);
}

} // verus!
