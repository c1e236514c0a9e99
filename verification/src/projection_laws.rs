//! Live collection state is the projection of its command history.

use vstd::prelude::*;

use crate::allocation::{eligible, fill_lots, fills_sound, AuctionOrderFill};
use crate::auction::AuctionOrder;
use crate::auction_engine::{bound_events, CallAuctionEngine, PreparedCallAuctionAction};
use crate::book_interest::{canonical_side, side_orders, ActiveOrders};
use crate::book_queries::lists_orders;
use crate::book_types::{
    CallAuctionCancellation, CallAuctionOrderSnapshot, CallAuctionRemainderPolicy,
};
use crate::book_uncross::{
    cancels_order, cursor_ok, executed_lots, fill_pairs, fills_order, fills_positive,
    law_pairs_reconcile, lemma_executed_fill, lemma_executed_listed, lemma_plan_cancellations,
    lots_at, pair_trades, pairs_from, plan_executed, side_cancellations, tail_lots, uncrossed,
    AuctionPair,
};
use crate::domain::{OrderId, Quantity, Side};
use crate::engine_grammar::trade_number;
use crate::engine_projection::{
    cancel_projection, numbered_trades, price_eligible, projected, reduced, remainder_removed,
    traded, uncross_projection, ProjectedState,
};
use crate::engine_types::{
    CallAuctionCommand, CallAuctionCommandReportCheckpoint, CallAuctionEvent, CallAuctionEventKind,
    CallAuctionExecutionReport, CallAuctionUncrossCommand,
};
use crate::instrument::InstrumentDefinition;

verus! {

/// Lots that one pair takes of an order.
pub open spec fn pair_takes(pair: AuctionPair, id: OrderId) -> int {
    (if pair.buy_order_id == id {
        pair.lots as int
    } else {
        0
    }) + (if pair.sell_order_id == id {
        pair.lots as int
    } else {
        0
    })
}

/// Lots that the first `count` pairs take of an order.
pub open spec fn pairs_take(pairs: Seq<AuctionPair>, id: OrderId, count: nat) -> int
    decreases count,
{
    if count == 0 {
        0
    } else {
        pairs_take(pairs, id, (count - 1) as nat) + pair_takes(pairs[count - 1], id)
    }
}

/// Lots that the fills from one position on execute of an order.
spec fn tail_takes(fills: Seq<AuctionOrderFill>, id: OrderId, index: int) -> int
    decreases fills.len() - index,
{
    if index < 0 || index >= fills.len() {
        0
    } else {
        (if fills[index].order_id == id {
            fills[index].quantity_lots as int
        } else {
            0
        }) + tail_takes(fills, id, index + 1)
    }
}

proof fn lemma_tail_takes(fills: Seq<AuctionOrderFill>, id: OrderId, index: int)
    requires
        0 <= index <= fills.len(),
    ensures
        executed_lots(fills.take(index), id) + tail_takes(fills, id, index) == executed_lots(
            fills,
            id,
        ),
        0 <= tail_takes(fills, id, index),
    decreases fills.len() - index,
{
    if index < fills.len() {
        lemma_tail_takes(fills, id, index + 1);
        assert(fills.take(index + 1).drop_last() =~= fills.take(index));
        assert(fills.take(index + 1).last() == fills[index]);
    } else {
        assert(fills.take(index) =~= fills);
    }
}

/// Sums over a list that starts with one pair.
proof fn lemma_take_shift(pair: AuctionPair, rest: Seq<AuctionPair>, id: OrderId, count: nat)
    requires
        count <= rest.len(),
    ensures
        pairs_take(seq![pair] + rest, id, count + 1) == pair_takes(pair, id) + pairs_take(
            rest,
            id,
            count,
        ),
    decreases count,
{
    let whole = seq![pair] + rest;
    if count > 0 {
        lemma_take_shift(pair, rest, id, (count - 1) as nat);
        assert(whole[count as int] == rest[count - 1]);
        assert(pairs_take(whole, id, count + 1) == pairs_take(whole, id, count) + pair_takes(
            whole[count as int],
            id,
        ));
    } else {
        assert(whole[0] == pair);
        assert(pairs_take(whole, id, 1) == pairs_take(whole, id, 0) + pair_takes(whole[0], id));
        assert(pairs_take(whole, id, 0) == 0);
    }
}

/// What one cursor still owes an order.
spec fn cursor_takes(fills: Seq<AuctionOrderFill>, id: OrderId, index: int, left: int) -> int {
    (if 0 <= index < fills.len() && fills[index].order_id == id {
        left
    } else {
        0
    }) + tail_takes(fills, id, index + 1)
}

/// Pairing takes of every order what its fills execute.
proof fn lemma_pairs_take(
    buys: Seq<AuctionOrderFill>,
    sells: Seq<AuctionOrderFill>,
    buy_index: int,
    sell_index: int,
    buy_left: int,
    sell_left: int,
    id: OrderId,
)
    requires
        fills_positive(buys),
        fills_positive(sells),
        cursor_ok(buys, buy_index, buy_left),
        cursor_ok(sells, sell_index, sell_left),
        buy_left + tail_lots(buys, buy_index + 1) == sell_left + tail_lots(sells, sell_index + 1),
    ensures
        ({
            let pairs = pairs_from(buys, sells, buy_index, sell_index, buy_left, sell_left);
            pairs_take(pairs, id, pairs.len()) == cursor_takes(buys, id, buy_index, buy_left)
                + cursor_takes(sells, id, sell_index, sell_left)
        }),
    decreases (buys.len() - buy_index) + (sells.len() - sell_index),
{
    if buy_index < buys.len() && sell_index < sells.len() {
        let lots = if buy_left < sell_left {
            buy_left
        } else {
            sell_left
        };
        let next_buy = if buy_left == lots {
            buy_index + 1
        } else {
            buy_index
        };
        let next_sell = if sell_left == lots {
            sell_index + 1
        } else {
            sell_index
        };
        let next_buy_left = if buy_left == lots {
            lots_at(buys, next_buy)
        } else {
            buy_left - lots
        };
        let next_sell_left = if sell_left == lots {
            lots_at(sells, next_sell)
        } else {
            sell_left - lots
        };
        if next_buy < buys.len() {
            assert(buys[next_buy].quantity_lots > 0);
        }
        if next_sell < sells.len() {
            assert(sells[next_sell].quantity_lots > 0);
        }
        lemma_pairs_take(buys, sells, next_buy, next_sell, next_buy_left, next_sell_left, id);
        let rest = pairs_from(buys, sells, next_buy, next_sell, next_buy_left, next_sell_left);
        let pair = AuctionPair {
            buy_order_id: buys[buy_index].order_id,
            sell_order_id: sells[sell_index].order_id,
            lots: lots as u64,
        };
        lemma_take_shift(pair, rest, id, rest.len());
        assert((seq![pair] + rest).len() == rest.len() + 1);
    } else {
        crate::book_uncross::lemma_tail_lots(buys, buy_index);
        crate::book_uncross::lemma_tail_lots(sells, sell_index);
        if buy_index < buys.len() {
            crate::book_uncross::lemma_tail_lots(buys, buy_index + 1);
        }
        if sell_index < sells.len() {
            crate::book_uncross::lemma_tail_lots(sells, sell_index + 1);
        }
    }
}

/// Two fill lists of equal total pair so that every order trades exactly what
/// its fill says.
pub proof fn law_pairs_execute_fills(
    buys: Seq<AuctionOrderFill>,
    sells: Seq<AuctionOrderFill>,
    id: OrderId,
)
    requires
        fills_positive(buys),
        fills_positive(sells),
        fill_lots(buys) == fill_lots(sells),
    ensures
        pairs_take(fill_pairs(buys, sells), id, fill_pairs(buys, sells).len()) == executed_lots(
            buys,
            id,
        ) + executed_lots(sells, id),
{
    crate::book_uncross::lemma_tail_lots(buys, 0);
    crate::book_uncross::lemma_tail_lots(sells, 0);
    lemma_tail_takes(buys, id, 0);
    lemma_tail_takes(sells, id, 0);
    assert(buys.take(0) =~= Seq::<AuctionOrderFill>::empty());
    assert(sells.take(0) =~= Seq::<AuctionOrderFill>::empty());
    if buys.len() > 0 {
        assert(buys[0].quantity_lots > 0);
    }
    if sells.len() > 0 {
        assert(sells[0].quantity_lots > 0);
    }
    lemma_pairs_take(buys, sells, 0, 0, lots_at(buys, 0), lots_at(sells, 0), id);
}

proof fn lemma_take_monotone(pairs: Seq<AuctionPair>, id: OrderId, few: nat, many: nat)
    requires
        few <= many,
    ensures
        0 <= pairs_take(pairs, id, few) <= pairs_take(pairs, id, many),
    decreases many,
{
    if few < many {
        lemma_take_monotone(pairs, id, few, (many - 1) as nat);
    } else if few > 0 {
        lemma_take_monotone(pairs, id, (few - 1) as nat, (few - 1) as nat);
    }
}

/// Active orders after the first `count` pairs.
spec fn after_pairs(start: ActiveOrders, pairs: Seq<AuctionPair>, count: nat) -> ActiveOrders {
    Map::new(
        |id: OrderId|
            start.dom().contains(id) && pairs_take(pairs, id, count) < start[id].quantity.lots,
        |id: OrderId|
            CallAuctionOrderSnapshot {
                quantity: Quantity {
                    lots: (start[id].quantity.lots - pairs_take(pairs, id, count)) as u64,
                },
                ..start[id]
            },
    )
}

/// Whether every pair can trade at a price.
spec fn pairs_tradable(
    start: ActiveOrders,
    pairs: Seq<AuctionPair>,
    price: crate::domain::Price,
) -> bool {
    &&& forall|k: int|
        0 <= k < pairs.len() ==> {
            let pair = #[trigger] pairs[k];
            &&& pair.lots > 0
            &&& start.dom().contains(pair.buy_order_id)
            &&& start[pair.buy_order_id].side == Side::Buy
            &&& price_eligible(Side::Buy, start[pair.buy_order_id].constraint, price)
            &&& start.dom().contains(pair.sell_order_id)
            &&& start[pair.sell_order_id].side == Side::Sell
            &&& price_eligible(Side::Sell, start[pair.sell_order_id].constraint, price)
        }
    &&& forall|id: OrderId| #[trigger]
        start.dom().contains(id) ==> 0 <= pairs_take(pairs, id, pairs.len())
            <= start[id].quantity.lots && start[id].quantity.lots > 0
}

/// Trading one more pair gives the next state.
proof fn lemma_pair_step(
    start: ActiveOrders,
    pairs: Seq<AuctionPair>,
    definition: InstrumentDefinition,
    first: int,
    price: crate::domain::Price,
    count: nat,
)
    requires
        pairs_tradable(start, pairs, price),
        count < pairs.len(),
    ensures
        traded(
            after_pairs(start, pairs, count),
            pair_trades(start, definition, first, price, pairs)[count as int],
        ) == Some(after_pairs(start, pairs, count + 1)),
{
    let pair = pairs[count as int];
    let buy = pair.buy_order_id;
    let sell = pair.sell_order_id;
    let before = after_pairs(start, pairs, count);
    let after = after_pairs(start, pairs, count + 1);
    assert(start.dom().contains(buy) && start.dom().contains(sell));
    assert(buy != sell);
    assert forall|id: OrderId| pairs_take(pairs, id, count + 1) == pairs_take(pairs, id, count)
        + pair_takes(pair, id) by {}
    lemma_take_monotone(pairs, buy, count + 1, pairs.len());
    lemma_take_monotone(pairs, sell, count + 1, pairs.len());
    lemma_take_monotone(pairs, buy, count, count + 1);
    lemma_take_monotone(pairs, sell, count, count + 1);
    assert(before.dom().contains(buy));
    assert(before.dom().contains(sell));
    let trade = pair_trades(start, definition, first, price, pairs)[count as int];
    let bought = reduced(
        before,
        buy,
        trade.buy_account_id,
        Side::Buy,
        price,
        pair.lots,
    );
    assert(bought is Some);
    assert(bought->0.dom().contains(sell));
    assert(bought->0[sell] == before[sell]);
    let sold = reduced(
        bought->0,
        sell,
        trade.sell_account_id,
        Side::Sell,
        price,
        pair.lots,
    );
    assert(sold is Some);
    assert(sold->0 =~= after);
}

/// Trade events move the orders pair by pair.
proof fn lemma_trades_projected(
    start: ActiveOrders,
    pairs: Seq<AuctionPair>,
    definition: InstrumentDefinition,
    first: int,
    price: crate::domain::Price,
    events: Seq<CallAuctionEvent>,
    count: nat,
)
    requires
        pairs_tradable(start, pairs, price),
        count <= pairs.len() <= events.len(),
        forall|k: int|
            0 <= k < pairs.len() ==> (#[trigger] events[k]).kind == CallAuctionEventKind::Trade(
                pair_trades(start, definition, first, price, pairs)[k],
            ),
    ensures
        uncross_projection(start, events, count) == Some(after_pairs(start, pairs, count)),
    decreases count,
{
    if count == 0 {
        assert forall|id: OrderId| #[trigger] start.dom().contains(id) implies pairs_take(
            pairs,
            id,
            0,
        ) == 0 && start[id].quantity.lots > 0 by {}
        assert(after_pairs(start, pairs, 0) =~= start);
    } else {
        let before = (count - 1) as nat;
        lemma_trades_projected(start, pairs, definition, first, price, events, before);
        lemma_pair_step(start, pairs, definition, first, price, before);
        assert(events[count - 1].kind == CallAuctionEventKind::Trade(
            pair_trades(start, definition, first, price, pairs)[count - 1],
        ));
    }
}

/// Trades numbered from `first` on are numbered.
proof fn lemma_trades_numbered(
    events: Seq<CallAuctionEvent>,
    first: int,
    trades: nat,
    count: nat,
)
    requires
        trades <= events.len(),
        count <= events.len(),
        first + trades <= u64::MAX,
        forall|k: int|
            0 <= k < trades ==> (#[trigger] events[k]).kind is Trade && trade_number(events[k])
                == first + k,
        forall|k: int| trades <= k < events.len() ==> !((#[trigger] events[k]).kind is Trade),
    ensures
        numbered_trades(events, first, count) == Some(
            if count < trades {
                first + count
            } else {
                first + trades
            },
        ),
    decreases count,
{
    if count > 0 {
        lemma_trades_numbered(events, first, trades, (count - 1) as nat);
        if count - 1 < trades {
            assert(events[count - 1].kind is Trade);
        } else {
            assert(!(events[count - 1].kind is Trade));
        }
    }
}

/// What a remainder cancellation says of its order.
pub(crate) open spec fn cancellation_of(
    active: ActiveOrders,
    fills: Seq<AuctionOrderFill>,
    cancellation: CallAuctionCancellation,
) -> bool {
    let id = cancellation.order_id;
    let executed = executed_lots(fills, id);
    &&& active.dom().contains(id)
    &&& cancellation.account_id == active[id].account_id
    &&& cancellation.side == active[id].side
    &&& cancellation.constraint == active[id].constraint
    &&& 0 <= executed < active[id].quantity.lots
    &&& cancellation.quantity == (Quantity { lots: (active[id].quantity.lots - executed) as u64 })
    &&& cancellation.executed_quantity_lots == executed
}

pub(crate) proof fn lemma_side_cancellation_fields(
    active: ActiveOrders,
    side: Side,
    list: Seq<AuctionOrder>,
    fills: Seq<AuctionOrderFill>,
    policy: CallAuctionRemainderPolicy,
    count: nat,
)
    requires
        canonical_side(active, side, list),
        fills_sound(list, fills),
        count <= list.len(),
    ensures
        ({
            let named = side_cancellations(active, list, fills, policy, count);
            forall|k: int|
                0 <= k < named.len() ==> cancellation_of(active, fills, #[trigger] named[k])
                    && named[k].side == side
        }),
    decreases count,
{
    let named = side_cancellations(active, list, fills, policy, count);
    if count > 0 {
        let before = (count - 1) as nat;
        lemma_side_cancellation_fields(active, side, list, fills, policy, before);
        let rest = side_cancellations(active, list, fills, policy, before);
        let order = list[count - 1];
        lemma_executed_listed(active, side, list, fills, order.order_id);
        assert(list[count - 1] == active[order.order_id].auction_order());
        assert forall|k: int| 0 <= k < named.len() implies cancellation_of(
            active,
            fills,
            #[trigger] named[k],
        ) && named[k].side == side by {
            if k < rest.len() {
                assert(named[k] == rest[k]);
            }
        }
    }
}

/// Active orders after the first `count` remainder cancellations.
spec fn after_cancellations(
    orders: ActiveOrders,
    named: Seq<CallAuctionCancellation>,
    count: nat,
) -> ActiveOrders
    decreases count,
{
    if count == 0 {
        orders
    } else {
        after_cancellations(orders, named, (count - 1) as nat).remove(named[count - 1].order_id)
    }
}

proof fn lemma_after_cancellations(
    orders: ActiveOrders,
    named: Seq<CallAuctionCancellation>,
    count: nat,
)
    requires
        count <= named.len(),
    ensures
        forall|id: OrderId| #[trigger]
            after_cancellations(orders, named, count).dom().contains(id) <==> orders.dom().contains(
                id,
            ) && !cancels_order(named.take(count as int), id),
        forall|id: OrderId| #[trigger]
            after_cancellations(orders, named, count).dom().contains(id) ==> after_cancellations(
                orders,
                named,
                count,
            )[id] == orders[id],
    decreases count,
{
    if count > 0 {
        let before = (count - 1) as nat;
        lemma_after_cancellations(orders, named, before);
        let fewer = named.take(before as int);
        let more = named.take(count as int);
        assert forall|id: OrderId| cancels_order(more, id) <==> cancels_order(fewer, id) || id
            == named[count - 1].order_id by {
            if cancels_order(more, id) {
                let k = choose|k: int| 0 <= k < more.len() && (#[trigger] more[k]).order_id == id;
                if k < before {
                    assert(fewer[k].order_id == id);
                }
            }
            if cancels_order(fewer, id) {
                let k = choose|k: int| 0 <= k < fewer.len() && (#[trigger] fewer[k]).order_id == id;
                assert(more[k].order_id == id);
            }
            assert(more[count - 1] == named[count - 1]);
        }
        let last = named[count - 1].order_id;
        let some = after_cancellations(orders, named, before);
        let rest = after_cancellations(orders, named, count);
        assert(rest == some.remove(last));
        assert forall|id: OrderId| #[trigger] rest.dom().contains(id) <==> orders.dom().contains(id)
            && !cancels_order(more, id) by {
            assert(rest.dom().contains(id) <==> some.dom().contains(id) && id != last);
        }
        assert forall|id: OrderId| #[trigger] rest.dom().contains(id) implies rest[id]
            == orders[id] by {
            assert(some.dom().contains(id));
        }
    }
}

/// Remainder events remove the named orders one by one.
proof fn lemma_remainders_projected(
    start: ActiveOrders,
    reduced_orders: ActiveOrders,
    named: Seq<CallAuctionCancellation>,
    events: Seq<CallAuctionEvent>,
    trades: nat,
    count: nat,
)
    requires
        count <= named.len(),
        trades + named.len() <= events.len(),
        uncross_projection(start, events, trades) == Some(reduced_orders),
        forall|k: int|
            0 <= k < named.len() ==> (#[trigger] events[trades + k]).kind
                == CallAuctionEventKind::RemainderCancelled(named[k]),
        forall|k: int|
            0 <= k < named.len() ==> {
                let id = (#[trigger] named[k]).order_id;
                &&& reduced_orders.dom().contains(id)
                &&& reduced_orders[id].account_id == named[k].account_id
                &&& reduced_orders[id].side == named[k].side
                &&& reduced_orders[id].constraint == named[k].constraint
                &&& reduced_orders[id].quantity == named[k].quantity
                &&& named[k].quantity.lots + named[k].executed_quantity_lots
                    == start[id].quantity.lots
            },
        forall|j: int, k: int|
            0 <= j < k < named.len() ==> (#[trigger] named[j]).order_id != (
            #[trigger] named[k]).order_id,
    ensures
        uncross_projection(start, events, (trades + count) as nat) == Some(
            after_cancellations(reduced_orders, named, count),
        ),
    decreases count,
{
    if count > 0 {
        let before = (count - 1) as nat;
        lemma_remainders_projected(start, reduced_orders, named, events, trades, before);
        lemma_after_cancellations(reduced_orders, named, before);
        let next = named[count - 1];
        let prefix = named.take(before as int);
        assert(!cancels_order(prefix, next.order_id)) by {
            if cancels_order(prefix, next.order_id) {
                let k = choose|k: int|
                    0 <= k < prefix.len() && (#[trigger] prefix[k]).order_id == next.order_id;
                assert(named[k].order_id != named[count - 1].order_id);
            }
        }
        assert(reduced_orders.dom().contains(next.order_id));
        let orders = after_cancellations(reduced_orders, named, before);
        assert(orders.dom().contains(next.order_id));
        assert(orders[next.order_id] == reduced_orders[next.order_id]);
        assert(events[(trades + before) as int].kind == CallAuctionEventKind::RemainderCancelled(next));
        assert(remainder_removed(start, orders, next) == Some(orders.remove(next.order_id)));
        assert((trades + count) as nat - 1 == trades + before);
    }
}

/// Listed cancellations remove the listed orders one by one.
proof fn lemma_cancels_projected(
    start: ActiveOrders,
    list: Seq<CallAuctionOrderSnapshot>,
    picked: Set<OrderId>,
    events: Seq<CallAuctionEvent>,
    count: nat,
)
    requires
        lists_orders(list, start, picked),
        forall|id: OrderId| #[trigger] picked.contains(id) ==> start.dom().contains(id),
        count <= list.len() <= events.len(),
        forall|k: int|
            0 <= k < list.len() ==> ((
            #[trigger] events[k]).kind matches CallAuctionEventKind::OrderCancelled { order, .. }
                && order == list[k]),
    ensures
        cancel_projection(start, events, count) is Some,
        forall|id: OrderId| #[trigger]
            cancel_projection(start, events, count)->0.dom().contains(id) <==> start.dom().contains(
                id,
            ) && !(exists|k: int| 0 <= k < count && (#[trigger] list[k]).order_id == id),
        forall|id: OrderId| #[trigger]
            cancel_projection(start, events, count)->0.dom().contains(id) ==> cancel_projection(
                start,
                events,
                count,
            )->0[id] == start[id],
    decreases count,
{
    if count > 0 {
        let before = (count - 1) as nat;
        lemma_cancels_projected(start, list, picked, events, before);
        let orders = cancel_projection(start, events, before)->0;
        let order = list[count - 1];
        assert(picked.contains(list[count - 1].order_id));
        assert(events[count - 1].kind->OrderCancelled_order == order);
        assert(!(exists|k: int| 0 <= k < before && (#[trigger] list[k]).order_id == order.order_id))
            by {
            if exists|k: int| 0 <= k < before && (#[trigger] list[k]).order_id == order.order_id {
                let k = choose|k: int|
                    0 <= k < before && (#[trigger] list[k]).order_id == order.order_id;
                assert(list[k].order_id.value < list[count - 1].order_id.value);
            }
        }
        assert(orders.dom().contains(order.order_id));
        let next = cancel_projection(start, events, count)->0;
        assert(next == orders.remove(order.order_id));
        assert forall|id: OrderId| #[trigger] next.dom().contains(id) <==> start.dom().contains(id)
            && !(exists|k: int| 0 <= k < count && (#[trigger] list[k]).order_id == id) by {
            if exists|k: int| 0 <= k < before && (#[trigger] list[k]).order_id == id {
                let k = choose|k: int| 0 <= k < before && (#[trigger] list[k]).order_id == id;
                assert(list[k].order_id == id);
            }
            if exists|k: int| 0 <= k < count && (#[trigger] list[k]).order_id == id {
                let k = choose|k: int| 0 <= k < count && (#[trigger] list[k]).order_id == id;
                if k < before {
                    assert(list[k].order_id == id);
                }
            }
            if id == order.order_id {
                assert(list[count - 1].order_id == id);
            }
        }
    }
}

impl CallAuctionEngine {
    /// Collection state of the live engine.
    pub open spec fn direct_state(&self) -> ProjectedState {
        ProjectedState {
            orders: self.book.active(),
            accepted: self.book.accepted(),
            next_priority_sequence: self.book.next_priority_sequence as int,
            next_trade_id: self.book.next_trade_id as int,
            book_revision: self.book.state_revision as int,
        }
    }

    /// Every pair of a prepared uncross can trade.
    proof fn lemma_prepared_tradable(
        &self,
        command: CallAuctionUncrossCommand,
        action: PreparedCallAuctionAction,
    )
        requires
            self.wf(),
            self.action_matches(CallAuctionCommand::Uncross(command), action),
            action is Uncross,
        ensures
            ({
                let plan = action->Uncross_prepared.buffers.plan;
                &&& pairs_tradable(
                    self.book.active(),
                    fill_pairs(plan.buy_fills@, plan.sell_fills@),
                    plan.clearing.price,
                )
                &&& forall|id: OrderId|
                    #[trigger] plan_executed(plan, id) == pairs_take(
                        fill_pairs(plan.buy_fills@, plan.sell_fills@),
                        id,
                        fill_pairs(plan.buy_fills@, plan.sell_fills@).len(),
                    )
            }),
    {
        let prepared = action->Uncross_prepared;
        let plan = prepared.buffers.plan;
        let active = self.book.active();
        let buys = plan.buy_fills@;
        let sells = plan.sell_fills@;
        let pairs = fill_pairs(buys, sells);
        let allocation = command.uncross_policy.allocation;
        let buy_list = side_orders(active, Side::Buy);
        let sell_list = side_orders(active, Side::Sell);
        self.book.lemma_sides_listed();
        self.book.lemma_fills_eligible(Side::Buy, plan.clearing, allocation);
        self.book.lemma_fills_eligible(Side::Sell, plan.clearing, allocation);
        law_pairs_reconcile(buys, sells);
        assert forall|k: int| 0 <= k < pairs.len() implies {
            let pair = #[trigger] pairs[k];
            &&& pair.lots > 0
            &&& active.dom().contains(pair.buy_order_id)
            &&& active[pair.buy_order_id].side == Side::Buy
            &&& price_eligible(
                Side::Buy,
                active[pair.buy_order_id].constraint,
                plan.clearing.price,
            )
            &&& active.dom().contains(pair.sell_order_id)
            &&& active[pair.sell_order_id].side == Side::Sell
            &&& price_eligible(
                Side::Sell,
                active[pair.sell_order_id].constraint,
                plan.clearing.price,
            )
        } by {
            assert(fills_order(buys, pairs[k].buy_order_id));
            assert(fills_order(sells, pairs[k].sell_order_id));
            let i = choose|i: int|
                0 <= i < buys.len() && (#[trigger] buys[i]).order_id == pairs[k].buy_order_id;
            let j = choose|j: int|
                0 <= j < sells.len() && (#[trigger] sells[j]).order_id == pairs[k].sell_order_id;
            lemma_executed_fill(active, Side::Buy, buy_list, buys, i);
            lemma_executed_fill(active, Side::Sell, sell_list, sells, j);
            assert(eligible(
                active[buys[i].order_id].auction_order(),
                Side::Buy,
                plan.clearing.price,
            ));
            assert(eligible(
                active[sells[j].order_id].auction_order(),
                Side::Sell,
                plan.clearing.price,
            ));
        }
        assert forall|id: OrderId| #[trigger] plan_executed(plan, id) == pairs_take(
            pairs,
            id,
            pairs.len(),
        ) by {
            law_pairs_execute_fills(buys, sells, id);
        }
        assert forall|id: OrderId| #[trigger] active.dom().contains(id) implies 0 <= pairs_take(
            pairs,
            id,
            pairs.len(),
        ) <= active[id].quantity.lots && active[id].quantity.lots > 0 by {
            assert(self.book.order_ok(id));
            law_pairs_execute_fills(buys, sells, id);
            lemma_executed_listed(active, Side::Buy, buy_list, buys, id);
            lemma_executed_listed(active, Side::Sell, sell_list, sells, id);
        }
    }

    /// The events of a prepared uncross project to what its commit leaves.
    proof fn lemma_uncross_projected(
        &self,
        command: CallAuctionUncrossCommand,
        action: PreparedCallAuctionAction,
        events: Seq<CallAuctionEvent>,
    )
        requires
            self.wf(),
            self.action_matches(CallAuctionCommand::Uncross(command), action),
            action is Uncross,
            events == bound_events(
                self.action_kinds(action),
                CallAuctionCommand::Uncross(command),
                self.next_event_sequence as int,
            ),
        ensures
            ({
                let prepared = action->Uncross_prepared;
                &&& numbered_trades(events, self.book.next_trade_id as int, events.len()) == Some(
                    prepared.next_trade_id as int,
                )
                &&& uncross_projection(
                    self.book.active(),
                    events,
                    (events.len() - 1) as nat,
                ) == Some(
                    uncrossed(
                        self.book.active(),
                        prepared.buffers.plan,
                        prepared.policy.remainder,
                    ),
                )
            }),
    {
        let prepared = action->Uncross_prepared;
        let plan = prepared.buffers.plan;
        let active = self.book.active();
        let first = self.book.next_trade_id as int;
        let price = plan.clearing.price;
        let pairs = fill_pairs(plan.buy_fills@, plan.sell_fills@);
        let trades = prepared.buffers.trades@;
        let named = prepared.buffers.cancellations@;
        let kinds = self.action_kinds(action);
        let policy = prepared.policy.remainder;
        let buys = side_orders(active, Side::Buy);
        let sells = side_orders(active, Side::Sell);
        self.lemma_prepared_tradable(command, action);
        self.book.lemma_sides_listed();
        assert(kinds.len() == trades.len() + named.len() + 1);
        assert(trades == pair_trades(active, self.book.definition, first, price, pairs));
        assert forall|k: int| 0 <= k < pairs.len() implies (#[trigger] events[k]).kind
            == CallAuctionEventKind::Trade(
            pair_trades(active, self.book.definition, first, price, pairs)[k],
        ) by {
            assert(kinds[k] == CallAuctionEventKind::Trade(trades[k]));
        }
        assert forall|k: int| 0 <= k < named.len() implies (#[trigger] events[pairs.len() + k]).kind
            == CallAuctionEventKind::RemainderCancelled(named[k]) by {
            assert(kinds[pairs.len() + k] == CallAuctionEventKind::RemainderCancelled(named[k]));
        }
        assert forall|k: int| pairs.len() <= k < events.len() implies !((
        #[trigger] events[k]).kind is Trade) by {
            if k < events.len() - 1 {
                assert(kinds[k] == CallAuctionEventKind::RemainderCancelled(
                    named[k - pairs.len()],
                ));
            } else {
                assert(kinds[k] == kinds.last());
            }
        }
        assert forall|k: int| 0 <= k < pairs.len() implies (#[trigger] events[k]).kind is Trade
            && trade_number(events[k]) == first + k by {
            assert(trades[k].trade_id.value == first + k);
        }
        lemma_trades_numbered(events, first, pairs.len(), events.len());
        lemma_trades_projected(
            active,
            pairs,
            self.book.definition,
            first,
            price,
            events,
            pairs.len(),
        );
        let left = after_pairs(active, pairs, pairs.len());
        lemma_plan_cancellations(active, plan, policy);
        lemma_side_cancellation_fields(
            active,
            Side::Buy,
            buys,
            plan.buy_fills@,
            policy,
            buys.len(),
        );
        lemma_side_cancellation_fields(
            active,
            Side::Sell,
            sells,
            plan.sell_fills@,
            policy,
            sells.len(),
        );
        let buy_named = side_cancellations(active, buys, plan.buy_fills@, policy, buys.len());
        let sell_named = side_cancellations(active, sells, plan.sell_fills@, policy, sells.len());
        assert(named == buy_named + sell_named);
        assert forall|k: int| 0 <= k < named.len() implies {
            let id = (#[trigger] named[k]).order_id;
            &&& left.dom().contains(id)
            &&& left[id].account_id == named[k].account_id
            &&& left[id].side == named[k].side
            &&& left[id].constraint == named[k].constraint
            &&& left[id].quantity == named[k].quantity
            &&& named[k].quantity.lots + named[k].executed_quantity_lots
                == active[id].quantity.lots
        } by {
            let id = named[k].order_id;
            if k < buy_named.len() {
                assert(named[k] == buy_named[k]);
                assert(cancellation_of(active, plan.buy_fills@, buy_named[k]));
            } else {
                assert(named[k] == sell_named[k - buy_named.len()]);
                assert(cancellation_of(
                    active,
                    plan.sell_fills@,
                    sell_named[k - buy_named.len()],
                ));
            }
            lemma_executed_listed(active, Side::Buy, buys, plan.buy_fills@, id);
            lemma_executed_listed(active, Side::Sell, sells, plan.sell_fills@, id);
            assert(plan_executed(plan, id) == pairs_take(pairs, id, pairs.len()));
        }
        lemma_remainders_projected(active, left, named, events, pairs.len(), named.len());
        lemma_after_cancellations(left, named, named.len());
        assert(named.take(named.len() as int) =~= named);
        let rest = after_cancellations(left, named, named.len());
        let goal = uncrossed(active, plan, policy);
        assert forall|id: OrderId| #[trigger] rest.dom().contains(id) <==> goal.dom().contains(
            id,
        ) by {
            assert(plan_executed(plan, id) == pairs_take(pairs, id, pairs.len()));
            assert(cancels_order(named, id) <==> active.dom().contains(id) && plan_executed(plan, id)
                < active[id].quantity.lots && policy.drops(active[id].constraint));
        }
        assert forall|id: OrderId| #[trigger] rest.dom().contains(id) implies rest[id]
            == goal[id] by {
            assert(plan_executed(plan, id) == pairs_take(pairs, id, pairs.len()));
        }
        assert(rest =~= goal);
        assert((events.len() - 1) as nat == (pairs.len() + named.len()) as nat);
    }

    /// The events of a sequenced command move the projection to the new state.
    pub(crate) proof fn lemma_step_projected(
        &self,
        exit: &Self,
        command: CallAuctionCommand,
        action: PreparedCallAuctionAction,
        entry: CallAuctionCommandReportCheckpoint,
    )
        requires
            self.wf(),
            self.gate_matches(command, action),
            exit.effects_from(self, action),
            entry.command == command,
            entry.report.outcome == action.outcome(),
            entry.report.events@ == bound_events(
                self.action_kinds(action),
                command,
                self.next_event_sequence as int,
            ),
        ensures
            self.direct_state().step(self.book.definition, entry) == Some(exit.direct_state()),
    {
        let events = entry.report.events@;
        let state = self.direct_state();
        let first = self.book.next_trade_id as int;
        if !(action is Uncross) {
            assert forall|k: int| 0 <= k < events.len() implies !((
            #[trigger] events[k]).kind is Trade) by {
                assert(events[k].kind == self.action_kinds(action)[k]);
            }
            lemma_trades_numbered(events, first, 0, events.len());
        }
        if !(action is Rejected) {
            match command {
                CallAuctionCommand::Uncross(uncross) => {
                    self.lemma_uncross_projected(uncross, action, events);
                    assert(events.last().kind == self.action_kinds(action).last());
                },
                CallAuctionCommand::MassCancel(cancel) => {
                    let account = cancel.account_id;
                    let scope = cancel.scope;
                    let list = self.book.selected_orders(account, scope);
                    let picked = self.book.selected(account, scope);
                    let kinds = self.action_kinds(action);
                    self.book.lemma_selected_listed(account, scope);
                    self.book.law_selection_totals(account, scope, list);
                    assert(events.len() == list.len() + 1);
                    assert forall|k: int| 0 <= k < list.len() implies ((
                    #[trigger] events[k]).kind matches CallAuctionEventKind::OrderCancelled {
                        order,
                        ..
                    } && order == list[k]) by {
                        assert(events[k].kind == kinds[k]);
                    }
                    lemma_cancels_projected(state.orders, list, picked, events, list.len());
                    let left = cancel_projection(state.orders, events, list.len())->0;
                    let goal = state.orders.remove_keys(picked);
                    assert forall|id: OrderId| #[trigger] left.dom().contains(id)
                        <==> goal.dom().contains(id) by {
                        if picked.contains(id) {
                            let k = choose|k: int|
                                0 <= k < list.len() && (#[trigger] list[k]).order_id == id;
                            assert(list[k].order_id == id);
                        }
                        if exists|k: int|
                            0 <= k < list.len() && (#[trigger] list[k]).order_id == id {
                            let k = choose|k: int|
                                0 <= k < list.len() && (#[trigger] list[k]).order_id == id;
                            assert(picked.contains(list[k].order_id));
                        }
                    }
                    assert(left =~= goal);
                    if list.len() == 0 {
                        assert(picked =~= Set::<OrderId>::empty()) by {
                            assert forall|id: OrderId| !picked.contains(id) by {
                                if picked.contains(id) {
                                    let k = choose|k: int|
                                        0 <= k < list.len() && (#[trigger] list[k]).order_id == id;
                                }
                            }
                        }
                        assert(goal =~= state.orders);
                    }
                    assert(events.last().kind == kinds.last());
                },
                CallAuctionCommand::Cancel(cancel) => {
                    assert(self.book.order_ok(cancel.order_id));
                },
                CallAuctionCommand::Amend(amend) => {
                    assert(self.book.order_ok(amend.order_id));
                },
                CallAuctionCommand::Replace(replace) => {
                    assert(self.book.order_ok(replace.target_order_id));
                    let fresh = replace.replacement.order_id;
                    assert(!self.book.active().dom().contains(fresh)) by {
                        if self.book.active().dom().contains(fresh) {
                            assert(self.book.order_ok(fresh));
                        }
                    }
                },
                CallAuctionCommand::Submit(submit) => {
                    let fresh = submit.order.order_id;
                    assert(!self.book.active().dom().contains(fresh)) by {
                        if self.book.active().dom().contains(fresh) {
                            assert(self.book.order_ok(fresh));
                        }
                    }
                },
                _ => {},
            }
        }
    }

    /// Whatever a command leads to, live collection state that is what the
    /// history adds up to stays so.
    pub proof fn law_command_keeps_projection(
        old: &Self,
        new: &Self,
        command: CallAuctionCommand,
        action: PreparedCallAuctionAction,
        report: CallAuctionExecutionReport,
    )
        requires
            old.wf(),
            old.projection_ok(),
            old.gate_matches(command, action),
            new.settles_from(old, command, action, report),
        ensures
            new.projection_ok(),
    {
        let before = old.history@;
        let after = new.history@;
        let entry = after.last();
        assert forall|i: int| 0 <= i < before.len() implies #[trigger] before[i] == after[i] by {
            assert(after.drop_last()[i] == after[i]);
        }
        lemma_projection_prefix(before, after, old.book.definition, before.len());
        assert(after[before.len() as int] == entry);
        old.lemma_step_projected(new, command, action, entry);
    }

    /// A fresh engine is what its empty history adds up to.
    pub proof fn law_new_engine_is_projected(&self)
        requires
            self.wf(),
            self.is_new(),
        ensures
            self.projection_ok(),
    {
    }
}

proof fn lemma_projection_prefix(
    shorter: Seq<CallAuctionCommandReportCheckpoint>,
    longer: Seq<CallAuctionCommandReportCheckpoint>,
    definition: InstrumentDefinition,
    count: nat,
)
    requires
        count <= shorter.len() <= longer.len(),
        forall|i: int| 0 <= i < shorter.len() ==> #[trigger] shorter[i] == longer[i],
    ensures
        projected(shorter, definition, count) == projected(longer, definition, count),
    decreases count,
{
    if count > 0 {
        lemma_projection_prefix(shorter, longer, definition, (count - 1) as nat);
        assert(shorter[count - 1] == longer[count - 1]);
    }
}

} // verus!
