//! A publisher that mirrors an engine follows it: every report of the engine
//! publishes, and the publisher mirrors the engine afterwards.

use vstd::prelude::*;

use crate::auction::AuctionOrderConstraint;
use crate::auction_engine::{bound_events, CallAuctionEngine, PreparedCallAuctionAction};
use crate::book_agreement::lemma_sum_permuted;
use crate::book_interest::ActiveOrders;
use crate::book_lemmas::lemma_queue_spells;
use crate::book_state::{in_queue, leaves, queue_ids, queue_ok, CallAuctionBook};
use crate::book_types::CallAuctionOrderSnapshot;
use crate::chain::{
    lemma_sum_bounds, lemma_sum_frame, lemma_sum_push, lemma_sum_remove, lemma_sum_update,
    member_sum,
};
use crate::domain::{OrderId, Price, Quantity, Side};
use crate::engine_grammar::{
    cancelled_lots, cancelled_number, mass_cancel_grammar, report_grammar, traded_lots,
    uncross_grammar,
};
use crate::engine_projection::{cancel_projection, numbered_trades, traded, uncross_projection};
use crate::engine_types::{
    CallAuctionCommand, CallAuctionCommandOutcome, CallAuctionCommandReportCheckpoint,
    CallAuctionEvent, CallAuctionEventKind, CallAuctionExecutionReport, CallAuctionMassCancel,
    CallAuctionPhase, CallAuctionUncrossCommand,
};
use crate::market_data_publication::{
    book_orders, book_public, lemma_queue_shaped, queue_aggregate, report_bound,
    source_limits_fault, trade_before,
};
use crate::market_data_publisher::CallAuctionMarketDataPublisher;
use crate::market_data_state::{Aggregate, CycleTrace, PublicBook};
use crate::market_data_types::{
    CallAuctionMarketDataBatch, CallAuctionMarketDataError, CallAuctionMarketDataLimits,
};
use crate::publisher_model::{
    aggregate_less, aggregate_plus, mass_start, uncross_start, MassCancelProgress, PublisherState,
    TrackedOrder, UncrossProgress,
};

verus! {

/// Whether an order rests on one side at one constraint.
pub open spec fn rests_at(
    orders: ActiveOrders,
    id: OrderId,
    side: Side,
    constraint: AuctionOrderConstraint,
) -> bool {
    orders.dom().contains(id) && orders[id].side == side && orders[id].constraint == constraint
}

/// Lots of every order.
pub open spec fn order_lots(orders: ActiveOrders) -> Map<OrderId, int> {
    orders.map_values(|order: CallAuctionOrderSnapshot| order.quantity.lots as int)
}

/// A list names exactly the orders of one side and constraint, and an
/// aggregate counts and sums them.
pub open spec fn aggregate_spells(
    orders: ActiveOrders,
    side: Side,
    constraint: AuctionOrderConstraint,
    aggregate: Aggregate,
    ids: Seq<OrderId>,
) -> bool {
    &&& forall|i: int, j: int| 0 <= i < j < ids.len() ==> #[trigger] ids[i] != #[trigger] ids[j]
    &&& forall|id: OrderId| #[trigger] ids.contains(id) <==> rests_at(orders, id, side, constraint)
    &&& aggregate.order_count == ids.len()
    &&& aggregate.quantity == member_sum(order_lots(orders), ids)
}

/// An aggregate counts and sums the orders of one side and constraint.
pub open spec fn aggregates(
    orders: ActiveOrders,
    side: Side,
    constraint: AuctionOrderConstraint,
    aggregate: Aggregate,
) -> bool {
    exists|ids: Seq<OrderId>| #[trigger]
        aggregate_spells(orders, side, constraint, aggregate, ids)
}

/// A public book aggregates active orders and lists no empty level.
pub open spec fn shows(orders: ActiveOrders, book: PublicBook) -> bool {
    &&& forall|side: Side, constraint: AuctionOrderConstraint|
        aggregates(orders, side, constraint, #[trigger] book.at(side, constraint))
    &&& forall|price: Price| #[trigger]
        book.bids.dom().contains(price) ==> book.bids[price].order_count > 0
    &&& forall|price: Price| #[trigger]
        book.asks.dom().contains(price) ==> book.asks[price].order_count > 0
    &&& forall|id: OrderId| #[trigger]
        orders.dom().contains(id) ==> orders[id].quantity.lots > 0
}

/// Active orders aggregate in one way only.
pub proof fn law_public_book_unique(orders: ActiveOrders, left: PublicBook, right: PublicBook)
    requires
        shows(orders, left),
        shows(orders, right),
    ensures
        left == right,
{
    assert forall|side: Side, constraint: AuctionOrderConstraint| #[trigger]
        left.at(side, constraint) == right.at(side, constraint) by {
        let one = left.at(side, constraint);
        let two = right.at(side, constraint);
        assert(aggregates(orders, side, constraint, one));
        assert(aggregates(orders, side, constraint, two));
        let a = choose|ids: Seq<OrderId>| #[trigger]
            aggregate_spells(orders, side, constraint, one, ids);
        let b = choose|ids: Seq<OrderId>| #[trigger]
            aggregate_spells(orders, side, constraint, two, ids);
        assert forall|id: OrderId| a.contains(id) <==> b.contains(id) by {
            assert(a.contains(id) <==> rests_at(orders, id, side, constraint));
            assert(b.contains(id) <==> rests_at(orders, id, side, constraint));
        }
        lemma_sum_permuted(order_lots(orders), order_lots(orders), a, b);
    }
    assert forall|price: Price| left.bids.dom().contains(price) <==> right.bids.dom().contains(
        price,
    ) by {
        let constraint = AuctionOrderConstraint::Limit(price);
        assert(left.at(Side::Buy, constraint) == right.at(Side::Buy, constraint));
    }
    assert forall|price: Price| left.bids.dom().contains(price) implies left.bids[price]
        == right.bids[price] by {
        let constraint = AuctionOrderConstraint::Limit(price);
        assert(left.at(Side::Buy, constraint) == right.at(Side::Buy, constraint));
    }
    assert(left.bids =~= right.bids);
    assert forall|price: Price| left.asks.dom().contains(price) <==> right.asks.dom().contains(
        price,
    ) by {
        let constraint = AuctionOrderConstraint::Limit(price);
        assert(left.at(Side::Sell, constraint) == right.at(Side::Sell, constraint));
    }
    assert forall|price: Price| left.asks.dom().contains(price) implies left.asks[price]
        == right.asks[price] by {
        let constraint = AuctionOrderConstraint::Limit(price);
        assert(left.at(Side::Sell, constraint) == right.at(Side::Sell, constraint));
    }
    assert(left.asks =~= right.asks);
    assert(left.at(Side::Buy, AuctionOrderConstraint::Market) == right.at(
        Side::Buy,
        AuctionOrderConstraint::Market,
    ));
    assert(left.at(Side::Sell, AuctionOrderConstraint::Market) == right.at(
        Side::Sell,
        AuctionOrderConstraint::Market,
    ));
}

/// The public interest of a collection book aggregates its active orders.
pub proof fn law_book_shows_orders(book: &CallAuctionBook)
    requires
        book.wf(),
    ensures
        shows(book.active(), book_public(book)),
{
    let orders = book.active();
    let public = book_public(book);
    assert forall|side: Side, constraint: AuctionOrderConstraint| aggregates(
        orders,
        side,
        constraint,
        #[trigger] public.at(side, constraint),
    ) by {
        let queue = book.queue_of(side, constraint);
        let ids = queue_ids(book.orders@, queue);
        assert(queue_ok(book.orders@, queue, side, constraint));
        lemma_queue_spells(book.orders@, queue, side, constraint);
        assert(public.at(side, constraint) == queue_aggregate(queue));
        assert forall|id: OrderId| #[trigger] ids.contains(id) <==> rests_at(
            orders,
            id,
            side,
            constraint,
        ) by {
            if ids.contains(id) {
                let i = choose|i: int| 0 <= i < ids.len() && ids[i] == id;
                assert(in_queue(book.orders@, ids[i], side, constraint));
            }
            if rests_at(orders, id, side, constraint) {
                assert(in_queue(book.orders@, id, side, constraint));
            }
        }
        assert forall|i: int| 0 <= i < ids.len() implies order_lots(orders).dom().contains(
            #[trigger] ids[i],
        ) && leaves(book.orders@).dom().contains(ids[i]) && order_lots(orders)[ids[i]] == leaves(
            book.orders@,
        )[ids[i]] by {
            assert(in_queue(book.orders@, ids[i], side, constraint));
        }
        lemma_sum_frame(leaves(book.orders@), order_lots(orders), ids);
        assert(aggregate_spells(orders, side, constraint, public.at(side, constraint), ids));
    }
    assert forall|price: Price| #[trigger] public.bids.dom().contains(
        price,
    ) implies public.bids[price].order_count > 0 by {
        assert(book.bids@.dom().contains(price));
    }
    assert forall|price: Price| #[trigger] public.asks.dom().contains(
        price,
    ) implies public.asks[price].order_count > 0 by {
        assert(book.asks@.dom().contains(price));
    }
    assert forall|id: OrderId| #[trigger]
        orders.dom().contains(id) implies orders[id].quantity.lots > 0 by {
        assert(book.orders@.dom().contains(id));
        assert(book.order_ok(id));
    }
}

/// Active orders after one of them lost some lots.
pub open spec fn orders_less(orders: ActiveOrders, id: OrderId, lots: u64) -> ActiveOrders {
    if lots == orders[id].quantity.lots {
        orders.remove(id)
    } else {
        orders.insert(
            id,
            CallAuctionOrderSnapshot {
                quantity: Quantity { lots: (orders[id].quantity.lots - lots) as u64 },
                ..orders[id]
            },
        )
    }
}

/// Interest that one order loses lots of still aggregates.
proof fn lemma_aggregate_less(orders: ActiveOrders, aggregate: Aggregate, id: OrderId, lots: u64)
    requires
        orders.dom().contains(id),
        0 < lots <= orders[id].quantity.lots,
        forall|other: OrderId| #[trigger]
            orders.dom().contains(other) ==> orders[other].quantity.lots > 0,
        aggregates(orders, orders[id].side, orders[id].constraint, aggregate),
    ensures
        ({
            let removes = lots == orders[id].quantity.lots;
            let next = aggregate_less(aggregate, lots, removes);
            &&& orders[id].quantity.lots <= aggregate.quantity
            &&& aggregate.order_count > 0
            &&& next.shaped()
            &&& aggregates(
                orders_less(orders, id, lots),
                orders[id].side,
                orders[id].constraint,
                next,
            )
        }),
{
    let side = orders[id].side;
    let constraint = orders[id].constraint;
    let removes = lots == orders[id].quantity.lots;
    let next = aggregate_less(aggregate, lots, removes);
    let after = orders_less(orders, id, lots);
    let ids = choose|ids: Seq<OrderId>| #[trigger]
        aggregate_spells(orders, side, constraint, aggregate, ids);
    let before_lots = order_lots(orders);
    let after_lots = order_lots(after);
    assert(rests_at(orders, id, side, constraint));
    assert(ids.contains(id));
    let index = choose|i: int| 0 <= i < ids.len() && ids[i] == id;
    assert forall|i: int| 0 <= i < ids.len() implies before_lots.dom().contains(#[trigger] ids[i])
        && before_lots[ids[i]] > 0 && orders.dom().contains(ids[i]) by {
        assert(ids.contains(ids[i]));
    }
    lemma_sum_bounds(before_lots, ids, index);
    if removes {
        let rest = ids.remove(index);
        lemma_sum_remove(before_lots, ids, index);
        assert forall|i: int| 0 <= i < rest.len() implies rest[i] != id && orders.dom().contains(
            #[trigger] rest[i],
        ) && before_lots[rest[i]] > 0 by {
            let k = if i < index {
                i
            } else {
                i + 1
            };
            assert(rest[i] == ids[k]);
            if k < index {
                assert(ids[k] != ids[index]);
            } else {
                assert(ids[index] != ids[k]);
            }
        }
        assert forall|i: int| 0 <= i < rest.len() implies after_lots.dom().contains(
            #[trigger] rest[i],
        ) && before_lots.dom().contains(rest[i]) && after_lots[rest[i]]
            == before_lots[rest[i]] by {}
        lemma_sum_frame(before_lots, after_lots, rest);
        assert forall|i: int, j: int| 0 <= i < j < rest.len() implies #[trigger] rest[i]
            != #[trigger] rest[j] by {
            let a = if i < index {
                i
            } else {
                i + 1
            };
            let b = if j < index {
                j
            } else {
                j + 1
            };
            assert(ids[a] != ids[b]);
        }
        assert forall|other: OrderId| #[trigger] rest.contains(other) <==> rests_at(
            after,
            other,
            side,
            constraint,
        ) by {
            if rest.contains(other) {
                let i = choose|i: int| 0 <= i < rest.len() && rest[i] == other;
                let k = if i < index {
                    i
                } else {
                    i + 1
                };
                assert(ids[k] == other);
                assert(ids.contains(other));
                assert(rest[i] != id);
            }
            if rests_at(after, other, side, constraint) {
                assert(rests_at(orders, other, side, constraint));
                assert(ids.contains(other));
                let k = choose|k: int| 0 <= k < ids.len() && ids[k] == other;
                if k < index {
                    assert(rest[k] == other);
                } else {
                    assert(rest[k - 1] == other);
                }
            }
        }
        if rest.len() > 0 {
            assert forall|i: int| 0 <= i < rest.len() implies after_lots.dom().contains(
                #[trigger] rest[i],
            ) && after_lots[rest[i]] > 0 by {}
            lemma_sum_bounds(after_lots, rest, 0);
        }
        assert(aggregate_spells(after, side, constraint, next, rest));
    } else {
        assert forall|i: int| 0 <= i < ids.len() && i != index implies after_lots[
        #[trigger] ids[i]] == before_lots[ids[i]] by {
            if i < index {
                assert(ids[i] != ids[index]);
            } else {
                assert(ids[index] != ids[i]);
            }
        }
        lemma_sum_update(before_lots, after_lots, ids, index);
        assert forall|other: OrderId| #[trigger] ids.contains(other) <==> rests_at(
            after,
            other,
            side,
            constraint,
        ) by {
            assert(ids.contains(other) <==> rests_at(orders, other, side, constraint));
        }
        assert forall|i: int| 0 <= i < ids.len() implies after_lots.dom().contains(
            #[trigger] ids[i],
        ) && after_lots[ids[i]] > 0 by {
            assert(orders.dom().contains(ids[i]));
        }
        lemma_sum_bounds(after_lots, ids, index);
        assert(aggregate_spells(after, side, constraint, next, ids));
    }
}

/// Interest of another side or constraint does not see the change of an order.
proof fn lemma_aggregate_frame(
    before: ActiveOrders,
    after: ActiveOrders,
    side: Side,
    constraint: AuctionOrderConstraint,
    aggregate: Aggregate,
)
    requires
        aggregates(before, side, constraint, aggregate),
        forall|id: OrderId|
            rests_at(before, id, side, constraint) <==> #[trigger] rests_at(
                after,
                id,
                side,
                constraint,
            ),
        forall|id: OrderId| #[trigger]
            rests_at(before, id, side, constraint) ==> after[id].quantity == before[id].quantity,
    ensures
        aggregates(after, side, constraint, aggregate),
{
    let ids = choose|ids: Seq<OrderId>| #[trigger]
        aggregate_spells(before, side, constraint, aggregate, ids);
    assert forall|i: int| 0 <= i < ids.len() implies order_lots(before).dom().contains(
        #[trigger] ids[i],
    ) && order_lots(after).dom().contains(ids[i]) && order_lots(after)[ids[i]] == order_lots(
        before,
    )[ids[i]] by {
        assert(ids.contains(ids[i]));
        assert(rests_at(before, ids[i], side, constraint));
        assert(rests_at(after, ids[i], side, constraint));
    }
    lemma_sum_frame(order_lots(before), order_lots(after), ids);
    assert forall|id: OrderId| #[trigger] ids.contains(id) <==> rests_at(
        after,
        id,
        side,
        constraint,
    ) by {
        assert(ids.contains(id) <==> rests_at(before, id, side, constraint));
    }
    assert(aggregate_spells(after, side, constraint, aggregate, ids));
}

/// Setting the interest of one side and constraint changes no other.
proof fn lemma_with_at(
    book: PublicBook,
    side: Side,
    constraint: AuctionOrderConstraint,
    aggregate: Aggregate,
    other_side: Side,
    other_constraint: AuctionOrderConstraint,
)
    ensures
        book.with(side, constraint, aggregate).at(other_side, other_constraint) == (if other_side
            == side && other_constraint == constraint {
            aggregate
        } else {
            book.at(other_side, other_constraint)
        }),
{
}

/// A public book shows the orders that are left when one of them loses lots.
proof fn lemma_shows_less(orders: ActiveOrders, book: PublicBook, id: OrderId, lots: u64)
    requires
        shows(orders, book),
        orders.dom().contains(id),
        0 < lots <= orders[id].quantity.lots,
    ensures
        ({
            let side = orders[id].side;
            let constraint = orders[id].constraint;
            let aggregate = book.at(side, constraint);
            let next = aggregate_less(aggregate, lots, lots == orders[id].quantity.lots);
            &&& lots <= aggregate.quantity
            &&& aggregate.order_count > 0
            &&& next.shaped()
            &&& forall|maximum: usize| #[trigger] book.room(side, constraint, next, maximum)
            &&& shows(orders_less(orders, id, lots), book.with(side, constraint, next))
        }),
{
    let side = orders[id].side;
    let constraint = orders[id].constraint;
    let aggregate = book.at(side, constraint);
    let next = aggregate_less(aggregate, lots, lots == orders[id].quantity.lots);
    let after = orders_less(orders, id, lots);
    let public = book.with(side, constraint, next);
    lemma_aggregate_less(orders, aggregate, id, lots);
    assert forall|s: Side, c: AuctionOrderConstraint| aggregates(
        after,
        s,
        c,
        #[trigger] public.at(s, c),
    ) by {
        lemma_with_at(book, side, constraint, next, s, c);
        assert(aggregates(orders, s, c, book.at(s, c)));
        if s != side || c != constraint {
            assert forall|other: OrderId|
                rests_at(orders, other, s, c) <==> #[trigger] rests_at(after, other, s, c) by {}
            lemma_aggregate_frame(orders, after, s, c, book.at(s, c));
        }
    }
    assert(next == Aggregate::none() || next.order_count > 0);
}

/// A public book shows the orders with one more, if any public book does.
proof fn lemma_shows_more(
    orders: ActiveOrders,
    book: PublicBook,
    order: CallAuctionOrderSnapshot,
    goal: PublicBook,
    maximum: usize,
)
    requires
        shows(orders, book),
        !orders.dom().contains(order.order_id),
        order.quantity.lots > 0,
        shows(orders.insert(order.order_id, order), goal),
        goal.depth(order.side).dom().finite(),
        goal.depth(order.side).len() <= maximum,
    ensures
        ({
            let aggregate = book.at(order.side, order.constraint);
            let next = aggregate_plus(aggregate, order.quantity.lots);
            &&& aggregate.quantity + order.quantity.lots <= u128::MAX
            &&& aggregate.order_count < u64::MAX
            &&& next.shaped()
            &&& book.room(order.side, order.constraint, next, maximum)
            &&& shows(
                orders.insert(order.order_id, order),
                book.with(order.side, order.constraint, next),
            )
        }),
{
    let side = order.side;
    let constraint = order.constraint;
    let id = order.order_id;
    let lots = order.quantity.lots;
    let after = orders.insert(id, order);
    let aggregate = book.at(side, constraint);
    let next = aggregate_plus(aggregate, lots);
    let public = book.with(side, constraint, next);
    assert(aggregates(orders, side, constraint, aggregate));
    let ids = choose|ids: Seq<OrderId>| #[trigger]
        aggregate_spells(orders, side, constraint, aggregate, ids);
    let more = ids.push(id);
    assert forall|i: int| 0 <= i < ids.len() implies #[trigger] ids[i] != id
        && orders.dom().contains(ids[i]) && order_lots(after)[ids[i]] == order_lots(orders)[ids[i]] by {
        assert(ids.contains(ids[i]));
    }
    lemma_sum_frame(order_lots(orders), order_lots(after), ids);
    lemma_sum_push(order_lots(after), ids, id);
    assert forall|i: int, j: int| 0 <= i < j < more.len() implies #[trigger] more[i]
        != #[trigger] more[j] by {
        if j < ids.len() {
            assert(ids[i] != ids[j]);
        } else {
            assert(ids[i] == more[i]);
        }
    }
    assert forall|other: OrderId| #[trigger] more.contains(other) <==> rests_at(
        after,
        other,
        side,
        constraint,
    ) by {
        if more.contains(other) {
            let k = choose|k: int| 0 <= k < more.len() && more[k] == other;
            if k < ids.len() {
                assert(ids[k] == other);
                assert(ids.contains(other));
            }
        }
        if rests_at(after, other, side, constraint) {
            if other == id {
                assert(more[ids.len() as int] == other);
            } else {
                assert(rests_at(orders, other, side, constraint));
                assert(ids.contains(other));
                let k = choose|k: int| 0 <= k < ids.len() && ids[k] == other;
                assert(more[k] == other);
            }
        }
    }
    assert(aggregates(after, side, constraint, goal.at(side, constraint)));
    let final_ids = choose|ids: Seq<OrderId>| #[trigger]
        aggregate_spells(after, side, constraint, goal.at(side, constraint), ids);
    assert forall|other: OrderId| more.contains(other) <==> final_ids.contains(other) by {
        assert(more.contains(other) <==> rests_at(after, other, side, constraint));
        assert(final_ids.contains(other) <==> rests_at(after, other, side, constraint));
    }
    lemma_sum_permuted(order_lots(after), order_lots(after), more, final_ids);
    assert(aggregate_spells(after, side, constraint, next, more));
    assert forall|s: Side, c: AuctionOrderConstraint| aggregates(
        after,
        s,
        c,
        #[trigger] public.at(s, c),
    ) by {
        lemma_with_at(book, side, constraint, next, s, c);
        assert(aggregates(orders, s, c, book.at(s, c)));
        if s != side || c != constraint {
            assert forall|other: OrderId|
                rests_at(orders, other, s, c) <==> #[trigger] rests_at(after, other, s, c) by {}
            lemma_aggregate_frame(orders, after, s, c, book.at(s, c));
        }
    }
    law_public_book_unique(after, public, goal);
    if let AuctionOrderConstraint::Limit(price) = constraint {
        let depth = book.depth(side);
        if !depth.dom().contains(price) {
            assert(goal.depth(side) == depth.insert(price, next));
            assert(depth.dom() =~= goal.depth(side).dom().remove(price));
        }
    }
}

/// What the publisher keeps of active orders.
pub open spec fn known_orders(orders: ActiveOrders) -> Map<OrderId, TrackedOrder> {
    orders.map_values(|order: CallAuctionOrderSnapshot| TrackedOrder::of(order))
}

impl PublisherState {
    /// The state knows exactly some active orders and aggregates them.
    pub open spec fn follows(self, orders: ActiveOrders) -> bool {
        self.orders == known_orders(orders) && shows(orders, self.book)
    }

    /// Only orders and interest differ.
    pub open spec fn same_but_interest(self, other: Self) -> bool {
        &&& self.phase == other.phase
        &&& self.book_revision == other.book_revision
        &&& self.last_trade_id == other.last_trade_id
        &&& self.sources == other.sources
        &&& self.uncross == other.uncross
        &&& self.mass == other.mass
    }

    /// Lots that an active order has can be executed or removed.
    proof fn lemma_reduces(self, orders: ActiveOrders, id: OrderId, lots: u64, maximum: usize)
        requires
            self.follows(orders),
            orders.dom().contains(id),
            0 < lots <= orders[id].quantity.lots,
        ensures
            self.orders.dom().contains(id),
            self.orders[id] == TrackedOrder::of(orders[id]),
            self.reduced(id, lots, maximum) matches Some((next, _)) && next.follows(
                orders_less(orders, id, lots),
            ) && next.same_but_interest(self),
    {
        assert(self.orders[id] == TrackedOrder::of(orders[id]));
        lemma_shows_less(orders, self.book, id, lots);
        let order = orders[id];
        let aggregate = self.book.at(order.side, order.constraint);
        let less = aggregate_less(aggregate, lots, lots == order.quantity.lots);
        assert(self.book.room(order.side, order.constraint, less, maximum));
        let (next, _) = self.reduced(id, lots, maximum)->0;
        assert(next.orders =~= known_orders(orders_less(orders, id, lots)));
    }
}

/// Cancellation lots only add up.
proof fn lemma_cancelled_monotone(events: Seq<CallAuctionEvent>, few: nat, many: nat)
    requires
        few <= many,
    ensures
        0 <= cancelled_lots(events, few) <= cancelled_lots(events, many),
    decreases many,
{
    if few < many {
        lemma_cancelled_monotone(events, few, (many - 1) as nat);
    } else if few > 0 {
        lemma_cancelled_monotone(events, (few - 1) as nat, (few - 1) as nat);
    }
}

/// Traded lots only add up.
proof fn lemma_traded_monotone(events: Seq<CallAuctionEvent>, few: nat, many: nat)
    requires
        few <= many,
    ensures
        0 <= traded_lots(events, few) <= traded_lots(events, many),
    decreases many,
{
    if few < many {
        lemma_traded_monotone(events, few, (many - 1) as nat);
    } else if few > 0 {
        lemma_traded_monotone(events, (few - 1) as nat, (few - 1) as nat);
    }
}

/// The order that a cancellation event removes.
pub open spec fn cancelled_id(event: CallAuctionEvent) -> OrderId {
    event.kind->OrderCancelled_order.order_id
}

impl PublisherState {
    /// Only orders, interest and mass-cancellation progress differ.
    pub open spec fn same_but_mass(self, other: Self) -> bool {
        &&& self.phase == other.phase
        &&& self.book_revision == other.book_revision
        &&& self.last_trade_id == other.last_trade_id
        &&& self.sources == other.sources
        &&& self.uncross == other.uncross
    }

    /// The removals of a mass cancellation publish one by one.
    proof fn lemma_mass_steps(
        self,
        command: CallAuctionMassCancel,
        events: Seq<CallAuctionEvent>,
        orders: ActiveOrders,
        limits: CallAuctionMarketDataLimits,
        count: nat,
    )
        requires
            self.follows(orders),
            self.mass == mass_start(),
            mass_cancel_grammar(events, command),
            count <= events.len() - 1,
            cancel_projection(orders, events, count) is Some,
            events.len() <= u64::MAX,
        ensures
            self.steps(CallAuctionCommand::MassCancel(command), events, limits, count) matches Some(
                (state, _),
            ) && {
                &&& state.follows(cancel_projection(orders, events, count)->0)
                &&& state.same_but_mass(self)
                &&& state.mass == (MassCancelProgress {
                    order_count: count as u64,
                    quantity_lots: cancelled_lots(events, count) as u128,
                    previous_order_id: if count == 0 {
                        None
                    } else {
                        Some(cancelled_id(events[count - 1]))
                    },
                    completed: false,
                })
            },
        decreases count,
    {
        if count > 0 {
            let last = (count - 1) as nat;
            self.lemma_mass_steps(command, events, orders, limits, last);
            lemma_cancelled_monotone(events, last, count);
            lemma_cancelled_monotone(events, count, (events.len() - 1) as nat);
            let source = CallAuctionCommand::MassCancel(command);
            let (state, _) = self.steps(source, events, limits, last)->0;
            let left = cancel_projection(orders, events, last)->0;
            assert(events[count - 1].kind is OrderCancelled);
            let order = events[count - 1].kind->OrderCancelled_order;
            let id = order.order_id;
            assert(left.dom().contains(id) && left[id] == order);
            assert(left[id].quantity.lots > 0);
            if last > 0 {
                assert(cancelled_number(events[last - 1]) < cancelled_number(events[count - 1]));
                assert(events[last - 1].kind is OrderCancelled);
            }
            state.lemma_reduces(
                left,
                id,
                order.quantity.lots,
                limits.max_price_levels_per_side,
            );
        }
    }

    /// What an uncross has touched is remembered as it was before.
    spec fn remembers(self, start: ActiveOrders, orders: ActiveOrders) -> bool {
        &&& forall|id: OrderId| #[trigger]
            self.sources.dom().contains(id) ==> start.dom().contains(id) && self.sources[id]
                == start[id].quantity.lots
        &&& forall|id: OrderId| #[trigger]
            orders.dom().contains(id) ==> start.dom().contains(id) && orders[id].quantity.lots
                <= start[id].quantity.lots && (!self.sources.dom().contains(id) ==> orders[id]
                == start[id])
    }

    /// One more touched order can be remembered.
    proof fn lemma_remembers(
        self,
        start: ActiveOrders,
        orders: ActiveOrders,
        id: OrderId,
        maximum: usize,
    )
        requires
            self.remembers(start, orders),
            start.dom().finite(),
            start.len() <= maximum,
            orders.dom().contains(id),
        ensures
            self.remembered(id, orders[id].quantity.lots, maximum) matches Some(next) && {
                &&& next.remembers(start, orders)
                &&& next.sources.dom() == self.sources.dom().insert(id)
                &&& next == (PublisherState { sources: next.sources, ..self })
            },
    {
        if self.sources.dom().contains(id) {
            assert(self.sources.dom() =~= self.sources.dom().insert(id));
        } else {
            let all = self.sources.dom().insert(id);
            assert(self.sources.dom().subset_of(start.dom()));
            vstd::set_lib::lemma_len_subset(self.sources.dom(), start.dom());
            assert(all.subset_of(start.dom()));
            vstd::set_lib::lemma_len_subset(all, start.dom());
            let next = self.remembered(id, orders[id].quantity.lots, maximum)->0;
            assert(next.sources.dom() =~= all);
        }
    }

    /// Uncross progress after the first `count` events, `trades` of the trace
    /// being trades numbered from `first` on.
    spec fn uncrossing(
        self,
        other: Self,
        start: ActiveOrders,
        events: Seq<CallAuctionEvent>,
        price: Price,
        first: int,
        trades: nat,
        count: nat,
    ) -> bool {
        let done = if count < trades {
            count
        } else {
            trades
        };
        &&& uncross_projection(start, events, count) is Some
        &&& self.follows(uncross_projection(start, events, count)->0)
        &&& self.remembers(start, uncross_projection(start, events, count)->0)
        &&& self.phase == other.phase
        &&& self.book_revision == other.book_revision
        &&& self.mass == other.mass
        &&& self.last_trade_id == trade_before((first + done) as u64)
        &&& self.uncross == (UncrossProgress {
            trace: CycleTrace {
                trade_count: done as u64,
                cancellation_count: (count - done) as u64,
                executed_quantity: traded_lots(events, done) as u128,
                price: if done == 0 {
                    None
                } else {
                    Some(price)
                },
            },
            completed: false,
        })
    }

    /// One trade of an uncross publishes.
    proof fn lemma_trade_step(
        self,
        other: Self,
        command: CallAuctionUncrossCommand,
        start: ActiveOrders,
        events: Seq<CallAuctionEvent>,
        price: Price,
        first: int,
        trades: nat,
        limits: CallAuctionMarketDataLimits,
        count: nat,
    )
        requires
            self.uncrossing(other, start, events, price, first, trades, count),
            count < trades <= events.len() <= u64::MAX,
            events[count as int].kind matches CallAuctionEventKind::Trade(trade) && trade.price
                == price && trade.trade_id.value == first + count,
            uncross_projection(start, events, count + 1) is Some,
            0 < first,
            first + trades <= u64::MAX,
            traded_lots(events, trades) <= u128::MAX,
            other.phase.phase == CallAuctionPhase::Frozen,
            other.phase.active_auction_id == Some(command.auction_id),
            command.price_band.minimum.raw <= price.raw <= command.price_band.maximum.raw,
            start.dom().finite(),
            start.len() <= limits.max_active_orders,
        ensures
            self.step(
                CallAuctionCommand::Uncross(command),
                events[count as int].kind,
                limits,
            ) matches Some((next, _)) && next.uncrossing(
                other,
                start,
                events,
                price,
                first,
                trades,
                count + 1,
            ),
    {
        let source = CallAuctionCommand::Uncross(command);
        let trade = events[count as int].kind->Trade_0;
        let before = uncross_projection(start, events, count)->0;
        let after = uncross_projection(start, events, count + 1)->0;
        let buy = trade.buy_order_id;
        let sell = trade.sell_order_id;
        let lots = trade.quantity.lots;
        let maximum = limits.max_price_levels_per_side;
        lemma_traded_monotone(events, count + 1, trades);
        lemma_traded_monotone(events, count, count + 1);
        assert(traded(before, trade) == Some(after));
        let middle = orders_less(before, buy, lots);
        assert(before.dom().contains(buy) && before.dom().contains(sell) && buy != sell);
        assert(middle.dom().contains(sell) && middle[sell] == before[sell]);
        assert(after == orders_less(middle, sell, lots));
        self.lemma_remembers(start, before, buy, limits.max_active_orders);
        assert(self.orders[buy] == TrackedOrder::of(before[buy]));
        assert(self.orders[sell] == TrackedOrder::of(before[sell]));
        let one = self.remembered(buy, before[buy].quantity.lots, limits.max_active_orders)->0;
        one.lemma_remembers(start, before, sell, limits.max_active_orders);
        let two = one.remembered(sell, before[sell].quantity.lots, limits.max_active_orders)->0;
        assert(self.recalled(trade, limits.max_active_orders) == Some(two));
        two.lemma_reduces(before, buy, lots, maximum);
        let (bought, _) = two.reduced(buy, lots, maximum)->0;
        bought.lemma_reduces(middle, sell, lots, maximum);
        let (sold, _) = bought.reduced(sell, lots, maximum)->0;
        assert(self.trades(source, trade));
        let (next, _) = self.step(source, events[count as int].kind, limits)->0;
        assert(next.sources == two.sources);
        assert forall|id: OrderId| #[trigger] after.dom().contains(id) implies start.dom().contains(
            id,
        ) && after[id].quantity.lots <= start[id].quantity.lots && (!next.sources.dom().contains(
            id,
        ) ==> after[id] == start[id]) by {
            assert(before.dom().contains(id));
        }
        assert(next.remembers(start, after));
        assert(traded_lots(events, count + 1) == traded_lots(events, count) + lots);
    }

    /// One remainder removal of an uncross publishes.
    proof fn lemma_remainder_step(
        self,
        other: Self,
        command: CallAuctionUncrossCommand,
        start: ActiveOrders,
        events: Seq<CallAuctionEvent>,
        price: Price,
        first: int,
        trades: nat,
        limits: CallAuctionMarketDataLimits,
        count: nat,
    )
        requires
            self.uncrossing(other, start, events, price, first, trades, count),
            trades <= count < events.len() <= u64::MAX,
            events[count as int].kind is RemainderCancelled,
            uncross_projection(start, events, count + 1) is Some,
            start.dom().finite(),
            start.len() <= limits.max_active_orders,
        ensures
            self.step(
                CallAuctionCommand::Uncross(command),
                events[count as int].kind,
                limits,
            ) matches Some((next, _)) && next.uncrossing(
                other,
                start,
                events,
                price,
                first,
                trades,
                count + 1,
            ),
    {
        let source = CallAuctionCommand::Uncross(command);
        let cancellation = events[count as int].kind->RemainderCancelled_0;
        let before = uncross_projection(start, events, count)->0;
        let after = uncross_projection(start, events, count + 1)->0;
        let id = cancellation.order_id;
        let lots = cancellation.quantity.lots;
        let maximum = limits.max_price_levels_per_side;
        assert(before.dom().contains(id));
        assert(before[id].quantity.lots > 0);
        assert(self.orders[id] == TrackedOrder::of(before[id]));
        self.lemma_remembers(start, before, id, limits.max_active_orders);
        let recalled = self.remembered(id, lots, limits.max_active_orders)->0;
        assert(recalled.sources.dom().contains(id));
        recalled.lemma_reduces(before, id, lots, maximum);
        let (next, _) = self.step(source, events[count as int].kind, limits)->0;
        assert(next.sources == recalled.sources);
        assert(after == orders_less(before, id, lots));
        assert forall|other_id: OrderId| #[trigger]
            after.dom().contains(other_id) implies start.dom().contains(other_id)
            && after[other_id].quantity.lots <= start[other_id].quantity.lots && (
        !next.sources.dom().contains(other_id) ==> after[other_id] == start[other_id]) by {
            assert(before.dom().contains(other_id));
        }
        assert(next.remembers(start, after));
    }

    /// Trades and removals of an uncross publish one by one.
    proof fn lemma_uncross_steps(
        self,
        command: CallAuctionUncrossCommand,
        events: Seq<CallAuctionEvent>,
        start: ActiveOrders,
        price: Price,
        first: int,
        trades: nat,
        limits: CallAuctionMarketDataLimits,
        count: nat,
    )
        requires
            self.follows(start),
            self.sources == Map::<OrderId, u64>::empty(),
            self.uncross == uncross_start(),
            self.last_trade_id == trade_before(first as u64),
            trades <= events.len() - 1,
            count <= events.len() - 1,
            events.len() <= u64::MAX,
            forall|k: int|
                0 <= k < trades ==> ((
                #[trigger] events[k]).kind matches CallAuctionEventKind::Trade(trade)
                    && trade.price == price && trade.trade_id.value == first + k),
            forall|k: int|
                trades <= k < events.len() - 1 ==> (#[trigger] events[k]).kind
                    is RemainderCancelled,
            uncross_projection(start, events, count) is Some,
            0 < first,
            first + trades <= u64::MAX,
            traded_lots(events, trades) <= u128::MAX,
            self.phase.phase == CallAuctionPhase::Frozen,
            self.phase.active_auction_id == Some(command.auction_id),
            command.price_band.minimum.raw <= price.raw <= command.price_band.maximum.raw,
            start.dom().finite(),
            start.len() <= limits.max_active_orders,
        ensures
            self.steps(CallAuctionCommand::Uncross(command), events, limits, count) matches Some(
                (state, _),
            ) && state.uncrossing(self, start, events, price, first, trades, count),
        decreases count,
    {
        if count > 0 {
            let last = (count - 1) as nat;
            self.lemma_uncross_steps(command, events, start, price, first, trades, limits, last);
            let (state, _) = self.steps(
                CallAuctionCommand::Uncross(command),
                events,
                limits,
                last,
            )->0;
            if last < trades {
                assert(events[last as int].kind is Trade);
                state.lemma_trade_step(
                    self,
                    command,
                    start,
                    events,
                    price,
                    first,
                    trades,
                    limits,
                    last,
                );
            } else {
                assert(events[last as int].kind is RemainderCancelled);
                state.lemma_remainder_step(
                    self,
                    command,
                    start,
                    events,
                    price,
                    first,
                    trades,
                    limits,
                    last,
                );
            }
        }
    }
}

impl CallAuctionEngine {
    /// A publisher state holds what this engine makes public.
    pub open spec fn mirrored_by(&self, state: PublisherState) -> bool {
        &&& state.follows(self.book.active())
        &&& state.phase == self.phase_state()
        &&& state.book_revision == self.book.state_revision
        &&& state.last_trade_id == trade_before(self.book.next_trade_id)
    }

    /// A publisher state at the start of a command.
    spec fn ready_to_publish(
        &self,
        state: PublisherState,
        limits: CallAuctionMarketDataLimits,
    ) -> bool {
        &&& self.wf()
        &&& self.mirrored_by(state)
        &&& state.sources == Map::<OrderId, u64>::empty()
        &&& state.uncross == uncross_start()
        &&& state.mass == mass_start()
        &&& limits.max_active_orders >= self.limits.book.active_orders
        &&& limits.max_price_levels_per_side >= self.limits.book.price_levels_per_side
    }

    /// A new order can be published.
    proof fn lemma_acceptance(
        &self,
        new: &Self,
        state: PublisherState,
        orders: ActiveOrders,
        command: CallAuctionCommand,
        order: CallAuctionOrderSnapshot,
        limits: CallAuctionMarketDataLimits,
    )
        requires
            new.wf(),
            new.limits == self.limits,
            limits.max_active_orders >= self.limits.book.active_orders,
            limits.max_price_levels_per_side >= self.limits.book.price_levels_per_side,
            state.follows(orders),
            state.accepts(command, order),
            orders.dom().finite(),
            new.book.active() == orders.insert(order.order_id, order),
            state.book_revision < u64::MAX,
        ensures
            state.accepted(command, order, limits) matches Some((next, _)) && {
                &&& next.follows(new.book.active())
                &&& next.book_revision == state.book_revision + 1
                &&& next.phase == state.phase
                &&& next.last_trade_id == state.last_trade_id
                &&& next.uncross == state.uncross
                &&& next.mass == state.mass
            },
    {
        let id = order.order_id;
        let goal = book_public(&new.book);
        assert(known_orders(orders).dom() =~= orders.dom());
        law_book_shows_orders(&new.book);
        new.book.bids.lemma_view();
        new.book.asks.lemma_view();
        new.book.orders.lemma_view();
        assert(new.book.active().dom() =~= new.book.orders@.dom());
        assert(new.book.active().dom() =~= orders.dom().insert(id));
        assert(goal.bids.dom() =~= new.book.bids@.dom());
        assert(goal.asks.dom() =~= new.book.asks@.dom());
        assert(new.book.active().dom().contains(id));
        assert(new.book.active()[id].quantity.lots > 0);
        lemma_shows_more(orders, state.book, order, goal, limits.max_price_levels_per_side);
        let (next, _) = state.accepted(command, order, limits)->0;
        assert(next.orders =~= known_orders(new.book.active()));
    }

    /// A mass cancellation of this engine publishes.
    proof fn lemma_mass_cancel_published(
        &self,
        new: &Self,
        state: PublisherState,
        cancel: CallAuctionMassCancel,
        entry: CallAuctionCommandReportCheckpoint,
        limits: CallAuctionMarketDataLimits,
    )
        requires
            self.ready_to_publish(state, limits),
            entry.command == CallAuctionCommand::MassCancel(cancel),
            entry.report.outcome == CallAuctionCommandOutcome::Accepted,
            entry.report.events@.len() <= u64::MAX,
            mass_cancel_grammar(entry.report.events@, cancel),
            self.direct_state().step(self.book.definition, entry) == Some(new.direct_state()),
            new.phase_state() == self.phase_state(),
        ensures
            state.steps(
                entry.command,
                entry.report.events@,
                limits,
                entry.report.events@.len(),
            ) matches Some((next, _)) && new.mirrored_by(next) && next.mass.completed
                && !next.uncross.completed,
    {
        let events = entry.report.events@;
        let count = (events.len() - 1) as nat;
        let active = self.book.active();
        assert forall|k: int| 0 <= k < events.len() implies !((
        #[trigger] events[k]).kind is Trade) by {
            if k == count {
                assert(events[k] == events.last());
            }
        }
        lemma_untraded(events, self.book.next_trade_id as int, events.len());
        state.lemma_mass_steps(cancel, events, active, limits, count);
        assert(events[count as int] == events.last());
    }

    /// An uncross of this engine publishes.
    proof fn lemma_uncross_published(
        &self,
        new: &Self,
        state: PublisherState,
        uncross: CallAuctionUncrossCommand,
        action: PreparedCallAuctionAction,
        entry: CallAuctionCommandReportCheckpoint,
        limits: CallAuctionMarketDataLimits,
    )
        requires
            self.ready_to_publish(state, limits),
            self.phase_state().coherent(),
            entry.command == CallAuctionCommand::Uncross(uncross),
            entry.report.outcome == CallAuctionCommandOutcome::Accepted,
            entry.report.events@.len() <= u64::MAX,
            uncross_grammar(entry.report.events@, uncross),
            action is Uncross,
            self.action_matches(entry.command, action),
            new.effects_from(self, action),
            entry.report.events@ == bound_events(
                self.action_kinds(action),
                entry.command,
                self.next_event_sequence as int,
            ),
            self.direct_state().step(self.book.definition, entry) == Some(new.direct_state()),
        ensures
            state.steps(
                entry.command,
                entry.report.events@,
                limits,
                entry.report.events@.len(),
            ) matches Some((next, _)) && new.mirrored_by(next) && !next.mass.completed
                && next.uncross.completed,
    {
        let events = entry.report.events@;
        let count = (events.len() - 1) as nat;
        let active = self.book.active();
        let prepared = action->Uncross_prepared;
        let kinds = self.action_kinds(action);
        let trades = prepared.buffers.trades@;
        let clearing = prepared.buffers.plan.clearing;
        let first = self.book.next_trade_id as int;
        assert(events[count as int] == events.last());
        assert(events.last().kind == kinds.last());
        assert forall|k: int| 0 <= k < trades.len() implies ((
        #[trigger] events[k]).kind matches CallAuctionEventKind::Trade(trade) && trade.price
            == clearing.price && trade.trade_id.value == first + k) by {
            assert(kinds[k] == CallAuctionEventKind::Trade(trades[k]));
        }
        assert(self.uncross_clearing(uncross)->Ok_0->0 == clearing);
        assert(uncross.price_band.covers(clearing.price));
        self.book.orders.lemma_view();
        assert(active.dom() =~= self.book.orders@.dom());
        if trades.len() == 0 {
            assert(traded_lots(events, 0) == 0);
        }
        state.lemma_uncross_steps(
            uncross,
            events,
            active,
            clearing.price,
            first,
            trades.len(),
            limits,
            count,
        );
    }
}

/// Events without trades number none.
proof fn lemma_untraded(events: Seq<CallAuctionEvent>, first: int, count: nat)
    requires
        count <= events.len(),
        forall|k: int| 0 <= k < events.len() ==> !((#[trigger] events[k]).kind is Trade),
    ensures
        numbered_trades(events, first, count) == Some(first),
    decreases count,
{
    if count > 0 {
        lemma_untraded(events, first, (count - 1) as nat);
        assert(!(events[count - 1].kind is Trade));
    }
}

impl CallAuctionEngine {
    /// The trace of a report agrees with a publisher state, which mirrors this
    /// engine afterwards.
    pub open spec fn publishes(
        &self,
        state: PublisherState,
        command: CallAuctionCommand,
        report: CallAuctionExecutionReport,
        limits: CallAuctionMarketDataLimits,
    ) -> bool {
        let accepted = report.outcome == CallAuctionCommandOutcome::Accepted;
        state.steps(command, report.events@, limits, report.events@.len()) matches Some((next, _))
            && {
            &&& self.mirrored_by(next)
            &&& next.uncross.completed == (command is Uncross && accepted)
            &&& next.mass.completed == (command is MassCancel && accepted)
        }
    }

    /// An identity that the book admits is not active.
    proof fn lemma_fresh_identity(&self, id: OrderId)
        requires
            self.wf(),
            !self.book.accepted().contains(id),
        ensures
            !self.book.active().dom().contains(id),
            self.book.active().dom().finite(),
    {
        self.book.orders.lemma_view();
        assert(self.book.active().dom() =~= self.book.orders@.dom());
        if self.book.active().dom().contains(id) {
            assert(self.book.order_ok(id));
        }
    }

    /// An admission of this engine publishes.
    proof fn lemma_submit_published(
        &self,
        new: &Self,
        state: PublisherState,
        command: CallAuctionCommand,
        action: PreparedCallAuctionAction,
        report: CallAuctionExecutionReport,
        limits: CallAuctionMarketDataLimits,
    )
        requires
            self.ready_to_publish(state, limits),
            new.wf(),
            self.action_matches(command, action),
            action is Submit,
            new.settles_from(self, command, action, report),
        ensures
            new.publishes(state, command, report, limits),
    {
        let events = report.events@;
        let active = self.book.active();
        reveal_with_fuel(PublisherState::steps, 2);
        assert(events[0].kind == self.action_kinds(action)[0]);
        let order = action->Submit_0;
        self.lemma_fresh_identity(order.order_id);
        self.lemma_acceptance(new, state, active, command, self.book.admitted(order), limits);
    }

    /// A cancellation of this engine publishes.
    proof fn lemma_cancel_published(
        &self,
        new: &Self,
        state: PublisherState,
        command: CallAuctionCommand,
        action: PreparedCallAuctionAction,
        report: CallAuctionExecutionReport,
        limits: CallAuctionMarketDataLimits,
    )
        requires
            self.ready_to_publish(state, limits),
            new.wf(),
            self.action_matches(command, action),
            action is Cancel,
            new.settles_from(self, command, action, report),
        ensures
            new.publishes(state, command, report, limits),
    {
        let events = report.events@;
        let active = self.book.active();
        reveal_with_fuel(PublisherState::steps, 2);
        assert(events[0].kind == self.action_kinds(action)[0]);
        let id = action->Cancel_order_id;
        assert(self.book.order_ok(id));
        let lots = active[id].quantity.lots;
        state.lemma_reduces(active, id, lots, limits.max_price_levels_per_side);
        assert(orders_less(active, id, lots) =~= new.book.active());
    }

    /// A reduction of this engine publishes.
    proof fn lemma_amend_published(
        &self,
        new: &Self,
        state: PublisherState,
        command: CallAuctionCommand,
        action: PreparedCallAuctionAction,
        report: CallAuctionExecutionReport,
        limits: CallAuctionMarketDataLimits,
    )
        requires
            self.ready_to_publish(state, limits),
            new.wf(),
            self.action_matches(command, action),
            action is Amend,
            new.settles_from(self, command, action, report),
        ensures
            new.publishes(state, command, report, limits),
    {
        let events = report.events@;
        let active = self.book.active();
        reveal_with_fuel(PublisherState::steps, 2);
        assert(events[0].kind == self.action_kinds(action)[0]);
        let id = action->Amend_order_id;
        assert(self.book.order_ok(id));
        let less = (active[id].quantity.lots - action->new_quantity.lots) as u64;
        assert(new.book.active().dom().contains(id));
        assert(new.book.order_ok(id));
        state.lemma_reduces(active, id, less, limits.max_price_levels_per_side);
        assert(orders_less(active, id, less) =~= new.book.active());
    }

    /// A replacement of this engine publishes.
    proof fn lemma_replace_published(
        &self,
        new: &Self,
        state: PublisherState,
        command: CallAuctionCommand,
        action: PreparedCallAuctionAction,
        report: CallAuctionExecutionReport,
        limits: CallAuctionMarketDataLimits,
    )
        requires
            self.ready_to_publish(state, limits),
            new.wf(),
            self.action_matches(command, action),
            action is Replace,
            new.settles_from(self, command, action, report),
        ensures
            new.publishes(state, command, report, limits),
    {
        let events = report.events@;
        let active = self.book.active();
        reveal_with_fuel(PublisherState::steps, 3);
        assert(events[0].kind == self.action_kinds(action)[0]);
        assert(events[1].kind == self.action_kinds(action)[1]);
        let id = action->target_order_id;
        let replacement = action->replacement;
        assert(self.book.order_ok(id));
        self.lemma_fresh_identity(replacement.order_id);
        let lots = active[id].quantity.lots;
        state.lemma_reduces(active, id, lots, limits.max_price_levels_per_side);
        let (middle, _) = state.steps(command, events, limits, 1)->0;
        let left = active.remove(id);
        assert(middle.follows(left));
        self.lemma_acceptance(
            new,
            middle,
            left,
            command,
            self.book.admitted(replacement),
            limits,
        );
    }

    /// A phase transition of this engine publishes.
    proof fn lemma_phase_published(
        &self,
        new: &Self,
        state: PublisherState,
        command: CallAuctionCommand,
        action: PreparedCallAuctionAction,
        report: CallAuctionExecutionReport,
        limits: CallAuctionMarketDataLimits,
    )
        requires
            self.ready_to_publish(state, limits),
            new.wf(),
            self.action_matches(command, action),
            action is PhaseTransition,
            new.settles_from(self, command, action, report),
        ensures
            new.publishes(state, command, report, limits),
    {
        let events = report.events@;
        let active = self.book.active();
        reveal_with_fuel(PublisherState::steps, 2);
        assert(events[0].kind == self.action_kinds(action)[0]);
    }

    /// Every report of this engine publishes: a state that mirrors the engine
    /// before a command agrees with every event of its report and mirrors the
    /// engine afterwards.
    pub proof fn law_report_publishes(
        old: &Self,
        new: &Self,
        command: CallAuctionCommand,
        action: PreparedCallAuctionAction,
        report: CallAuctionExecutionReport,
        state: PublisherState,
        limits: CallAuctionMarketDataLimits,
    )
        requires
            old.wf(),
            old.audited(),
            new.wf(),
            old.gate_matches(command, action),
            new.settles_from(old, command, action, report),
            old.mirrored_by(state),
            state.sources == Map::<OrderId, u64>::empty(),
            state.uncross == uncross_start(),
            state.mass == mass_start(),
            limits.max_active_orders >= old.limits.book.active_orders,
            limits.max_price_levels_per_side >= old.limits.book.price_levels_per_side,
        ensures
            report_grammar(new.history@.last()),
            new.publishes(state, command, report, limits),
    {
        let entry = new.history@.last();
        old.lemma_trace_grammar(command, action, entry);
        match action {
            PreparedCallAuctionAction::Rejected(_) => {
                reveal_with_fuel(PublisherState::steps, 2);
                assert(report.events@[0].kind == old.action_kinds(action)[0]);
            },
            PreparedCallAuctionAction::PhaseTransition { .. } => {
                old.lemma_phase_published(new, state, command, action, report, limits);
            },
            PreparedCallAuctionAction::Submit(_) => {
                old.lemma_submit_published(new, state, command, action, report, limits);
            },
            PreparedCallAuctionAction::Cancel { .. } => {
                old.lemma_cancel_published(new, state, command, action, report, limits);
            },
            PreparedCallAuctionAction::Amend { .. } => {
                old.lemma_amend_published(new, state, command, action, report, limits);
            },
            PreparedCallAuctionAction::Replace { .. } => {
                old.lemma_replace_published(new, state, command, action, report, limits);
            },
            PreparedCallAuctionAction::MassCancel { .. } => {
                old.lemma_step_projected(new, command, action, entry);
                let cancel = command->MassCancel_0;
                old.lemma_mass_cancel_published(new, state, cancel, entry, limits);
            },
            PreparedCallAuctionAction::Uncross { .. } => {
                old.lemma_step_projected(new, command, action, entry);
                let uncross = command->Uncross_0;
                old.lemma_uncross_published(new, state, uncross, action, entry, limits);
            },
        }
    }
}

impl CallAuctionMarketDataPublisher {
    /// A publisher that mirrors an engine under limits that cover it.
    pub open spec fn attached(&self, engine: &CallAuctionEngine) -> bool {
        &&& self.wf()
        &&& !self.poisoned
        &&& self.layout_ok()
        &&& self.mirrors(engine)
        &&& source_limits_fault(self.limits, engine.limits) is None
    }

    /// A report of an engine belongs to its command and has a whole trace.
    proof fn lemma_report_bound(
        old: &CallAuctionEngine,
        new: &CallAuctionEngine,
        command: CallAuctionCommand,
        action: PreparedCallAuctionAction,
        report: CallAuctionExecutionReport,
    )
        requires
            report_grammar(new.history@.last()),
            new.settles_from(old, command, action, report),
        ensures
            report_bound(command, report),
            report.events@[0].sequence == old.next_event_sequence,
            report.events@.last().sequence == new.next_event_sequence - 1,
    {
        let entry = new.history@.last();
        let events = report.events@;
        if report.outcome == CallAuctionCommandOutcome::Accepted {
            assert forall|k: int| 0 <= k < events.len() implies !((
            #[trigger] events[k]).kind is CommandRejected) by {
                match command {
                    CallAuctionCommand::MassCancel(_) => {
                        if k == events.len() - 1 {
                            assert(events[k] == events.last());
                        }
                    },
                    CallAuctionCommand::Uncross(_) => {
                        if k == events.len() - 1 {
                            assert(events[k] == events.last());
                        } else {
                            let trades = events.last().kind->UncrossCompleted_trade_count;
                            assert(k < trades ==> events[k].kind is Trade);
                        }
                    },
                    _ => {},
                }
            }
        }
    }

    /// Attachment is kept: whatever an engine sequences for this instrument is
    /// published, unless storage for the batch cannot be reserved, and the
    /// publisher mirrors the engine afterwards.
    pub proof fn law_publisher_follows_engine(
        &self,
        after: &Self,
        old: &CallAuctionEngine,
        new: &CallAuctionEngine,
        command: CallAuctionCommand,
        action: PreparedCallAuctionAction,
        report: CallAuctionExecutionReport,
        r: Result<CallAuctionMarketDataBatch, CallAuctionMarketDataError>,
    )
        requires
            self.attached(old),
            old.wf(),
            old.audited(),
            new.wf(),
            old.prepare_fault(command) is None,
            old.gate_matches(command, action),
            new.settles_from(old, command, action, report),
            command.instrument() == self.instrument_id,
            command.version() == self.instrument_version,
            after.wf(),
            after.published(self, command, report, new, r),
            !(r matches Err(error) && error is PreparationAllocationFailed),
        ensures
            r is Ok,
            after.attached(new),
    {
        let state = self.fresh();
        assert(known_orders(old.book.active()) =~= book_orders(&old.book));
        law_book_shows_orders(&old.book);
        CallAuctionEngine::law_report_publishes(
            old,
            new,
            command,
            action,
            report,
            state,
            self.limits,
        );
        Self::lemma_report_bound(old, new, command, action, report);
        old.lemma_events_planned(command, action);
        assert(after.traced(self, command, report, new, r));
        let (next, _) = self.trace_of(command, report)->0;
        assert(known_orders(new.book.active()) =~= book_orders(&new.book));
        law_book_shows_orders(&new.book);
        law_public_book_unique(new.book.active(), next.book, book_public(&new.book));
        assert(after.fresh().orders == next.orders);
        assert(after.fresh().book == next.book);
        assert(after.fresh().phase == next.phase);
        assert(after.mirrors(new));
        after.lemma_mirror_layout(self, new);
    }

    /// An index that mirrors an engine is laid out as its limits say.
    proof fn lemma_mirror_layout(&self, old: &Self, engine: &CallAuctionEngine)
        requires
            self.wf(),
            self.same_shell(old),
            self.at_rest(),
            old.layout_ok(),
            engine.wf(),
            self.mirrors(engine),
            source_limits_fault(self.limits, engine.limits) is None,
        ensures
            self.layout_ok(),
    {
        let book = &engine.book;
        self.bids.lemma_view();
        self.asks.lemma_view();
        self.orders.lemma_view();
        book.bids.lemma_view();
        book.asks.lemma_view();
        book.orders.lemma_view();
        assert(self.bids@.dom() =~= book.bids@.dom());
        assert(self.asks@.dom() =~= book.asks@.dom());
        assert(self.orders@.dom() =~= book.orders@.dom());
        assert forall|i: int| 0 <= i < self.bids.entries@.len() implies (
        #[trigger] self.bids.entries@[i]).1.quantity > 0 && self.bids.entries@[i].1.order_count
            > 0 by {
            let price = self.bids.entries@[i].0;
            assert(book.bids@.dom().contains(price));
            lemma_queue_shaped(book, Side::Buy, AuctionOrderConstraint::Limit(price));
        }
        assert forall|i: int| 0 <= i < self.asks.entries@.len() implies (
        #[trigger] self.asks.entries@[i]).1.quantity > 0 && self.asks.entries@[i].1.order_count
            > 0 by {
            let price = self.asks.entries@[i].0;
            assert(book.asks@.dom().contains(price));
            lemma_queue_shaped(book, Side::Sell, AuctionOrderConstraint::Limit(price));
        }
    }
}

} // verus!
