//! What a collection shows of its active orders.

use vstd::prelude::*;

use crate::auction::AuctionOrderConstraint;
use crate::book_interest::ActiveOrders;
use crate::book_queries::level_snapshot;
use crate::book_state::CallAuctionBook;
use crate::chain::member_sum;
use crate::domain::{OrderId, Price, Side};
use crate::market_data_publication::{book_public, queue_aggregate};
use crate::ordered_map::MapKey;
use crate::publication_laws::{
    aggregate_spells, aggregates, law_book_shows_orders, order_lots, rests_at,
};

verus! {

/// Lots of the listed orders.
pub open spec fn lots_of(active: ActiveOrders, ids: Seq<OrderId>) -> int
    decreases ids.len(),
{
    if ids.len() == 0 {
        0
    } else {
        lots_of(active, ids.drop_last()) + active[ids.last()].quantity.lots
    }
}

proof fn lemma_lots_of(active: ActiveOrders, ids: Seq<OrderId>)
    requires
        forall|i: int| 0 <= i < ids.len() ==> active.dom().contains(#[trigger] ids[i]),
    ensures
        member_sum(order_lots(active), ids) == lots_of(active, ids),
    decreases ids.len(),
{
    if ids.len() > 0 {
        let rest = ids.drop_last();
        assert forall|i: int| 0 <= i < rest.len() implies active.dom().contains(
            #[trigger] rest[i],
        ) by {
            assert(rest[i] == ids[i]);
        }
        lemma_lots_of(active, rest);
        assert(active.dom().contains(ids[ids.len() - 1]));
    }
}

impl CallAuctionBook {
    /// Depth runs from the best price to the worst: bids fall and asks rise.
    pub proof fn law_depth_is_best_first(&self, side: Side, first: int, second: int)
        requires
            self.wf(),
            0 <= first < second < self.best_depth(side).len(),
        ensures
            side == Side::Buy ==> self.best_depth(side)[first].price.raw
                > self.best_depth(side)[second].price.raw,
            side == Side::Sell ==> self.best_depth(side)[first].price.raw
                < self.best_depth(side)[second].price.raw,
            self.best_depth(side)[first].side == side,
    {
        let entries = self.level_entries(side);
        let count = entries.len() as int;
        let (low, high) = if side == Side::Buy {
            (count - 1 - second, count - 1 - first)
        } else {
            (first, second)
        };
        assert(entries[low].0.rank() < entries[high].0.rank());
    }

    /// A price is in the depth of a side exactly when an active order of the side
    /// has it as limit.
    pub proof fn law_depth_lists_occupied_prices(&self, side: Side, price: Price)
        requires
            self.wf(),
        ensures
            (exists|k: int|
                0 <= k < self.best_depth(side).len() && (#[trigger] self.best_depth(
                    side,
                )[k]).price == price) <==> exists|id: OrderId| #[trigger]
                self.active().dom().contains(id) && self.active()[id].side == side
                    && self.active()[id].constraint == AuctionOrderConstraint::Limit(price),
    {
        self.law_levels_are_occupied(side, price);
        self.bids.lemma_view();
        self.asks.lemma_view();
        let entries = self.level_entries(side);
        let depth = self.best_depth(side);
        let count = entries.len() as int;
        if exists|k: int| 0 <= k < depth.len() && (#[trigger] depth[k]).price == price {
            let k = choose|k: int| 0 <= k < depth.len() && (#[trigger] depth[k]).price == price;
            let at = if side == Side::Buy {
                count - 1 - k
            } else {
                k
            };
            assert(entries[at].0 == price);
            assert(self.level_map(side).dom().contains(price));
        }
        if self.level_map(side).dom().contains(price) {
            let at = choose|i: int| 0 <= i < entries.len() && (#[trigger] entries[i]).0 == price;
            let k = if side == Side::Buy {
                count - 1 - at
            } else {
                at
            };
            assert(depth[k] == level_snapshot(side, entries[at]));
        }
    }

    /// The best limit price of a side is at least as good as every active limit of
    /// the side.
    pub proof fn law_best_price_is_best(&self, side: Side, id: OrderId, limit: Price)
        requires
            self.wf(),
            self.active().dom().contains(id),
            self.active()[id].side == side,
            self.active()[id].constraint == AuctionOrderConstraint::Limit(limit),
        ensures
            self.best_depth(side).len() > 0,
            side == Side::Buy ==> self.best_depth(side)[0].price.raw >= limit.raw,
            side == Side::Sell ==> self.best_depth(side)[0].price.raw <= limit.raw,
    {
        self.law_depth_lists_occupied_prices(side, limit);
        let depth = self.best_depth(side);
        let k = choose|k: int| 0 <= k < depth.len() && (#[trigger] depth[k]).price == limit;
        if k > 0 {
            self.law_depth_is_best_first(side, 0, k);
        }
    }

    /// Each level of the depth counts and sums exactly the active orders of its
    /// side with its price as limit.
    pub proof fn law_level_sums_orders(&self, side: Side, k: int) -> (ids: Seq<OrderId>)
        requires
            self.wf(),
            0 <= k < self.best_depth(side).len(),
        ensures
            ids.no_duplicates(),
            forall|id: OrderId| #[trigger]
                ids.contains(id) <==> self.active().dom().contains(id) && self.active()[id].side
                    == side && self.active()[id].constraint == AuctionOrderConstraint::Limit(
                    self.best_depth(side)[k].price,
                ),
            self.best_depth(side)[k].order_count == ids.len(),
            self.best_depth(side)[k].quantity == lots_of(self.active(), ids),
    {
        let depth = self.best_depth(side);
        let entries = self.level_entries(side);
        let count = entries.len() as int;
        let at = if side == Side::Buy {
            count - 1 - k
        } else {
            k
        };
        self.bids.lemma_view();
        self.asks.lemma_view();
        let constraint = AuctionOrderConstraint::Limit(depth[k].price);
        assert(depth[k] == level_snapshot(side, entries[at]));
        assert(self.queue_of(side, constraint) == entries[at].1);
        self.lemma_queue_listed(side, constraint)
    }

    /// Market interest of a side counts and sums exactly its active market orders.
    pub proof fn law_market_interest_sums_orders(&self, side: Side) -> (ids: Seq<OrderId>)
        requires
            self.wf(),
        ensures
            ids.no_duplicates(),
            forall|id: OrderId| #[trigger]
                ids.contains(id) <==> self.active().dom().contains(id) && self.active()[id].side
                    == side && self.active()[id].constraint is Market,
            self.market_of(side).order_count == ids.len(),
            self.market_of(side).total_quantity == lots_of(self.active(), ids),
            side == Side::Buy ==> self.market_interest().buy_quantity == lots_of(
                self.active(),
                ids,
            ),
            side == Side::Sell ==> self.market_interest().sell_quantity == lots_of(
                self.active(),
                ids,
            ),
    {
        self.lemma_queue_listed(side, AuctionOrderConstraint::Market)
    }

    pub(crate) proof fn lemma_queue_listed(
        &self,
        side: Side,
        constraint: AuctionOrderConstraint,
    ) -> (ids: Seq<OrderId>)
        requires
            self.wf(),
        ensures
            ids.no_duplicates(),
            forall|id: OrderId| #[trigger]
                ids.contains(id) <==> self.active().dom().contains(id) && self.active()[id].side
                    == side && self.active()[id].constraint == constraint,
            self.queue_of(side, constraint).order_count == ids.len(),
            self.queue_of(side, constraint).total_quantity == lots_of(self.active(), ids),
    {
        let active = self.active();
        law_book_shows_orders(self);
        let aggregate = book_public(self).at(side, constraint);
        assert(aggregate == queue_aggregate(self.queue_of(side, constraint)));
        assert(aggregates(active, side, constraint, aggregate));
        let ids = choose|ids: Seq<OrderId>| #[trigger]
            aggregate_spells(active, side, constraint, aggregate, ids);
        assert forall|i: int| 0 <= i < ids.len() implies active.dom().contains(
            #[trigger] ids[i],
        ) by {
            assert(ids.contains(ids[i]));
            assert(rests_at(active, ids[i], side, constraint));
        }
        assert forall|id: OrderId| #[trigger] ids.contains(id) <==> active.dom().contains(id)
            && active[id].side == side && active[id].constraint == constraint by {
            assert(ids.contains(id) <==> rests_at(active, id, side, constraint));
        }
        lemma_lots_of(active, ids);
        ids
    }

    /// The listing of active orders holds each once, by rising identity.
    pub proof fn law_active_orders_are_listed(&self, id: OrderId, first: int, second: int)
        requires
            self.wf(),
        ensures
            self.active().dom().contains(id) <==> exists|i: int|
                0 <= i < self.active_list().len() && (#[trigger] self.active_list()[i]).order_id
                    == id,
            0 <= first < self.active_list().len() ==> self.active_list()[first]
                == self.active()[self.active_list()[first].order_id],
            0 <= first < second < self.active_list().len()
                ==> self.active_list()[first].order_id.value
                < self.active_list()[second].order_id.value,
            self.active_list().len() == self.active().len(),
    {
        let entries = self.orders.entries@;
        let list = self.active_list();
        self.orders.lemma_view();
        assert(self.active().dom() =~= self.orders@.dom());
        assert forall|i: int| 0 <= i < list.len() implies (#[trigger] list[i]).order_id
            == entries[i].0 && list[i] == self.active()[entries[i].0]
            && self.active().dom().contains(entries[i].0) by {
            assert(self.orders@.dom().contains(entries[i].0));
            assert(self.order_ok(entries[i].0));
        }
        if self.active().dom().contains(id) {
            let i = choose|i: int| 0 <= i < entries.len() && (#[trigger] entries[i]).0 == id;
            assert(list[i].order_id == id);
        }
        if 0 <= first < second < list.len() {
            assert(entries[first].0.rank() < entries[second].0.rank());
            assert(list[first].order_id == entries[first].0);
            assert(list[second].order_id == entries[second].0);
        }
    }

    /// The listing of accepted identities holds each once, rising.
    pub proof fn law_accepted_identities_are_listed(&self, id: OrderId, first: int, second: int)
        requires
            self.wf(),
        ensures
            self.accepted().contains(id) <==> exists|i: int|
                0 <= i < self.accepted_list().len() && #[trigger] self.accepted_list()[i] == id,
            0 <= first < second < self.accepted_list().len() ==> self.accepted_list()[first].value
                < self.accepted_list()[second].value,
    {
        let entries = self.seen_order_ids.entries@;
        let list = self.accepted_list();
        self.seen_order_ids.lemma_view();
        if self.accepted().contains(id) {
            let i = choose|i: int| 0 <= i < entries.len() && (#[trigger] entries[i]).0 == id;
            assert(list[i] == id);
        }
        if exists|i: int| 0 <= i < list.len() && #[trigger] list[i] == id {
            let i = choose|i: int| 0 <= i < list.len() && #[trigger] list[i] == id;
            assert(entries[i].0 == id);
        }
        if 0 <= first < second < list.len() {
            assert(entries[first].0.rank() < entries[second].0.rank());
        }
    }
}

impl CallAuctionBook {
    /// Telemetry counts what the collection holds next to what it may hold.
    pub proof fn law_status_counts_contents(
        &self,
        bid_levels: usize,
        ask_levels: usize,
        buy_orders: usize,
        sell_orders: usize,
    )
        requires
            self.wf(),
        ensures
            ({
                let status = self.status_with(bid_levels, ask_levels, buy_orders, sell_orders);
                &&& status.active_orders == self.active().len()
                &&& status.accepted_order_ids == self.accepted().len()
                &&& status.bid_price_levels == self.best_depth(Side::Buy).len()
                &&& status.ask_price_levels == self.best_depth(Side::Sell).len()
                &&& status.configured_active_orders == self.limits.active_orders
                &&& status.configured_accepted_order_ids == self.limits.accepted_order_ids
                &&& status.configured_prepared_uncrosses == self.limits.prepared_uncrosses
                &&& status.available_prepared_uncrosses == self.uncross_pool.available@.len()
                &&& status.active_orders <= status.configured_active_orders
                &&& status.accepted_order_ids <= status.configured_accepted_order_ids
                &&& status.bid_level_scratch == bid_levels
                &&& status.ask_level_scratch == ask_levels
                &&& status.buy_order_scratch == buy_orders
                &&& status.sell_order_scratch == sell_orders
            }),
    {
        self.orders.lemma_view();
        self.seen_order_ids.lemma_view();
        assert(self.active().dom() =~= self.orders@.dom());
    }
}

} // verus!
