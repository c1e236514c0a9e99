//! What discovery over aggregate levels promises to allocation over orders.

use vstd::prelude::*;

use crate::allocation::{
    eligible, eligible_lots, first_order_fault, first_quantum_fault, order_before, order_fault,
    quanta_aligned, AuctionAllocationPolicy,
};
use crate::auction::{
    AuctionClearing, AuctionLevel, AuctionOrder, AuctionOrderConstraint, AuctionPriceBand,
    AuctionPricePolicy,
};
use crate::auction_engine::CallAuctionEngine;
use crate::book_agreement::lemma_sum_permuted;
use crate::book_interest::{canonical_side, side_orders, ActiveOrders};
use crate::book_laws::lemma_sum_joined;
use crate::book_lemmas::lemma_queue_spells;
use crate::book_state::{in_queue, leaves, queue_ids, queue_ok, CallAuctionBook};
use crate::book_types::{CallAuctionPrepareError, CallAuctionUncrossPolicy};
use crate::book_uncross::{first_self_trade, lemma_side_bounded, lemma_side_distinct, AuctionPair};
use crate::chain::{lemma_sum_push, member_sum};
use crate::discovery::{
    demand_at, quantity_at_or_above, quantity_at_or_below, supply_at, total_quantity,
};
use crate::domain::{OrderId, Price, Side};
use crate::engine_types::{CallAuctionCommand, CallAuctionEngineError, CallAuctionUncrossCommand};

verus! {

/// Whether a limit price of one side allows execution at a price.
spec fn reaches(side: Side, limit: Price, price: Price) -> bool {
    match side {
        Side::Buy => limit.raw >= price.raw,
        Side::Sell => limit.raw <= price.raw,
    }
}

/// Quantity of the levels of one side that allow execution at a price.
spec fn reaching_quantity(side: Side, levels: Seq<AuctionLevel>, price: Price) -> int {
    match side {
        Side::Buy => quantity_at_or_above(levels, price),
        Side::Sell => quantity_at_or_below(levels, price),
    }
}

impl CallAuctionBook {
    /// The price of the level at one rank.
    spec fn rank_price(&self, side: Side, rank: int) -> Price {
        self.level_list(side)[rank].price
    }

    /// Identities in the queue of one side and constraint.
    spec fn queued(&self, side: Side, constraint: AuctionOrderConstraint) -> Seq<OrderId> {
        queue_ids(self.orders@, self.queue_of(side, constraint))
    }

    /// Market orders, then the orders of the reaching levels among the first
    /// `count`.
    spec fn reaching_ids(&self, side: Side, price: Price, count: nat) -> Seq<OrderId>
        decreases count,
    {
        if count == 0 {
            self.queued(side, AuctionOrderConstraint::Market)
        } else {
            let limit = self.rank_price(side, count - 1);
            self.reaching_ids(side, price, (count - 1) as nat) + if reaches(side, limit, price) {
                self.queued(side, AuctionOrderConstraint::Limit(limit))
            } else {
                Seq::empty()
            }
        }
    }

    /// An order rests in the market queue or at a reaching level among the first
    /// `count`.
    spec fn reached(&self, side: Side, price: Price, count: nat, id: OrderId) -> bool {
        &&& self.orders@.dom().contains(id)
        &&& self.orders@[id].side == side
        &&& match self.orders@[id].constraint {
            AuctionOrderConstraint::Market => true,
            AuctionOrderConstraint::Limit(limit) => reaches(side, limit, price) && exists|k: int|
                0 <= k < count && #[trigger] self.rank_price(side, k) == limit,
        }
    }

    /// Levels have distinct prices and hold what their queues hold.
    proof fn lemma_levels(&self, side: Side)
        requires
            self.wf(),
        ensures
            forall|k: int|
                0 <= k < self.level_list(side).len() ==> self.level_list(side)[k].quantity
                    == self.queue_of(
                    side,
                    AuctionOrderConstraint::Limit(#[trigger] self.rank_price(side, k)),
                ).total_quantity,
            forall|j: int, k: int|
                0 <= j < k < self.level_list(side).len() ==> #[trigger] self.rank_price(side, j)
                    != #[trigger] self.rank_price(side, k),
            forall|limit: Price| #[trigger]
                self.level_map(side).dom().contains(limit) ==> exists|k: int|
                    0 <= k < self.level_list(side).len() && #[trigger] self.rank_price(side, k)
                        == limit,
    {
        let entries = self.level_entries(side);
        let count = entries.len() as int;
        self.bids.lemma_view();
        self.asks.lemma_view();
        assert forall|k: int| 0 <= k < count implies self.level_list(side)[k].quantity
            == self.queue_of(
            side,
            AuctionOrderConstraint::Limit(#[trigger] self.rank_price(side, k)),
        ).total_quantity by {
            let at = if side == Side::Buy {
                count - 1 - k
            } else {
                k
            };
            assert(self.level_map(side).dom().contains(entries[at].0));
            assert(self.level_map(side)[entries[at].0] == entries[at].1);
        }
        assert forall|j: int, k: int| 0 <= j < k < count implies #[trigger] self.rank_price(side, j)
            != #[trigger] self.rank_price(side, k) by {
            let (a, b) = if side == Side::Buy {
                (count - 1 - k, count - 1 - j)
            } else {
                (j, k)
            };
            assert(entries[a].0.raw < entries[b].0.raw);
        }
        assert forall|limit: Price| #[trigger]
            self.level_map(side).dom().contains(limit) implies exists|k: int|
            0 <= k < count && #[trigger] self.rank_price(side, k) == limit by {
            let at = choose|i: int| 0 <= i < count && (#[trigger] entries[i]).0 == limit;
            let k = if side == Side::Buy {
                count - 1 - at
            } else {
                at
            };
            assert(self.rank_price(side, k) == limit);
        }
    }

    /// The listed orders are distinct, are those reached, and add up to the
    /// market quantity and the reaching levels.
    proof fn lemma_reaching(&self, side: Side, price: Price, count: nat)
        requires
            self.wf(),
            count <= self.level_list(side).len(),
        ensures
            ({
                let ids = self.reaching_ids(side, price, count);
                &&& forall|i: int, j: int|
                    0 <= i < j < ids.len() ==> #[trigger] ids[i] != #[trigger] ids[j]
                &&& forall|id: OrderId| #[trigger]
                    ids.contains(id) <==> self.reached(side, price, count, id)
                &&& member_sum(leaves(self.orders@), ids) == self.market_of(side).total_quantity
                    + reaching_quantity(side, self.level_list(side).take(count as int), price)
            }),
        decreases count,
    {
        let orders = self.orders@;
        let levels = self.level_list(side);
        let ids = self.reaching_ids(side, price, count);
        self.lemma_levels(side);
        if count == 0 {
            let market = AuctionOrderConstraint::Market;
            let queue = self.queue_of(side, market);
            assert(queue_ok(orders, queue, side, market));
            lemma_queue_spells(orders, queue, side, market);
            assert(levels.take(0) =~= Seq::<AuctionLevel>::empty());
            assert forall|id: OrderId| #[trigger] ids.contains(id) <==> self.reached(
                side,
                price,
                count,
                id,
            ) by {
                if ids.contains(id) {
                    let i = choose|i: int| 0 <= i < ids.len() && ids[i] == id;
                    assert(in_queue(orders, ids[i], side, market));
                }
                if self.reached(side, price, count, id) {
                    assert(in_queue(orders, id, side, market));
                }
            }
        } else {
            let few = (count - 1) as nat;
            let limit = self.rank_price(side, count - 1);
            let constraint = AuctionOrderConstraint::Limit(limit);
            let rest = self.reaching_ids(side, price, few);
            let part = self.queued(side, constraint);
            let queue = self.queue_of(side, constraint);
            self.lemma_reaching(side, price, few);
            assert(levels.take(count as int).drop_last() =~= levels.take(few as int));
            assert(levels.take(count as int).last() == levels[count - 1]);
            assert(queue_ok(orders, queue, side, constraint));
            lemma_queue_spells(orders, queue, side, constraint);
            if reaches(side, limit, price) {
                lemma_sum_joined(leaves(orders), rest, part);
                assert forall|i: int, j: int| 0 <= i < j < ids.len() implies #[trigger] ids[i]
                    != #[trigger] ids[j] by {
                    if j < rest.len() {
                        assert(rest[i] != rest[j]);
                    } else if i >= rest.len() {
                        assert(part[i - rest.len()] != part[j - rest.len()]);
                    } else {
                        assert(rest.contains(rest[i]));
                        assert(self.reached(side, price, few, rest[i]));
                        assert(in_queue(orders, part[j - rest.len()], side, constraint));
                    }
                }
                assert forall|id: OrderId| #[trigger] ids.contains(id) <==> self.reached(
                    side,
                    price,
                    count,
                    id,
                ) by {
                    if ids.contains(id) {
                        let i = choose|i: int| 0 <= i < ids.len() && ids[i] == id;
                        if i < rest.len() {
                            assert(rest[i] == id);
                            assert(rest.contains(id));
                            assert(self.reached(side, price, few, id));
                        } else {
                            assert(part[i - rest.len()] == id);
                            assert(in_queue(orders, part[i - rest.len()], side, constraint));
                            assert(self.rank_price(side, count - 1) == limit);
                        }
                    }
                    if self.reached(side, price, count, id) {
                        if self.reached(side, price, few, id) {
                            assert(rest.contains(id));
                            let i = choose|i: int| 0 <= i < rest.len() && rest[i] == id;
                            assert(ids[i] == id);
                        } else {
                            assert(in_queue(orders, id, side, constraint));
                            assert(part.contains(id));
                            let i = choose|i: int| 0 <= i < part.len() && part[i] == id;
                            assert(ids[rest.len() + i] == id);
                        }
                    }
                }
            } else {
                assert(ids =~= rest);
                assert forall|id: OrderId| #[trigger] ids.contains(id) <==> self.reached(
                    side,
                    price,
                    count,
                    id,
                ) by {
                    assert(rest.contains(id) <==> self.reached(side, price, few, id));
                }
            }
        }
    }

    /// Orders that are eligible at a price add up to the interest that discovery
    /// sees at it.
    proof fn lemma_interest(&self, side: Side, price: Price)
        requires
            self.wf(),
        ensures
            eligible_lots(side_orders(self.active(), side), side, price) == self.market_of(
                side,
            ).total_quantity + reaching_quantity(side, self.level_list(side), price),
    {
        let orders = self.orders@;
        let list = side_orders(self.active(), side);
        let levels = self.level_list(side);
        let ids = self.reaching_ids(side, price, levels.len());
        self.lemma_sides_listed();
        self.lemma_reaching(side, price, levels.len());
        self.lemma_levels(side);
        lemma_side_distinct(self.active(), side, list);
        lemma_eligible_ids(self, side, price, list, list.len());
        let picked = eligible_ids(list, side, price, list.len());
        assert(levels.take(levels.len() as int) =~= levels);
        assert(list.take(list.len() as int) =~= list);
        assert forall|id: OrderId| picked.contains(id) <==> ids.contains(id) by {
            if picked.contains(id) {
                let i = choose|i: int|
                    0 <= i < list.len() && (#[trigger] list[i]).order_id == id && eligible(
                        list[i],
                        side,
                        price,
                    );
                assert(self.active().dom().contains(list[i].order_id));
                if let AuctionOrderConstraint::Limit(limit) = orders[id].constraint {
                    let constraint = AuctionOrderConstraint::Limit(limit);
                    let queue = self.queue_of(side, constraint);
                    assert(queue_ok(orders, queue, side, constraint));
                    lemma_queue_spells(orders, queue, side, constraint);
                    assert(in_queue(orders, id, side, constraint));
                    assert(self.level_map(side).dom().contains(limit));
                }
                assert(self.reached(side, price, levels.len(), id));
            }
            if ids.contains(id) {
                assert(self.reached(side, price, levels.len(), id));
                assert(self.active().dom().contains(id) && self.active()[id].side == side);
                let i = choose|i: int| 0 <= i < list.len() && (#[trigger] list[i]).order_id == id;
                assert(eligible(list[i], side, price));
            }
        }
        lemma_sum_permuted(leaves(orders), leaves(orders), picked, ids);
    }

    /// The demand that discovery sees at a price is the quantity of the active buy
    /// orders that accept it, and supply that of the active sell orders.
    pub proof fn law_interest_counts_orders(&self, price: Price)
        requires
            self.wf(),
        ensures
            canonical_side(self.active(), Side::Buy, side_orders(self.active(), Side::Buy)),
            canonical_side(self.active(), Side::Sell, side_orders(self.active(), Side::Sell)),
            demand_at(self.level_list(Side::Buy), self.market_interest(), price) == eligible_lots(
                side_orders(self.active(), Side::Buy),
                Side::Buy,
                price,
            ),
            supply_at(self.level_list(Side::Sell), self.market_interest(), price) == eligible_lots(
                side_orders(self.active(), Side::Sell),
                Side::Sell,
                price,
            ),
    {
        self.lemma_sides_listed();
        self.lemma_interest(Side::Buy, price);
        self.lemma_interest(Side::Sell, price);
    }

    /// A clearing that discovery finds in the current interest can be allocated
    /// under every policy: allocation never refuses what the book has just
    /// observed of itself.
    pub proof fn law_observed_clearing_allocates(
        &self,
        band: AuctionPriceBand,
        reference: Price,
        price_policy: AuctionPricePolicy,
        clearing: AuctionClearing,
        policy: AuctionAllocationPolicy,
    )
        requires
            self.wf(),
            self.clearing_discovered(band, reference, price_policy, Ok(Some(clearing))),
        ensures
            self.clearing_fault(clearing, policy) is None,
    {
        let price = clearing.price;
        let buys = side_orders(self.active(), Side::Buy);
        let sells = side_orders(self.active(), Side::Sell);
        let increment = self.definition.quantity.increment;
        let bids = self.level_list(Side::Buy);
        let asks = self.level_list(Side::Sell);
        let market = self.market_interest();
        self.lemma_sides_listed();
        self.lemma_interest(Side::Buy, price);
        self.lemma_interest(Side::Sell, price);
        lemma_above_bounded(bids, price);
        lemma_below_bounded(asks, price);
        assert(demand_at(bids, market, price) == eligible_lots(buys, Side::Buy, price));
        assert(supply_at(asks, market, price) == eligible_lots(sells, Side::Sell, price));
        lemma_side_bounded(self, Side::Buy, buys);
        lemma_side_bounded(self, Side::Sell, sells);
        self.lemma_side_lots(Side::Buy, buys);
        self.lemma_side_lots(Side::Sell, sells);
        self.lemma_side_ordered(Side::Buy, price, buys.len());
        self.lemma_side_ordered(Side::Sell, price, sells.len());
        lemma_quantum_kept(buys, Side::Buy, increment, buys.len());
        lemma_quantum_kept(sells, Side::Sell, increment, sells.len());
    }

    /// An uncross of what the book has just observed of itself is prepared unless
    /// its revision or its buffers are exhausted or its pairs cannot be settled:
    /// neither observation nor allocation refuses it.
    pub proof fn law_observed_uncross_reaches_pairing(
        &self,
        band: AuctionPriceBand,
        reference: Price,
        price_policy: AuctionPricePolicy,
        clearing: AuctionClearing,
        policy: CallAuctionUncrossPolicy,
    )
        requires
            self.wf(),
            self.clearing_discovered(band, reference, price_policy, Ok(Some(clearing))),
        ensures
            self.prepare_fault(self.observed(clearing), policy) == (if self.state_revision
                == u64::MAX {
                Some(CallAuctionPrepareError::StateRevisionExhausted)
            } else if self.uncross_pool.available@.len() == 0 {
                Some(
                    CallAuctionPrepareError::PreparationCapacityExhausted {
                        maximum: self.limits.prepared_uncrosses,
                    },
                )
            } else {
                self.pairing_fault(
                    self.clearing_pairs(clearing, policy.allocation),
                    policy.self_trade,
                )
            }),
    {
        self.law_observed_clearing_allocates(
            band,
            reference,
            price_policy,
            clearing,
            policy.allocation,
        );
    }

    /// No order of a side has a fault, as long as eligible quantity fits.
    proof fn lemma_side_ordered(&self, side: Side, price: Price, count: nat)
        requires
            self.wf(),
            canonical_side(self.active(), side, side_orders(self.active(), side)),
            count <= side_orders(self.active(), side).len(),
            eligible_lots(side_orders(self.active(), side), side, price) <= u128::MAX,
        ensures
            first_order_fault(
                side_orders(self.active(), side),
                side,
                self.grid,
                price,
                count,
            ) is None,
        decreases count,
    {
        let list = side_orders(self.active(), side);
        if count > 0 {
            self.lemma_side_ordered(side, price, (count - 1) as nat);
            let order = list[count - 1];
            assert(self.active().dom().contains(order.order_id));
            assert(self.order_ok(order.order_id));
            if count > 1 {
                assert(order_before(list[count - 2], list[count - 1], side));
            }
            lemma_eligible_prefix(list, side, price, count as int);
            assert(order_fault(list, side, self.grid, price, count - 1) is None);
        }
    }
}

impl CallAuctionEngine {
    /// An engine never refuses an uncross because the clearing that it has just
    /// discovered is stale, foreign or cannot be allocated.
    pub proof fn law_uncross_passes_allocation(&self, uncross: CallAuctionUncrossCommand)
        requires
            self.wf(),
            self.book.clearing_discovered(
                uncross.price_band,
                uncross.reference_price,
                uncross.price_policy,
                self.uncross_clearing(uncross),
            ),
        ensures
            !(self.decide(CallAuctionCommand::Uncross(uncross)) matches Err(
                CallAuctionEngineError::UncrossPreparation(CallAuctionPrepareError::Plan(_)),
            )),
    {
        if let Ok(Some(clearing)) = self.uncross_clearing(uncross) {
            self.book.law_observed_uncross_reaches_pairing(
                uncross.price_band,
                uncross.reference_price,
                uncross.price_policy,
                clearing,
                uncross.uncross_policy,
            );
            lemma_self_trade_only(
                self.book.active(),
                self.book.clearing_pairs(clearing, uncross.uncross_policy.allocation),
                0,
            );
        }
    }
}

/// A forbidden pair is reported as such.
proof fn lemma_self_trade_only(active: ActiveOrders, pairs: Seq<AuctionPair>, index: int)
    ensures
        first_self_trade(active, pairs, index) matches Some(error) ==> error is SelfTradeWouldOccur,
    decreases pairs.len() - index,
{
    if 0 <= index < pairs.len() {
        lemma_self_trade_only(active, pairs, index + 1);
    }
}

/// Identities of the eligible orders among the first `count`.
spec fn eligible_ids(list: Seq<AuctionOrder>, side: Side, price: Price, count: nat) -> Seq<OrderId>
    decreases count,
{
    if count == 0 {
        Seq::empty()
    } else if eligible(list[count - 1], side, price) {
        eligible_ids(list, side, price, (count - 1) as nat).push(list[count - 1].order_id)
    } else {
        eligible_ids(list, side, price, (count - 1) as nat)
    }
}

/// Eligible orders as a list of identities.
proof fn lemma_eligible_ids(
    book: &CallAuctionBook,
    side: Side,
    price: Price,
    list: Seq<AuctionOrder>,
    count: nat,
)
    requires
        canonical_side(book.active(), side, list),
        count <= list.len(),
        forall|i: int, j: int|
            0 <= i < j < list.len() ==> (#[trigger] list[i]).order_id != (
            #[trigger] list[j]).order_id,
    ensures
        ({
            let ids = eligible_ids(list, side, price, count);
            &&& forall|i: int, j: int|
                0 <= i < j < ids.len() ==> #[trigger] ids[i] != #[trigger] ids[j]
            &&& forall|id: OrderId| #[trigger]
                ids.contains(id) <==> exists|i: int|
                    0 <= i < count && (#[trigger] list[i]).order_id == id && eligible(
                        list[i],
                        side,
                        price,
                    )
            &&& member_sum(leaves(book.orders@), ids) == eligible_lots(
                list.take(count as int),
                side,
                price,
            )
        }),
    decreases count,
{
    let ids = eligible_ids(list, side, price, count);
    if count > 0 {
        let few = (count - 1) as nat;
        let rest = eligible_ids(list, side, price, few);
        let order = list[count - 1];
        lemma_eligible_ids(book, side, price, list, few);
        assert(list.take(count as int).drop_last() =~= list.take(few as int));
        assert(list.take(count as int).last() == order);
        assert(book.active().dom().contains(order.order_id));
        if eligible(order, side, price) {
            lemma_sum_push(leaves(book.orders@), rest, order.order_id);
            assert forall|i: int, j: int| 0 <= i < j < ids.len() implies #[trigger] ids[i]
                != #[trigger] ids[j] by {
                if j < rest.len() {
                    assert(rest[i] != rest[j]);
                } else {
                    assert(rest.contains(rest[i]));
                    let k = choose|k: int|
                        0 <= k < few && (#[trigger] list[k]).order_id == rest[i] && eligible(
                            list[k],
                            side,
                            price,
                        );
                    assert(list[k].order_id != list[count - 1].order_id);
                }
            }
        }
        assert forall|id: OrderId| #[trigger] ids.contains(id) <==> exists|i: int|
            0 <= i < count && (#[trigger] list[i]).order_id == id && eligible(
                list[i],
                side,
                price,
            ) by {
            if ids.contains(id) {
                let at = choose|at: int| 0 <= at < ids.len() && ids[at] == id;
                if at < rest.len() {
                    assert(rest[at] == id);
                    assert(rest.contains(id));
                    let i = choose|i: int|
                        0 <= i < few && (#[trigger] list[i]).order_id == id && eligible(
                            list[i],
                            side,
                            price,
                        );
                    assert(list[i].order_id == id);
                } else {
                    assert(list[count - 1].order_id == id);
                }
            }
            if exists|i: int|
                0 <= i < count && (#[trigger] list[i]).order_id == id && eligible(
                    list[i],
                    side,
                    price,
                ) {
                let i = choose|i: int|
                    0 <= i < count && (#[trigger] list[i]).order_id == id && eligible(
                        list[i],
                        side,
                        price,
                    );
                if i < few {
                    assert(rest.contains(id));
                    let at = choose|at: int| 0 <= at < rest.len() && rest[at] == id;
                    assert(ids[at] == id);
                } else {
                    assert(ids[rest.len() as int] == id);
                }
            }
        }
    }
}

/// A prefix holds no more eligible lots than the whole list.
proof fn lemma_eligible_prefix(list: Seq<AuctionOrder>, side: Side, price: Price, count: int)
    requires
        0 <= count <= list.len(),
    ensures
        eligible_lots(list.take(count), side, price) <= eligible_lots(list, side, price),
    decreases list.len() - count,
{
    if count == list.len() {
        assert(list.take(count) =~= list);
    } else {
        lemma_eligible_prefix(list, side, price, count + 1);
        assert(list.take(count + 1).drop_last() =~= list.take(count));
    }
}

/// Orders on the quantum have no quantum fault.
proof fn lemma_quantum_kept(list: Seq<AuctionOrder>, side: Side, quantum: u64, count: nat)
    requires
        quantum > 0,
        quanta_aligned(list, quantum as int),
        count <= list.len(),
    ensures
        first_quantum_fault(list, side, quantum, count) is None,
    decreases count,
{
    if count > 0 {
        lemma_quantum_kept(list, side, quantum, (count - 1) as nat);
        assert(list[count - 1].quantity.lots as int % quantum as int == 0);
    }
}

proof fn lemma_above_bounded(levels: Seq<AuctionLevel>, price: Price)
    ensures
        0 <= quantity_at_or_above(levels, price) <= total_quantity(levels),
    decreases levels.len(),
{
    if levels.len() > 0 {
        lemma_above_bounded(levels.drop_last(), price);
    }
}

proof fn lemma_below_bounded(levels: Seq<AuctionLevel>, price: Price)
    ensures
        0 <= quantity_at_or_below(levels, price) <= total_quantity(levels),
    decreases levels.len(),
{
    if levels.len() > 0 {
        lemma_below_bounded(levels.drop_last(), price);
    }
}

} // verus!
