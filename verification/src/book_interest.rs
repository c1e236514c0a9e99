//! Canonical views of the collected interest: price levels and order lists.

use vstd::prelude::*;

use crate::allocation::{
    law_priority_total, law_priority_transitive, order_before, precedes, AuctionAllocationPolicy,
};
use crate::auction::{
    AuctionClearing, AuctionError, AuctionLevel, AuctionMarketInterest, AuctionOrder,
    AuctionPriceBand, AuctionPricePolicy,
};
use crate::book_state::{CallAuctionBook, RestingAuctionOrder};
use crate::book_types::{CallAuctionIndicative, CallAuctionLevelSnapshot, CallAuctionOrderSnapshot};
use crate::discovery::{
    discover_bounded_clearing_price, discovered, discovery_result, law_discovery_unique,
};
use crate::domain::{OrderId, Price, Side};
use crate::ordered_map::MapKey;

verus! {

/// Active orders by identity.
pub type ActiveOrders = Map<OrderId, CallAuctionOrderSnapshot>;

/// Orders in strictly descending execution priority.
pub open spec fn canonical_list(list: Seq<AuctionOrder>, side: Side) -> bool {
    forall|i: int, j: int|
        0 <= i < j < list.len() ==> #[trigger] order_before(list[i], list[j], side)
}

/// `list` holds exactly the active orders of one side, in execution priority.
pub open spec fn canonical_side(active: ActiveOrders, side: Side, list: Seq<AuctionOrder>) -> bool {
    &&& canonical_list(list, side)
    &&& forall|i: int|
        0 <= i < list.len() ==> {
            let id = (#[trigger] list[i]).order_id;
            &&& active.dom().contains(id)
            &&& active[id].side == side
            &&& list[i] == active[id].auction_order()
        }
    &&& forall|id: OrderId| #[trigger]
        active.dom().contains(id) && active[id].side == side ==> exists|i: int|
            0 <= i < list.len() && (#[trigger] list[i]).order_id == id
}

/// The active orders of one side in execution priority.
pub open spec fn side_orders(active: ActiveOrders, side: Side) -> Seq<AuctionOrder> {
    choose|list: Seq<AuctionOrder>| canonical_side(active, side, list)
}

/// An order never executes before itself.
proof fn lemma_before_irreflexive(order: AuctionOrder, side: Side)
    ensures
        !order_before(order, order, side),
{
}

/// At most one list holds the active orders of a side in execution priority.
pub proof fn lemma_canonical_unique(
    active: ActiveOrders,
    side: Side,
    left: Seq<AuctionOrder>,
    right: Seq<AuctionOrder>,
)
    requires
        canonical_side(active, side, left),
        canonical_side(active, side, right),
    ensures
        left == right,
{
    assert forall|i: int| 0 <= i < left.len() implies right.contains(#[trigger] left[i]) by {
        let id = left[i].order_id;
        let k = choose|k: int| 0 <= k < right.len() && (#[trigger] right[k]).order_id == id;
        assert(right[k] == left[i]);
    }
    assert forall|i: int| 0 <= i < right.len() implies left.contains(#[trigger] right[i]) by {
        let id = right[i].order_id;
        let k = choose|k: int| 0 <= k < left.len() && (#[trigger] left[k]).order_id == id;
        assert(left[k] == right[i]);
    }
    lemma_sorted_unique(left, right, side);
}

proof fn lemma_sorted_unique(left: Seq<AuctionOrder>, right: Seq<AuctionOrder>, side: Side)
    requires
        canonical_list(left, side),
        canonical_list(right, side),
        forall|i: int| 0 <= i < left.len() ==> right.contains(#[trigger] left[i]),
        forall|i: int| 0 <= i < right.len() ==> left.contains(#[trigger] right[i]),
    ensures
        left == right,
    decreases left.len(),
{
    if left.len() == 0 {
        if right.len() > 0 {
            assert(left.contains(right[0]));
        }
        assert(left =~= right);
    } else {
        assert(right.contains(left[0]));
        let a = left.last();
        assert(right.contains(left[left.len() - 1]));
        let b = right.last();
        assert(left.contains(right[right.len() - 1]));
        if a != b {
            let m = choose|m: int| 0 <= m < right.len() && right[m] == a;
            let k = choose|k: int| 0 <= k < left.len() && left[k] == b;
            assert(order_before(right[m], right[right.len() - 1], side));
            assert(order_before(left[k], left[left.len() - 1], side));
            law_priority_transitive(a, b, a, side);
            lemma_before_irreflexive(a, side);
        }
        let l = left.drop_last();
        let r = right.drop_last();
        assert forall|i: int, j: int| 0 <= i < j < l.len() implies #[trigger] order_before(
            l[i],
            l[j],
            side,
        ) by {
            assert(order_before(left[i], left[j], side));
        }
        assert forall|i: int, j: int| 0 <= i < j < r.len() implies #[trigger] order_before(
            r[i],
            r[j],
            side,
        ) by {
            assert(order_before(right[i], right[j], side));
        }
        assert forall|i: int| 0 <= i < l.len() implies r.contains(#[trigger] l[i]) by {
            assert(right.contains(left[i]));
            let k = choose|k: int| 0 <= k < right.len() && right[k] == left[i];
            if k == right.len() - 1 {
                assert(order_before(left[i], left[left.len() - 1], side));
                lemma_before_irreflexive(a, side);
            }
            assert(r[k] == l[i]);
        }
        assert forall|i: int| 0 <= i < r.len() implies l.contains(#[trigger] r[i]) by {
            assert(left.contains(right[i]));
            let k = choose|k: int| 0 <= k < left.len() && left[k] == right[i];
            if k == left.len() - 1 {
                assert(order_before(right[i], right[right.len() - 1], side));
                lemma_before_irreflexive(a, side);
            }
            assert(l[k] == r[i]);
        }
        lemma_sorted_unique(l, r, side);
        assert(left =~= l.push(a));
        assert(right =~= r.push(b));
    }
}

/// Inserts one order at its place of a canonical list.
fn insert_canonical(list: &mut Vec<AuctionOrder>, order: AuctionOrder, side: Side)
    requires
        canonical_list(old(list)@, side),
        forall|i: int| 0 <= i < old(list)@.len() ==> (#[trigger] old(list)@[i]).order_id
            != order.order_id,
    ensures
        canonical_list(final(list)@, side),
        final(list)@.len() == old(list)@.len() + 1,
        forall|i: int|
            0 <= i < old(list)@.len() ==> final(list)@.contains(#[trigger] old(list)@[i]),
        final(list)@.contains(order),
        forall|i: int|
            0 <= i < final(list)@.len() ==> (#[trigger] final(list)@[i]) == order || old(
                list,
            )@.contains(final(list)@[i]),
{
    let ghost before = list@;
    let mut low: usize = 0;
    let mut high: usize = list.len();
    while low < high
        invariant
            list@ == before,
            canonical_list(before, side),
            forall|i: int| 0 <= i < before.len() ==> (#[trigger] before[i]).order_id
                != order.order_id,
            low <= high <= before.len(),
            forall|i: int| 0 <= i < low ==> order_before(#[trigger] before[i], order, side),
            forall|i: int|
                high <= i < before.len() ==> order_before(order, #[trigger] before[i], side),
        decreases high - low,
    {
        let middle: usize = low + (high - low) / 2;
        let earlier = precedes(list[middle], order, side);
        proof {
            law_priority_total(before[middle as int], order, side);
        }
        if earlier {
            proof {
                assert forall|i: int| 0 <= i < middle + 1 implies order_before(
                    #[trigger] before[i],
                    order,
                    side,
                ) by {
                    if i < middle {
                        assert(order_before(before[i], before[middle as int], side));
                        law_priority_transitive(before[i], before[middle as int], order, side);
                    }
                }
            }
            low = middle + 1;
        } else {
            proof {
                assert forall|i: int| middle <= i < before.len() implies order_before(
                    order,
                    #[trigger] before[i],
                    side,
                ) by {
                    if i > middle {
                        assert(order_before(before[middle as int], before[i], side));
                        law_priority_transitive(order, before[middle as int], before[i], side);
                    }
                }
            }
            high = middle;
        }
    }
    list.insert(low, order);
    proof {
        lemma_inserted(before, low as int, order, side);
    }
}

/// Inserting an order behind its predecessors and before its successors keeps
/// the list canonical.
proof fn lemma_inserted(before: Seq<AuctionOrder>, low: int, order: AuctionOrder, side: Side)
    requires
        canonical_list(before, side),
        0 <= low <= before.len(),
        forall|i: int| 0 <= i < low ==> order_before(#[trigger] before[i], order, side),
        forall|i: int| low <= i < before.len() ==> order_before(order, #[trigger] before[i], side),
    ensures
        ({
            let after = before.insert(low, order);
            &&& canonical_list(after, side)
            &&& after.len() == before.len() + 1
            &&& forall|i: int| 0 <= i < before.len() ==> after.contains(#[trigger] before[i])
            &&& after.contains(order)
            &&& forall|i: int|
                0 <= i < after.len() ==> (#[trigger] after[i]) == order || before.contains(after[i])
        }),
{
    let after = before.insert(low, order);
    assert forall|i: int, j: int| 0 <= i < j < after.len() implies #[trigger] order_before(
        after[i],
        after[j],
        side,
    ) by {
        let a = if i < low {
            i
        } else {
            i - 1
        };
        let b = if j < low {
            j
        } else {
            j - 1
        };
        if i == low {
            assert(after[j] == before[b]);
        } else if j == low {
            assert(after[i] == before[a]);
        } else {
            assert(after[i] == before[a] && after[j] == before[b]);
            assert(order_before(before[a], before[b], side));
        }
    }
    assert forall|i: int| 0 <= i < before.len() implies after.contains(#[trigger] before[i]) by {
        if i < low {
            assert(after[i] == before[i]);
        } else {
            assert(after[i + 1] == before[i]);
        }
    }
    assert(after[low] == order);
    assert forall|i: int| 0 <= i < after.len() implies (#[trigger] after[i]) == order
        || before.contains(after[i]) by {
        if i < low {
            assert(before[i] == after[i]);
        } else if i > low {
            assert(before[i - 1] == after[i]);
        }
    }
}

/// Where a new order belongs in a canonical list.
proof fn lemma_place(before: Seq<AuctionOrder>, order: AuctionOrder, side: Side, from: int) -> (low:
    int)
    requires
        canonical_list(before, side),
        forall|i: int| 0 <= i < before.len() ==> (#[trigger] before[i]).order_id != order.order_id,
        0 <= from <= before.len(),
        forall|i: int| 0 <= i < from ==> order_before(#[trigger] before[i], order, side),
    ensures
        0 <= low <= before.len(),
        forall|i: int| 0 <= i < low ==> order_before(#[trigger] before[i], order, side),
        forall|i: int| low <= i < before.len() ==> order_before(order, #[trigger] before[i], side),
    decreases before.len() - from,
{
    if from == before.len() {
        from
    } else {
        law_priority_total(before[from], order, side);
        if order_before(before[from], order, side) {
            lemma_place(before, order, side, from + 1)
        } else {
            assert forall|i: int| from <= i < before.len() implies order_before(
                order,
                #[trigger] before[i],
                side,
            ) by {
                if i > from {
                    assert(order_before(before[from], before[i], side));
                    law_priority_transitive(order, before[from], before[i], side);
                }
            }
            from
        }
    }
}

/// Every prefix of the active orders has a canonical list.
proof fn lemma_prefix_listed(book: &CallAuctionBook, side: Side, count: int) -> (list: Seq<
    AuctionOrder,
>)
    requires
        book.wf(),
        0 <= count <= book.orders.entries@.len(),
    ensures
        holds_prefix(book.orders.entries@, count, side, list),
    decreases count,
{
    let entries = book.orders.entries@;
    if count == 0 {
        Seq::empty()
    } else {
        let index = count - 1;
        let before = lemma_prefix_listed(book, side, index);
        book.orders.lemma_view();
        assert(book.orders@.dom().contains(entries[index].0));
        assert(book.order_ok(entries[index].0));
        lemma_fresh(book, index, side, before);
        if entries[index].1.side == side {
            let order = entries[index].1.visible().auction_order();
            let low = lemma_place(before, order, side, 0);
            lemma_inserted(before, low, order, side);
            let after = before.insert(low, order);
            lemma_prefix_step(entries, index, side, before, after);
            after
        } else {
            lemma_prefix_step(entries, index, side, before, before);
            before
        }
    }
}

/// `list` holds the orders of one side among the first `count` entries.
spec fn holds_prefix(
    entries: Seq<(OrderId, RestingAuctionOrder)>,
    count: int,
    side: Side,
    list: Seq<AuctionOrder>,
) -> bool {
    &&& canonical_list(list, side)
    &&& forall|i: int|
        0 <= i < list.len() ==> exists|e: int|
            0 <= e < count && (#[trigger] entries[e]).0 == (#[trigger] list[i]).order_id
                && entries[e].1.side == side && list[i] == entries[e].1.visible().auction_order()
    &&& forall|e: int|
        0 <= e < count && (#[trigger] entries[e]).1.side == side ==> list.contains(
            entries[e].1.visible().auction_order(),
        )
}

impl CallAuctionBook {
    /// Everything but the reusable scratch is unchanged.
    pub open spec fn same_but_scratch(&self, other: &Self) -> bool {
        &&& self.same_but_counters(other)
        &&& self.next_trade_id == other.next_trade_id
        &&& self.state_revision == other.state_revision
    }

    /// The active orders of each side can be listed in execution priority.
    pub proof fn lemma_sides_listed(&self)
        requires
            self.wf(),
        ensures
            canonical_side(self.active(), Side::Buy, side_orders(self.active(), Side::Buy)),
            canonical_side(self.active(), Side::Sell, side_orders(self.active(), Side::Sell)),
    {
        let count = self.orders.entries@.len() as int;
        let buys = lemma_prefix_listed(self, Side::Buy, count);
        let sells = lemma_prefix_listed(self, Side::Sell, count);
        lemma_prefix_complete(self, Side::Buy, buys);
        lemma_prefix_complete(self, Side::Sell, sells);
    }

    /// Rewrites the canonical order lists of both sides.
    pub(crate) fn rebuild_order_scratch(&mut self)
        requires
            old(self).wf(),
        ensures
            final(self).wf(),
            final(self).same_but_scratch(old(self)),
            final(self).uncross_pool == old(self).uncross_pool,
            final(self).active() == old(self).active(),
            final(self).buy_order_scratch@ == side_orders(old(self).active(), Side::Buy),
            final(self).sell_order_scratch@ == side_orders(old(self).active(), Side::Sell),
            canonical_side(old(self).active(), Side::Buy, final(self).buy_order_scratch@),
            canonical_side(old(self).active(), Side::Sell, final(self).sell_order_scratch@),
    {
        let ghost entry = *self;
        self.buy_order_scratch.clear();
        self.sell_order_scratch.clear();
        let ghost entries = self.orders.entries@;
        proof {
            self.orders.lemma_view();
        }
        let mut index: usize = 0;
        while index < self.orders.len()
            invariant
                entry.wf(),
                self.orders == entry.orders,
                self.same_but_scratch(&entry),
                self.uncross_pool == entry.uncross_pool,
                entries == self.orders.entries@,
                index <= entries.len(),
                holds_prefix(entries, index as int, Side::Buy, self.buy_order_scratch@),
                holds_prefix(entries, index as int, Side::Sell, self.sell_order_scratch@),
            decreases entries.len() - index,
        {
            let order = self.orders.value_at(index);
            let ghost buys = self.buy_order_scratch@;
            let ghost sells = self.sell_order_scratch@;
            proof {
                entry.orders.lemma_view();
                assert(entries[index as int].1 == order);
                assert(entry.orders@.dom().contains(entries[index as int].0));
                assert(entry.order_ok(entries[index as int].0));
                lemma_fresh(&entry, index as int, Side::Buy, buys);
                lemma_fresh(&entry, index as int, Side::Sell, sells);
            }
            match order.side {
                Side::Buy => {
                    insert_canonical(
                        &mut self.buy_order_scratch.values,
                        order.auction_order(),
                        Side::Buy,
                    );
                },
                Side::Sell => {
                    insert_canonical(
                        &mut self.sell_order_scratch.values,
                        order.auction_order(),
                        Side::Sell,
                    );
                },
            }
            proof {
                lemma_prefix_step(
                    entries,
                    index as int,
                    Side::Buy,
                    buys,
                    self.buy_order_scratch@,
                );
                lemma_prefix_step(
                    entries,
                    index as int,
                    Side::Sell,
                    sells,
                    self.sell_order_scratch@,
                );
            }
            index += 1;
        }
        proof {
            self.lemma_counters(&entry);
            lemma_prefix_complete(&entry, Side::Buy, self.buy_order_scratch@);
            lemma_prefix_complete(&entry, Side::Sell, self.sell_order_scratch@);
        }
    }

    /// Aggregate levels of one side, best first.
    pub open spec fn level_list(&self, side: Side) -> Seq<AuctionLevel> {
        self.best_depth(side).map_values(
            |level: CallAuctionLevelSnapshot|
                AuctionLevel { price: level.price, quantity: level.quantity },
        )
    }

    /// Market interest of both sides.
    pub open spec fn market_interest(&self) -> AuctionMarketInterest {
        AuctionMarketInterest {
            buy_quantity: self.market_buys.total_quantity,
            sell_quantity: self.market_sells.total_quantity,
        }
    }

    /// Rewrites the aggregate levels of both sides.
    fn rebuild_level_scratch(&mut self)
        requires
            old(self).wf(),
        ensures
            final(self).wf(),
            final(self).same_but_scratch(old(self)),
            final(self).uncross_pool == old(self).uncross_pool,
            final(self).active() == old(self).active(),
            final(self).bid_level_scratch@ == old(self).level_list(Side::Buy),
            final(self).ask_level_scratch@ == old(self).level_list(Side::Sell),
    {
        let ghost entry = *self;
        let ghost bid_list = self.level_list(Side::Buy);
        let ghost ask_list = self.level_list(Side::Sell);
        self.bid_level_scratch.clear();
        let count: usize = self.bids.len();
        while self.bid_level_scratch.len() < count
            invariant
                self.same_but_scratch(&entry),
                self.uncross_pool == entry.uncross_pool,
                count == self.bids.entries@.len(),
                bid_list == entry.level_list(Side::Buy),
                self.bid_level_scratch@.len() <= count,
                self.bid_level_scratch@ == bid_list.take(self.bid_level_scratch@.len() as int),
            decreases count - self.bid_level_scratch@.len(),
        {
            let position: usize = count - 1 - self.bid_level_scratch.len();
            let price = self.bids.key_at(position);
            let queue = self.bids.value_at(position);
            proof {
                let n = self.bid_level_scratch@.len();
                assert(bid_list.take((n + 1) as int) =~= bid_list.take(n as int).push(
                    bid_list[n as int],
                ));
            }
            self.bid_level_scratch.push(AuctionLevel { price, quantity: queue.total_quantity });
        }
        self.ask_level_scratch.clear();
        let ask_count: usize = self.asks.len();
        while self.ask_level_scratch.len() < ask_count
            invariant
                self.same_but_scratch(&entry),
                self.uncross_pool == entry.uncross_pool,
                self.bid_level_scratch@ == bid_list.take(count as int),
                ask_count == self.asks.entries@.len(),
                ask_list == entry.level_list(Side::Sell),
                self.ask_level_scratch@.len() <= ask_count,
                self.ask_level_scratch@ == ask_list.take(self.ask_level_scratch@.len() as int),
            decreases ask_count - self.ask_level_scratch@.len(),
        {
            let position: usize = self.ask_level_scratch.len();
            let price = self.asks.key_at(position);
            let queue = self.asks.value_at(position);
            proof {
                let n = self.ask_level_scratch@.len();
                assert(ask_list.take((n + 1) as int) =~= ask_list.take(n as int).push(
                    ask_list[n as int],
                ));
            }
            self.ask_level_scratch.push(AuctionLevel { price, quantity: queue.total_quantity });
        }
        proof {
            assert(bid_list.take(count as int) =~= bid_list);
            assert(ask_list.take(ask_count as int) =~= ask_list);
            self.lemma_counters(&entry);
        }
    }

    /// Computes one indicative clearing result from current active interest.
    ///
    /// Limit prices outside a caller-selected dynamic band remain in the book
    /// and receive the bounded eligibility semantics of
    /// [`discover_bounded_clearing_price`].
    pub fn indicative_clearing(
        &mut self,
        price_band: AuctionPriceBand,
        reference_price: Price,
        policy: AuctionPricePolicy,
    ) -> (r: Result<Option<CallAuctionIndicative>, AuctionError>)
        requires
            old(self).wf(),
        ensures
            final(self).wf(),
            final(self).same_but_scratch(old(self)),
            final(self).uncross_pool == old(self).uncross_pool,
            final(self).active() == old(self).active(),
            r == match old(self).discovered_clearing(price_band, reference_price, policy) {
                Err(error) => Err(error),
                Ok(None) => Ok(None),
                Ok(Some(clearing)) => Ok(Some(old(self).observed(clearing))),
            },
            old(self).clearing_discovered(
                price_band,
                reference_price,
                policy,
                old(self).discovered_clearing(price_band, reference_price, policy),
            ),
            r matches Ok(Some(indicative)) ==> indicative.clearing.wf(),
            r matches Ok(Some(indicative)) ==> forall|allocation: AuctionAllocationPolicy| #[trigger]
                old(self).clearing_fault(indicative.clearing, allocation) is None,
    {
        self.rebuild_level_scratch();
        let market = AuctionMarketInterest::new(
            self.market_buys.total_quantity,
            self.market_sells.total_quantity,
        );
        let outcome = discover_bounded_clearing_price(
            self.bid_level_scratch.as_slice(),
            self.ask_level_scratch.as_slice(),
            market,
            self.grid,
            price_band,
            reference_price,
            policy,
        );
        proof {
            let found = old(self).discovered_clearing(price_band, reference_price, policy);
            assert(old(self).clearing_discovered(price_band, reference_price, policy, outcome));
            law_discovery_unique(
                old(self).level_list(Side::Buy),
                old(self).level_list(Side::Sell),
                old(self).market_interest(),
                old(self).grid,
                price_band,
                reference_price,
                policy,
                outcome,
                found,
            );
            if let Ok(Some(clearing)) = outcome {
                assert forall|allocation: AuctionAllocationPolicy| #[trigger]
                    old(self).clearing_fault(clearing, allocation) is None by {
                    old(self).law_observed_clearing_allocates(
                        price_band,
                        reference_price,
                        policy,
                        clearing,
                        allocation,
                    );
                }
            }
        }
        match outcome {
            Err(error) => Err(error),
            Ok(None) => Ok(None),
            Ok(Some(clearing)) => Ok(
                Some(
                    CallAuctionIndicative {
                        book_instance_id: self.instance_id,
                        state_revision: self.state_revision,
                        clearing,
                    },
                ),
            ),
        }
    }

    /// The clearing of this book's current interest.
    pub open spec fn discovered_clearing(
        &self,
        band: AuctionPriceBand,
        reference: Price,
        policy: AuctionPricePolicy,
    ) -> Result<Option<AuctionClearing>, AuctionError> {
        discovered(
            self.level_list(Side::Buy),
            self.level_list(Side::Sell),
            self.market_interest(),
            self.grid,
            band,
            reference,
            policy,
        )
    }

    /// Whether an outcome is what discovery finds for this book's current interest.
    pub open spec fn clearing_discovered(
        &self,
        band: AuctionPriceBand,
        reference: Price,
        policy: AuctionPricePolicy,
        result: Result<Option<AuctionClearing>, AuctionError>,
    ) -> bool {
        discovery_result(
            self.level_list(Side::Buy),
            self.level_list(Side::Sell),
            self.market_interest(),
            self.grid,
            band,
            reference,
            policy,
            result,
        )
    }

    /// An observation of this book at its current revision.
    pub open spec fn observed(&self, clearing: AuctionClearing) -> CallAuctionIndicative {
        CallAuctionIndicative {
            book_instance_id: self.instance_id,
            state_revision: self.state_revision,
            clearing,
        }
    }
}

/// The next entry is not yet in a prefix list.
proof fn lemma_fresh(
    book: &CallAuctionBook,
    index: int,
    side: Side,
    list: Seq<AuctionOrder>,
)
    requires
        book.wf(),
        0 <= index < book.orders.entries@.len(),
        holds_prefix(book.orders.entries@, index, side, list),
        book.orders.entries@[index].1.order_id == book.orders.entries@[index].0,
    ensures
        forall|i: int|
            0 <= i < list.len() ==> (#[trigger] list[i]).order_id
                != book.orders.entries@[index].1.order_id,
{
    let entries = book.orders.entries@;
    assert forall|i: int| 0 <= i < list.len() implies (#[trigger] list[i]).order_id
        != entries[index].1.order_id by {
        let e = choose|e: int|
            0 <= e < index && (#[trigger] entries[e]).0 == list[i].order_id && entries[e].1.side
                == side && list[i] == entries[e].1.visible().auction_order();
        assert(entries[e].0.rank() < entries[index].0.rank());
    }
}

proof fn lemma_prefix_step(
    entries: Seq<(OrderId, RestingAuctionOrder)>,
    index: int,
    side: Side,
    before: Seq<AuctionOrder>,
    after: Seq<AuctionOrder>,
)
    requires
        0 <= index < entries.len(),
        holds_prefix(entries, index, side, before),
        entries[index].1.order_id == entries[index].0,
        entries[index].1.side != side ==> after == before,
        entries[index].1.side == side ==> {
            let order = entries[index].1.visible().auction_order();
            &&& canonical_list(after, side)
            &&& forall|i: int| 0 <= i < before.len() ==> after.contains(#[trigger] before[i])
            &&& after.contains(order)
            &&& forall|i: int|
                0 <= i < after.len() ==> (#[trigger] after[i]) == order || before.contains(after[i])
        },
    ensures
        holds_prefix(entries, index + 1, side, after),
{
    assert forall|i: int| 0 <= i < after.len() implies exists|e: int|
        0 <= e < index + 1 && (#[trigger] entries[e]).0 == (#[trigger] after[i]).order_id
            && entries[e].1.side == side && after[i] == entries[e].1.visible().auction_order() by {
        if entries[index].1.side == side && after[i] == entries[index].1.visible().auction_order() {
            assert(entries[index].0 == after[i].order_id);
        } else {
            assert(before.contains(after[i]));
            let k = choose|k: int| 0 <= k < before.len() && before[k] == after[i];
            let e = choose|e: int|
                0 <= e < index && (#[trigger] entries[e]).0 == before[k].order_id
                    && entries[e].1.side == side && before[k]
                    == entries[e].1.visible().auction_order();
            assert(entries[e].0 == after[i].order_id);
        }
    }
    assert forall|e: int| 0 <= e < index + 1 && (#[trigger] entries[e]).1.side
        == side implies after.contains(entries[e].1.visible().auction_order()) by {
        if e < index {
            let order = entries[e].1.visible().auction_order();
            assert(before.contains(order));
            let k = choose|k: int| 0 <= k < before.len() && before[k] == order;
            assert(after.contains(before[k]) || after == before);
        }
    }
}

proof fn lemma_prefix_complete(book: &CallAuctionBook, side: Side, list: Seq<AuctionOrder>)
    requires
        book.wf(),
        holds_prefix(book.orders.entries@, book.orders.entries@.len() as int, side, list),
    ensures
        canonical_side(book.active(), side, list),
        side_orders(book.active(), side) == list,
{
    let entries = book.orders.entries@;
    let active = book.active();
    book.orders.lemma_view();
    assert forall|i: int| 0 <= i < list.len() implies {
        let id = (#[trigger] list[i]).order_id;
        &&& active.dom().contains(id)
        &&& active[id].side == side
        &&& list[i] == active[id].auction_order()
    } by {
        let e = choose|e: int|
            0 <= e < entries.len() && (#[trigger] entries[e]).0 == list[i].order_id
                && entries[e].1.side == side && list[i] == entries[e].1.visible().auction_order();
        assert(book.orders@[entries[e].0] == entries[e].1);
    }
    assert forall|id: OrderId| #[trigger] active.dom().contains(id) && active[id].side
        == side implies exists|i: int| 0 <= i < list.len() && (#[trigger] list[i]).order_id == id by {
        let e = choose|e: int| 0 <= e < entries.len() && (#[trigger] entries[e]).0 == id;
        assert(book.orders@[entries[e].0] == entries[e].1);
        assert(book.order_ok(id));
        let order = entries[e].1.visible().auction_order();
        assert(list.contains(order));
        let i = choose|i: int| 0 <= i < list.len() && list[i] == order;
        assert(list[i].order_id == id);
    }
    assert(canonical_side(active, side, list));
    let chosen = side_orders(active, side);
    assert(canonical_side(active, side, chosen));
    lemma_canonical_unique(active, side, chosen, list);
}

} // verus!
