//! Indexes of the collection book and what it means for them to agree.
//!
//! Every active order is threaded into two lists: the queue of its side and
//! constraint, and the list of its account and side. Queues and account lists
//! carry redundant counts and totals. `CallAuctionBook::wf` states that all of
//! this agrees with the active orders.

use vstd::prelude::*;

use crate::allocation::{AuctionAllocationPlan, AuctionOrderFill};
use crate::auction::{
    AuctionLevel, AuctionOrder, AuctionOrderConstraint, AuctionPriceBand, AuctionPriceGrid,
    AuctionPriorityClass,
};
use crate::book_types::{
    CallAuctionBookLimits, CallAuctionCancellation, CallAuctionCapacity,
    CallAuctionConstructionError, CallAuctionOrderSnapshot, CallAuctionTrade,
};
use crate::chain::{chain, lemma_walk, member_sum, walk, Link};
use crate::domain::{AccountId, OrderId, Price, Quantity, Side};
use crate::instrument::InstrumentDefinition;
use crate::ordered_map::OrderedMap;
use crate::storage::{try_vector, unrepresentable, Scratch};

verus! {

/// Head, tail and aggregates of one priority queue.
#[derive(Clone, Copy, Debug, PartialEq, Eq, Structural)]
pub struct AuctionQueue {
    /// Oldest order.
    pub head: Option<OrderId>,
    /// Newest order.
    pub tail: Option<OrderId>,
    /// Sum of leaves.
    pub total_quantity: u128,
    /// Number of orders.
    pub order_count: u64,
}

/// A queue without orders.
pub open spec fn empty_queue() -> AuctionQueue {
    AuctionQueue { head: None, tail: None, total_quantity: 0, order_count: 0 }
}

impl Default for AuctionQueue {
    fn default() -> (r: Self)
        ensures
            r == empty_queue(),
    {
        AuctionQueue { head: None, tail: None, total_quantity: 0, order_count: 0 }
    }
}

/// Head, tail and aggregates of one account on one side.
#[derive(Clone, Copy, Debug, PartialEq, Eq, Structural)]
pub struct AuctionAccountSideIndex {
    /// Oldest order.
    pub head: Option<OrderId>,
    /// Newest order.
    pub tail: Option<OrderId>,
    /// Number of orders.
    pub order_count: usize,
    /// Sum of leaves.
    pub total_quantity: u128,
}

/// An account side without orders.
pub open spec fn empty_side() -> AuctionAccountSideIndex {
    AuctionAccountSideIndex { head: None, tail: None, order_count: 0, total_quantity: 0 }
}

impl Default for AuctionAccountSideIndex {
    fn default() -> (r: Self)
        ensures
            r == empty_side(),
    {
        AuctionAccountSideIndex { head: None, tail: None, order_count: 0, total_quantity: 0 }
    }
}

/// Active orders of one account.
#[derive(Clone, Copy, Debug, PartialEq, Eq, Structural)]
pub struct AuctionAccountIndex {
    /// Buy orders.
    pub buys: AuctionAccountSideIndex,
    /// Sell orders.
    pub sells: AuctionAccountSideIndex,
}

impl Default for AuctionAccountIndex {
    fn default() -> (r: Self)
        ensures
            r.buys == empty_side(),
            r.sells == empty_side(),
    {
        AuctionAccountIndex {
            buys: AuctionAccountSideIndex::default(),
            sells: AuctionAccountSideIndex::default(),
        }
    }
}

impl AuctionAccountIndex {
    /// The list of one side.
    pub open spec fn of(self, side: Side) -> AuctionAccountSideIndex {
        match side {
            Side::Buy => self.buys,
            Side::Sell => self.sells,
        }
    }

    /// This index with the list of one side replaced.
    pub open spec fn with(self, side: Side, index: AuctionAccountSideIndex) -> Self {
        match side {
            Side::Buy => AuctionAccountIndex { buys: index, ..self },
            Side::Sell => AuctionAccountIndex { sells: index, ..self },
        }
    }

    /// Neither side holds an order.
    pub open spec fn vacant(self) -> bool {
        self.buys.order_count == 0 && self.sells.order_count == 0
    }

    /// Returns the list of one side.
    pub(crate) fn side(self, side: Side) -> (r: AuctionAccountSideIndex)
        ensures
            r == self.of(side),
    {
        match side {
            Side::Buy => self.buys,
            Side::Sell => self.sells,
        }
    }

    /// Replaces the list of one side.
    pub(crate) fn set_side(&mut self, side: Side, index: AuctionAccountSideIndex)
        ensures
            *final(self) == old(self).with(side, index),
    {
        match side {
            Side::Buy => {
                self.buys = index;
            },
            Side::Sell => {
                self.sells = index;
            },
        }
    }

    /// Returns whether neither side holds an order.
    pub(crate) fn is_empty(self) -> (r: bool)
        ensures
            r == self.vacant(),
    {
        self.buys.order_count == 0 && self.sells.order_count == 0
    }
}

/// One active order with its list links.
#[derive(Clone, Copy, Debug, PartialEq, Eq, Structural)]
pub struct RestingAuctionOrder {
    /// Order identifier.
    pub order_id: OrderId,
    /// Owner account.
    pub account_id: AccountId,
    /// Side.
    pub side: Side,
    /// Market or limit constraint.
    pub constraint: AuctionOrderConstraint,
    /// Leaves.
    pub quantity: Quantity,
    /// Priority tier.
    pub priority_class: AuctionPriorityClass,
    /// Admission sequence.
    pub priority_sequence: u64,
    /// Queue neighbour before this order.
    pub previous: Option<OrderId>,
    /// Queue neighbour after this order.
    pub next: Option<OrderId>,
    /// Account neighbour before this order.
    pub account_previous: Option<OrderId>,
    /// Account neighbour after this order.
    pub account_next: Option<OrderId>,
}

impl RestingAuctionOrder {
    /// The visible part of the order.
    pub open spec fn visible(self) -> CallAuctionOrderSnapshot {
        CallAuctionOrderSnapshot {
            order_id: self.order_id,
            account_id: self.account_id,
            side: self.side,
            constraint: self.constraint,
            quantity: self.quantity,
            priority_class: self.priority_class,
            priority_sequence: self.priority_sequence,
        }
    }

    /// Returns the visible part of the order.
    pub(crate) fn snapshot(self) -> (r: CallAuctionOrderSnapshot)
        ensures
            r == self.visible(),
    {
        CallAuctionOrderSnapshot {
            order_id: self.order_id,
            account_id: self.account_id,
            side: self.side,
            constraint: self.constraint,
            quantity: self.quantity,
            priority_class: self.priority_class,
            priority_sequence: self.priority_sequence,
        }
    }

    /// Returns the order as auction allocation sees it.
    pub(crate) fn auction_order(self) -> (r: AuctionOrder)
        ensures
            r == self.visible().auction_order(),
    {
        AuctionOrder {
            order_id: self.order_id,
            constraint: self.constraint,
            quantity: self.quantity,
            priority_class: self.priority_class,
            priority_sequence: self.priority_sequence,
        }
    }
}

/// Active orders by identity.
pub type RestingOrders = Map<OrderId, RestingAuctionOrder>;

/// Queue links of every active order.
pub open spec fn queue_links(orders: RestingOrders) -> Map<OrderId, Link> {
    orders.map_values(
        |order: RestingAuctionOrder| Link { previous: order.previous, next: order.next },
    )
}

/// Account links of every active order.
pub open spec fn account_links(orders: RestingOrders) -> Map<OrderId, Link> {
    orders.map_values(
        |order: RestingAuctionOrder|
            Link { previous: order.account_previous, next: order.account_next },
    )
}

/// Leaves of every active order.
pub open spec fn leaves(orders: RestingOrders) -> Map<OrderId, int> {
    orders.map_values(|order: RestingAuctionOrder| order.quantity.lots as int)
}

/// Whether an order belongs to the queue of one side and constraint.
pub open spec fn in_queue(
    orders: RestingOrders,
    id: OrderId,
    side: Side,
    constraint: AuctionOrderConstraint,
) -> bool {
    orders.dom().contains(id) && orders[id].side == side && orders[id].constraint == constraint
}

/// Whether an order belongs to the list of one account and side.
pub open spec fn in_account(
    orders: RestingOrders,
    id: OrderId,
    account: AccountId,
    side: Side,
) -> bool {
    orders.dom().contains(id) && orders[id].side == side && orders[id].account_id == account
}

/// Admission sequences rise along the list.
#[verifier::opaque]
pub open spec fn ascending(orders: RestingOrders, ids: Seq<OrderId>) -> bool {
    forall|i: int, j: int|
        0 <= i < j < ids.len() ==> orders[#[trigger] ids[i]].priority_sequence < orders[
        #[trigger] ids[j]].priority_sequence
}

/// The queue lists exactly `ids`, in ascending admission sequence, and its
/// aggregates agree with them.
pub open spec fn queue_spells(
    orders: RestingOrders,
    queue: AuctionQueue,
    side: Side,
    constraint: AuctionOrderConstraint,
    ids: Seq<OrderId>,
) -> bool {
    &&& chain(queue_links(orders), ids, queue.head, queue.tail)
    &&& queue.order_count == ids.len()
    &&& queue.total_quantity == member_sum(leaves(orders), ids)
    &&& forall|i: int|
        0 <= i < ids.len() ==> in_queue(orders, #[trigger] ids[i], side, constraint)
    &&& ascending(orders, ids)
    &&& forall|id: OrderId| #[trigger] in_queue(orders, id, side, constraint) ==> ids.contains(id)
}

/// The account list holds exactly `ids` and its aggregates agree with them.
pub open spec fn account_spells(
    orders: RestingOrders,
    index: AuctionAccountSideIndex,
    account: AccountId,
    side: Side,
    ids: Seq<OrderId>,
) -> bool {
    &&& chain(account_links(orders), ids, index.head, index.tail)
    &&& index.order_count == ids.len()
    &&& index.total_quantity == member_sum(leaves(orders), ids)
    &&& forall|i: int| 0 <= i < ids.len() ==> in_account(orders, #[trigger] ids[i], account, side)
    &&& forall|id: OrderId| #[trigger] in_account(orders, id, account, side) ==> ids.contains(id)
}

/// Members of a queue from head to tail.
pub open spec fn queue_ids(orders: RestingOrders, queue: AuctionQueue) -> Seq<OrderId> {
    walk(queue_links(orders), queue.head, queue.order_count as nat)
}

/// Members of an account list from head to tail.
pub open spec fn account_ids(orders: RestingOrders, index: AuctionAccountSideIndex) -> Seq<
    OrderId,
> {
    walk(account_links(orders), index.head, index.order_count as nat)
}

/// The queue agrees with the active orders of its side and constraint.
#[verifier::opaque]
pub open spec fn queue_ok(
    orders: RestingOrders,
    queue: AuctionQueue,
    side: Side,
    constraint: AuctionOrderConstraint,
) -> bool {
    queue_spells(orders, queue, side, constraint, queue_ids(orders, queue))
}

/// The account list agrees with the active orders of its account and side.
#[verifier::opaque]
pub open spec fn account_ok(
    orders: RestingOrders,
    index: AuctionAccountSideIndex,
    account: AccountId,
    side: Side,
) -> bool {
    account_spells(orders, index, account, side, account_ids(orders, index))
}

/// A queue that lists some members agrees with the active orders.
pub proof fn lemma_queue_ok(
    orders: RestingOrders,
    queue: AuctionQueue,
    side: Side,
    constraint: AuctionOrderConstraint,
    ids: Seq<OrderId>,
)
    requires
        queue_spells(orders, queue, side, constraint, ids),
    ensures
        queue_ok(orders, queue, side, constraint),
        queue_ids(orders, queue) == ids,
{
    reveal(queue_ok);
    lemma_walk(queue_links(orders), ids, queue.head, queue.tail);
}

/// An account list that holds some members agrees with the active orders.
pub proof fn lemma_account_ok(
    orders: RestingOrders,
    index: AuctionAccountSideIndex,
    account: AccountId,
    side: Side,
    ids: Seq<OrderId>,
)
    requires
        account_spells(orders, index, account, side, ids),
    ensures
        account_ok(orders, index, account, side),
        account_ids(orders, index) == ids,
{
    reveal(account_ok);
    lemma_walk(account_links(orders), ids, index.head, index.tail);
}

/// Reusable vectors of one uncross preparation.
#[derive(Debug)]
pub struct CallAuctionUncrossBuffers {
    /// Allocation plan.
    pub plan: AuctionAllocationPlan,
    /// Counterparty pairs.
    pub trades: Vec<CallAuctionTrade>,
    /// Remainder cancellations.
    pub cancellations: Vec<CallAuctionCancellation>,
}

impl CallAuctionUncrossBuffers {
    /// Joins reserved vectors, or names the first that could not be reserved.
    pub(crate) fn from_reserved(
        buy_fills: Option<Vec<AuctionOrderFill>>,
        sell_fills: Option<Vec<AuctionOrderFill>>,
        trades: Option<Vec<CallAuctionTrade>>,
        cancellations: Option<Vec<CallAuctionCancellation>>,
    ) -> (r: Result<Self, CallAuctionCapacity>)
        requires
            buy_fills matches Some(values) ==> values@.len() == 0,
            sell_fills matches Some(values) ==> values@.len() == 0,
            trades matches Some(values) ==> values@.len() == 0,
            cancellations matches Some(values) ==> values@.len() == 0,
        ensures
            match r {
                Ok(buffers) => {
                    &&& buy_fills is Some && sell_fills is Some
                    &&& trades is Some && cancellations is Some
                    &&& buffers.plan.clearing.wf()
                    &&& buffers.plan.buy_fills@.len() == 0
                    &&& buffers.plan.sell_fills@.len() == 0
                    &&& buffers.trades@.len() == 0
                    &&& buffers.cancellations@.len() == 0
                },
                Err(capacity) => if buy_fills is None {
                    capacity == CallAuctionCapacity::UncrossBuyFills
                } else if sell_fills is None {
                    capacity == CallAuctionCapacity::UncrossSellFills
                } else if trades is None {
                    capacity == CallAuctionCapacity::UncrossTrades
                } else {
                    cancellations is None && capacity == CallAuctionCapacity::UncrossCancellations
                },
            },
    {
        let buy_fills = match buy_fills {
            Some(values) => values,
            None => {
                return Err(CallAuctionCapacity::UncrossBuyFills);
            },
        };
        let sell_fills = match sell_fills {
            Some(values) => values,
            None => {
                return Err(CallAuctionCapacity::UncrossSellFills);
            },
        };
        let trades = match trades {
            Some(values) => values,
            None => {
                return Err(CallAuctionCapacity::UncrossTrades);
            },
        };
        let cancellations = match cancellations {
            Some(values) => values,
            None => {
                return Err(CallAuctionCapacity::UncrossCancellations);
            },
        };
        Ok(
            CallAuctionUncrossBuffers {
                plan: AuctionAllocationPlan::with_fill_storage(buy_fills, sell_fills),
                trades,
                cancellations,
            },
        )
    }

    /// Creates empty vectors with room for `maximum_orders` entries each.
    pub(crate) fn try_new(maximum_orders: usize) -> (r: Result<Self, CallAuctionConstructionError>)
        ensures
            maximum_orders == 0 ==> r is Ok,
            unrepresentable::<AuctionOrderFill>(maximum_orders as int) ==> r
                == Err::<Self, CallAuctionConstructionError>(
                CallAuctionConstructionError::CapacityReservationFailed(
                    CallAuctionCapacity::UncrossBuyFills,
                ),
            ),
            unrepresentable::<CallAuctionTrade>(maximum_orders as int) ==> r is Err,
            unrepresentable::<CallAuctionCancellation>(maximum_orders as int) ==> r is Err,
            match r {
                Ok(buffers) => {
                    &&& buffers.plan.clearing.wf()
                    &&& buffers.plan.buy_fills@.len() == 0
                    &&& buffers.plan.sell_fills@.len() == 0
                    &&& buffers.trades@.len() == 0
                    &&& buffers.cancellations@.len() == 0
                },
                Err(error) => error matches CallAuctionConstructionError::CapacityReservationFailed(
                    capacity,
                ) && uncross_vector(capacity),
            },
    {
        match Self::from_reserved(
            try_uncross_vector(maximum_orders, CallAuctionCapacity::UncrossBuyFills).ok(),
            try_uncross_vector(maximum_orders, CallAuctionCapacity::UncrossSellFills).ok(),
            try_uncross_vector(maximum_orders, CallAuctionCapacity::UncrossTrades).ok(),
            try_uncross_vector(maximum_orders, CallAuctionCapacity::UncrossCancellations).ok(),
        ) {
            Ok(buffers) => Ok(buffers),
            Err(capacity) => Err(
                CallAuctionConstructionError::CapacityReservationFailed(capacity),
            ),
        }
    }

    /// Empties every vector and keeps its storage.
    pub(crate) fn reset(&mut self)
        ensures
            final(self).plan.clearing.wf(),
            final(self).plan.buy_fills@.len() == 0,
            final(self).plan.sell_fills@.len() == 0,
            final(self).trades@.len() == 0,
            final(self).cancellations@.len() == 0,
    {
        self.plan.clear_reusable();
        self.trades.clear();
        self.cancellations.clear();
    }
}

/// A vector of an uncross buffer set.
pub open spec fn uncross_vector(capacity: CallAuctionCapacity) -> bool {
    ||| capacity == CallAuctionCapacity::UncrossBuyFills
    ||| capacity == CallAuctionCapacity::UncrossSellFills
    ||| capacity == CallAuctionCapacity::UncrossTrades
    ||| capacity == CallAuctionCapacity::UncrossCancellations
}

/// Creates an empty vector with room for `maximum` entries.
///
/// No room is always granted, and room that no vector can hold is always refused.
/// Otherwise the allocator decides.
pub fn try_uncross_vector<T>(maximum: usize, capacity: CallAuctionCapacity) -> (r: Result<
    Vec<T>,
    CallAuctionConstructionError,
>)
    ensures
        maximum == 0 ==> r is Ok,
        unrepresentable::<T>(maximum as int) ==> r is Err,
        match r {
            Ok(values) => values@ == Seq::<T>::empty(),
            Err(error) => error == CallAuctionConstructionError::CapacityReservationFailed(
                capacity,
            ),
        },
{
    match try_vector(maximum) {
        Some(values) => Ok(values),
        None => Err(CallAuctionConstructionError::CapacityReservationFailed(capacity)),
    }
}

/// Buffer sets that are not leased to a preparation or a result.
#[derive(Debug)]
pub struct CallAuctionUncrossPool {
    /// Unleased sets.
    pub available: Vec<CallAuctionUncrossBuffers>,
    /// Number of sets that exist.
    pub capacity: usize,
    /// Reserved entries in each vector of a set.
    pub buffer_capacity: usize,
}

impl CallAuctionUncrossPool {
    /// No more sets are available than exist.
    pub open spec fn wf(self) -> bool {
        self.available@.len() <= self.capacity
    }

    /// Two pools hold equally many sets of equal size.
    pub open spec fn same_counts(self, other: Self) -> bool {
        &&& self.available@.len() == other.available@.len()
        &&& self.capacity == other.capacity
        &&& self.buffer_capacity == other.buffer_capacity
    }

    /// Creates `capacity` sets with room for `maximum_orders` entries each.
    ///
    /// No set is always granted, and more sets than a vector can hold are always
    /// refused. Otherwise the allocator decides.
    pub fn try_new(capacity: usize, maximum_orders: usize) -> (r: Result<
        Self,
        CallAuctionConstructionError,
    >)
        ensures
            capacity == 0 ==> r is Ok,
            unrepresentable::<CallAuctionUncrossBuffers>(capacity as int) ==> r
                == Err::<Self, CallAuctionConstructionError>(
                CallAuctionConstructionError::CapacityReservationFailed(
                    CallAuctionCapacity::PreparedUncrosses,
                ),
            ),
            match r {
                Ok(pool) => {
                    &&& pool.wf()
                    &&& pool.available@.len() == capacity
                    &&& pool.capacity == capacity
                    &&& pool.buffer_capacity == maximum_orders
                },
                Err(error) => error matches CallAuctionConstructionError::CapacityReservationFailed(
                    resource,
                ) && (resource == CallAuctionCapacity::PreparedUncrosses || uncross_vector(
                    resource,
                )),
            },
    {
        let mut available: Vec<CallAuctionUncrossBuffers> = match try_vector(capacity) {
            Some(available) => available,
            None => {
                return Err(
                    CallAuctionConstructionError::CapacityReservationFailed(
                        CallAuctionCapacity::PreparedUncrosses,
                    ),
                );
            },
        };
        while available.len() < capacity
            invariant
                available@.len() <= capacity,
                !unrepresentable::<CallAuctionUncrossBuffers>(capacity as int),
            decreases capacity - available@.len(),
        {
            match CallAuctionUncrossBuffers::try_new(maximum_orders) {
                Ok(buffers) => {
                    available.push(buffers);
                },
                Err(error) => {
                    return Err(error);
                },
            }
        }
        Ok(CallAuctionUncrossPool { available, capacity, buffer_capacity: maximum_orders })
    }

    /// Leases one set.
    pub(crate) fn acquire(&mut self) -> (r: Option<CallAuctionUncrossBuffers>)
        ensures
            final(self).capacity == old(self).capacity,
            final(self).buffer_capacity == old(self).buffer_capacity,
            r is Some <==> old(self).available@.len() > 0,
            final(self).available@.len() == old(self).available@.len() - (if r is Some {
                1int
            } else {
                0int
            }),
    {
        self.available.pop()
    }

    /// Takes one set back.
    pub(crate) fn release(&mut self, buffers: CallAuctionUncrossBuffers)
        requires
            old(self).available@.len() < old(self).capacity,
        ensures
            final(self).capacity == old(self).capacity,
            final(self).buffer_capacity == old(self).buffer_capacity,
            final(self).available@.len() == old(self).available@.len() + 1,
    {
        let mut emptied = buffers;
        emptied.reset();
        self.available.push(emptied);
    }
}

/// Bounded active order state for one call-auction instrument version.
#[derive(Debug)]
pub struct CallAuctionBook {
    /// Identity that binds preparations to this book.
    pub instance_id: u64,
    /// Immutable instrument definition.
    pub definition: InstrumentDefinition,
    /// Finite resource policy.
    pub limits: CallAuctionBookLimits,
    /// Instrument tick grid.
    pub grid: AuctionPriceGrid,
    /// Instrument collar.
    pub instrument_band: AuctionPriceBand,
    /// Active orders.
    pub orders: OrderedMap<OrderId, RestingAuctionOrder>,
    /// Accounts that own an active order.
    pub account_orders: OrderedMap<AccountId, AuctionAccountIndex>,
    /// Identifiers accepted so far.
    pub seen_order_ids: OrderedMap<OrderId, ()>,
    /// Bid queues by limit price.
    pub bids: OrderedMap<Price, AuctionQueue>,
    /// Ask queues by limit price.
    pub asks: OrderedMap<Price, AuctionQueue>,
    /// Market buy queue.
    pub market_buys: AuctionQueue,
    /// Market sell queue.
    pub market_sells: AuctionQueue,
    /// Sequence of the next admitted order.
    pub next_priority_sequence: u64,
    /// Identifier of the next trade.
    pub next_trade_id: u64,
    /// Mutation revision.
    pub state_revision: u64,
    /// Aggregate bids, best first.
    pub bid_level_scratch: Scratch<AuctionLevel>,
    /// Aggregate asks, best first.
    pub ask_level_scratch: Scratch<AuctionLevel>,
    /// Buy orders in canonical priority.
    pub buy_order_scratch: Scratch<AuctionOrder>,
    /// Sell orders in canonical priority.
    pub sell_order_scratch: Scratch<AuctionOrder>,
    /// Uncross buffer sets.
    pub uncross_pool: CallAuctionUncrossPool,
}

impl CallAuctionBook {
    /// Active orders by identity.
    pub open spec fn active(&self) -> Map<OrderId, CallAuctionOrderSnapshot> {
        self.orders@.map_values(|order: RestingAuctionOrder| order.visible())
    }

    /// Identifiers accepted so far.
    pub open spec fn accepted(&self) -> Set<OrderId> {
        self.seen_order_ids@.dom()
    }

    /// Queues by limit price on one side.
    pub open spec fn level_map(&self, side: Side) -> Map<Price, AuctionQueue> {
        match side {
            Side::Buy => self.bids@,
            Side::Sell => self.asks@,
        }
    }

    /// The market queue of one side.
    pub open spec fn market_of(&self, side: Side) -> AuctionQueue {
        match side {
            Side::Buy => self.market_buys,
            Side::Sell => self.market_sells,
        }
    }

    /// The queue of one side and constraint.
    pub open spec fn queue_of(&self, side: Side, constraint: AuctionOrderConstraint) -> AuctionQueue {
        match constraint {
            AuctionOrderConstraint::Market => self.market_of(side),
            AuctionOrderConstraint::Limit(price) => if self.level_map(side).dom().contains(price) {
                self.level_map(side)[price]
            } else {
                empty_queue()
            },
        }
    }

    /// The list of one account and side.
    pub open spec fn account_side(&self, account: AccountId, side: Side) -> AuctionAccountSideIndex {
        if self.account_orders@.dom().contains(account) {
            self.account_orders@[account].of(side)
        } else {
            empty_side()
        }
    }

    /// The configuration is coherent and the counters have started.
    pub open spec fn config_ok(&self) -> bool {
        &&& self.definition.wf()
        &&& self.limits.wf()
        &&& self.grid.wf()
        &&& self.grid.tick_size == self.definition.price.tick_size
        &&& self.instrument_band.minimum == self.definition.price.minimum
        &&& self.instrument_band.maximum == self.definition.price.maximum
        &&& self.grid.aligned(self.instrument_band.minimum)
        &&& self.grid.aligned(self.instrument_band.maximum)
        &&& self.orders.maximum == self.limits.active_orders
        &&& self.account_orders.maximum == self.limits.active_orders
        &&& self.seen_order_ids.maximum == self.limits.accepted_order_ids
        &&& self.bids.maximum == self.limits.price_levels_per_side
        &&& self.asks.maximum == self.limits.price_levels_per_side
        &&& self.uncross_pool.capacity == self.limits.prepared_uncrosses
        &&& self.next_priority_sequence > 0
        &&& self.next_trade_id > 0
    }

    /// Every index is ordered, bounded and backed by its reservation.
    pub open spec fn storage_ok(&self) -> bool {
        &&& self.orders.wf()
        &&& self.account_orders.wf()
        &&& self.seen_order_ids.wf()
        &&& self.bids.wf()
        &&& self.asks.wf()
        &&& self.orders.entries@.len() <= self.limits.active_orders <= self.orders.reserved
        &&& self.account_orders.entries@.len() <= self.limits.active_orders
            <= self.account_orders.reserved
        &&& self.seen_order_ids.entries@.len() <= self.limits.accepted_order_ids
            <= self.seen_order_ids.reserved
        &&& self.bids.entries@.len() <= self.limits.price_levels_per_side <= self.bids.reserved
        &&& self.asks.entries@.len() <= self.limits.price_levels_per_side <= self.asks.reserved
        &&& self.limits.price_levels_per_side <= self.bid_level_scratch.reserved
        &&& self.limits.price_levels_per_side <= self.ask_level_scratch.reserved
        &&& self.limits.active_orders <= self.buy_order_scratch.reserved
        &&& self.limits.active_orders <= self.sell_order_scratch.reserved
        &&& self.uncross_pool.wf()
        &&& self.uncross_pool.buffer_capacity >= self.limits.active_orders
    }

    /// Every queue agrees with the active orders.
    pub open spec fn queues_ok(&self) -> bool {
        forall|side: Side, constraint: AuctionOrderConstraint|
            queue_ok(
                self.orders@,
                #[trigger] self.queue_of(side, constraint),
                side,
                constraint,
            )
    }

    /// Every account list agrees with the active orders, and none is empty.
    pub open spec fn accounts_ok(&self) -> bool {
        &&& forall|account: AccountId, side: Side|
            account_ok(self.orders@, #[trigger] self.account_side(account, side), account, side)
        &&& forall|account: AccountId| #[trigger]
            self.account_orders@.dom().contains(account)
                ==> !self.account_orders@[account].vacant()
    }

    /// Whether one active order satisfies every per-order rule.
    pub open spec fn order_ok(&self, id: OrderId) -> bool {
        let order = self.orders@[id];
        &&& order.order_id == id
        &&& self.seen_order_ids@.dom().contains(id)
        &&& self.account_orders@.dom().contains(order.account_id)
        &&& self.definition.quantity.admits_leaves(order.quantity)
        &&& (order.constraint matches AuctionOrderConstraint::Limit(price)
            ==> self.definition.price.admits(price))
        &&& 0 < order.priority_sequence < self.next_priority_sequence
    }

    /// Every active order satisfies every per-order rule.
    pub open spec fn orders_ok(&self) -> bool {
        forall|id: OrderId| #[trigger] self.orders@.dom().contains(id) ==> self.order_ok(id)
    }

    /// No occupied price has an empty queue.
    pub open spec fn levels_occupied(&self) -> bool {
        &&& forall|price: Price| #[trigger]
            self.bids@.dom().contains(price) ==> self.bids@[price].order_count > 0
        &&& forall|price: Price| #[trigger]
            self.asks@.dom().contains(price) ==> self.asks@[price].order_count > 0
    }

    /// Everything that the offline audit checks.
    pub open spec fn audited(&self) -> bool {
        &&& self.storage_ok()
        &&& self.queues_ok()
        &&& self.accounts_ok()
        &&& self.orders_ok()
    }

    /// The book is in a state that its operations can produce.
    pub open spec fn wf(&self) -> bool {
        &&& self.config_ok()
        &&& self.audited()
        &&& self.levels_occupied()
    }

    /// Two books share everything that no order operation changes.
    pub open spec fn same_shell(&self, other: &Self) -> bool {
        &&& self.instance_id == other.instance_id
        &&& self.definition == other.definition
        &&& self.limits == other.limits
        &&& self.grid == other.grid
        &&& self.instrument_band == other.instrument_band
        &&& self.uncross_pool.same_counts(other.uncross_pool)
        &&& self.bid_level_scratch.reserved == other.bid_level_scratch.reserved
        &&& self.ask_level_scratch.reserved == other.ask_level_scratch.reserved
        &&& self.buy_order_scratch.reserved == other.buy_order_scratch.reserved
        &&& self.sell_order_scratch.reserved == other.sell_order_scratch.reserved
    }
}

} // verus!
