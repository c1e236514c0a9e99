//! Rebuilding a collection book from captured state.

use vstd::prelude::*;

use crate::auction::AuctionOrderConstraint;
use crate::auction_book::price_configuration_fault;
use crate::book_interest::ActiveOrders;
use crate::book_state::{
    account_ids, account_ok, ascending, in_account, in_queue, leaves, queue_ids, queue_ok,
    CallAuctionBook, RestingOrders,
};
use crate::book_types::{
    CallAuctionBookLimits, CallAuctionConstructionError, CallAuctionOrderSnapshot,
};
use crate::chain::{lemma_distinct_members, member_sum};
use crate::domain::{AccountId, OrderId, Price, Quantity, Side};
use crate::instrument::InstrumentDefinition;
use crate::ordered_map::OrderedMap;

verus! {

/// Why a book cannot be rebuilt.
#[derive(Clone, Copy, Debug, PartialEq, Eq)]
pub enum CallAuctionRestoreError {
    /// An empty book could not be constructed.
    Construction(CallAuctionConstructionError),
    /// The captured state contradicts itself, the definition or the limits.
    Contradiction(&'static str),
}

/// Active orders of a captured list by identity.
pub open spec fn orders_by_id(orders: Seq<CallAuctionOrderSnapshot>) -> ActiveOrders {
    Map::new(
        |id: OrderId| exists|i: int| 0 <= i < orders.len() && (#[trigger] orders[i]).order_id == id,
        |id: OrderId|
            orders[choose|i: int| 0 <= i < orders.len() && (#[trigger] orders[i]).order_id == id],
    )
}

/// Prices that a captured list occupies on one side.
pub open spec fn occupied_prices(orders: Seq<CallAuctionOrderSnapshot>, side: Side) -> Set<Price> {
    Set::new(
        |price: Price|
            exists|i: int|
                0 <= i < orders.len() && (#[trigger] orders[i]).side == side && orders[i].constraint
                    == AuctionOrderConstraint::Limit(price),
    )
}

/// No identity occurs twice.
pub open spec fn ids_distinct(orders: Seq<CallAuctionOrderSnapshot>) -> bool {
    forall|i: int, j: int|
        0 <= i < j < orders.len() ==> (#[trigger] orders[i]).order_id != (
        #[trigger] orders[j]).order_id
}

/// No two orders of one queue share an admission sequence.
pub open spec fn queues_distinct(orders: Seq<CallAuctionOrderSnapshot>) -> bool {
    forall|i: int, j: int|
        0 <= i < j < orders.len() && (#[trigger] orders[i]).side == (#[trigger] orders[j]).side
            && orders[i].constraint == orders[j].constraint ==> orders[i].priority_sequence
            != orders[j].priority_sequence
}

/// Whether one captured order satisfies every per-order rule.
pub open spec fn order_restorable(
    definition: InstrumentDefinition,
    accepted: Seq<OrderId>,
    next_priority_sequence: u64,
    order: CallAuctionOrderSnapshot,
) -> bool {
    &&& accepted.contains(order.order_id)
    &&& definition.quantity.admits_leaves(order.quantity)
    &&& (order.constraint matches AuctionOrderConstraint::Limit(price)
        ==> definition.price.admits(price))
    &&& 0 < order.priority_sequence < next_priority_sequence
}

/// Whether captured state describes a book.
pub open spec fn restorable(
    definition: InstrumentDefinition,
    limits: CallAuctionBookLimits,
    orders: Seq<CallAuctionOrderSnapshot>,
    accepted: Seq<OrderId>,
    next_priority_sequence: u64,
    next_trade_id: u64,
) -> bool {
    &&& next_priority_sequence > 0
    &&& next_trade_id > 0
    &&& accepted.len() <= limits.accepted_order_ids
    &&& accepted.no_duplicates()
    &&& orders.len() <= limits.active_orders
    &&& ids_distinct(orders)
    &&& queues_distinct(orders)
    &&& forall|i: int|
        0 <= i < orders.len() ==> order_restorable(
            definition,
            accepted,
            next_priority_sequence,
            #[trigger] orders[i],
        )
    &&& occupied_prices(orders, Side::Buy).len() <= limits.price_levels_per_side
    &&& occupied_prices(orders, Side::Sell).len() <= limits.price_levels_per_side
}

/// The first rule that one captured order breaks.
pub open spec fn order_fault(
    definition: InstrumentDefinition,
    next_priority_sequence: u64,
    order: CallAuctionOrderSnapshot,
) -> Option<Seq<char>> {
    if !definition.quantity.admits_leaves(order.quantity) {
        Some("active order quantity violates instrument rules"@)
    } else if order.constraint matches AuctionOrderConstraint::Limit(price)
        && !definition.price.admits(price) {
        Some("active limit price violates instrument rules"@)
    } else if order.priority_sequence == 0 || order.priority_sequence >= next_priority_sequence {
        Some("active order priority sequence is outside the assigned prefix"@)
    } else {
        None
    }
}

/// The first rule that a captured order breaks, from `index` on.
pub open spec fn orders_fault(
    definition: InstrumentDefinition,
    next_priority_sequence: u64,
    orders: Seq<CallAuctionOrderSnapshot>,
    index: int,
) -> Option<Seq<char>>
    decreases orders.len() - index,
{
    if index < 0 || index >= orders.len() {
        None
    } else {
        match order_fault(definition, next_priority_sequence, orders[index]) {
            Some(detail) => Some(detail),
            None => orders_fault(definition, next_priority_sequence, orders, index + 1),
        }
    }
}

/// The first contradiction in captured state: identities, then bounds, then
/// queues, then single orders in the order of the list, then counters.
pub open spec fn restore_fault(
    definition: InstrumentDefinition,
    limits: CallAuctionBookLimits,
    orders: Seq<CallAuctionOrderSnapshot>,
    accepted: Seq<OrderId>,
    next_priority_sequence: u64,
    next_trade_id: u64,
) -> Option<Seq<char>> {
    if !accepted.no_duplicates() {
        Some("auction checkpoint repeats an accepted order identifier"@)
    } else if exists|i: int|
        0 <= i < orders.len() && !accepted.contains((#[trigger] orders[i]).order_id) {
        Some("auction checkpoint active order lacks accepted identity"@)
    } else if !ids_distinct(orders) {
        Some("auction checkpoint repeats an active order identifier"@)
    } else if orders.len() > limits.active_orders {
        Some("active orders exceed configured maximum"@)
    } else if accepted.len() > limits.accepted_order_ids {
        Some("accepted identifiers exceed configured maximum"@)
    } else if occupied_prices(orders, Side::Buy).len() > limits.price_levels_per_side
        || occupied_prices(orders, Side::Sell).len() > limits.price_levels_per_side {
        Some("occupied limit prices exceed configured maximum"@)
    } else if !queues_distinct(orders) {
        Some("auction queue membership, link, or priority is inconsistent"@)
    } else if orders_fault(definition, next_priority_sequence, orders, 0) is Some {
        orders_fault(definition, next_priority_sequence, orders, 0)
    } else if next_priority_sequence == 0 || next_trade_id == 0 {
        Some("auction checkpoint counter is zero"@)
    } else {
        None
    }
}

/// Counts the prices that a captured list occupies on one side.
pub(crate) fn occupied_count(orders: &[CallAuctionOrderSnapshot], side: Side) -> (r: usize)
    ensures
        r == occupied_prices(orders@, side).len(),
{
    let mut prices: OrderedMap<Price, ()> = OrderedMap::unbounded();
    let mut index: usize = 0;
    proof {
        assert(occupied_prices(orders@.take(0), side) =~= Set::<Price>::empty());
        assert(prices@.dom() =~= Set::<Price>::empty());
    }
    while index < orders.len()
        invariant
            prices.wf(),
            index <= orders@.len(),
            prices@.dom() == occupied_prices(orders@.take(index as int), side),
        decreases orders@.len() - index,
    {
        let order = orders[index];
        let ghost before = prices@.dom();
        let ghost seen = orders@.take(index as int);
        let ghost longer = orders@.take(index + 1);
        proof {
            assert(longer =~= seen.push(order));
        }
        if order.side == side {
            if let AuctionOrderConstraint::Limit(price) = order.constraint {
                let _ = prices.insert(price, ());
            }
        }
        proof {
            assert forall|price: Price| prices@.dom().contains(price) <==> occupied_prices(
                longer,
                side,
            ).contains(price) by {
                if occupied_prices(seen, side).contains(price) {
                    let i = choose|i: int|
                        0 <= i < seen.len() && (#[trigger] seen[i]).side == side
                            && seen[i].constraint == AuctionOrderConstraint::Limit(price);
                    assert(longer[i] == seen[i]);
                }
                if order.side == side && order.constraint == AuctionOrderConstraint::Limit(price) {
                    assert(longer[index as int] == order);
                }
                if occupied_prices(longer, side).contains(price) {
                    let i = choose|i: int|
                        0 <= i < longer.len() && (#[trigger] longer[i]).side == side
                            && longer[i].constraint == AuctionOrderConstraint::Limit(price);
                    if i < index {
                        assert(seen[i] == longer[i]);
                    }
                }
            }
            assert(prices@.dom() =~= occupied_prices(longer, side));
        }
        index += 1;
    }
    proof {
        assert(orders@.take(index as int) =~= orders@);
    }
    prices.len()
}

/// Returns whether two orders of one queue share an admission sequence.
fn shares_sequence(orders: &[CallAuctionOrderSnapshot]) -> (r: bool)
    ensures
        r == !queues_distinct(orders@),
{
    let mut right: usize = 0;
    while right < orders.len()
        invariant
            right <= orders@.len(),
            queues_distinct(orders@.take(right as int)),
        decreases orders@.len() - right,
    {
        let mut left: usize = 0;
        while left < right
            invariant
                left <= right < orders@.len(),
                queues_distinct(orders@.take(right as int)),
                forall|i: int|
                    0 <= i < left && (#[trigger] orders@[i]).side == orders@[right as int].side
                        && orders@[i].constraint == orders@[right as int].constraint
                        ==> orders@[i].priority_sequence
                        != orders@[right as int].priority_sequence,
            decreases right - left,
        {
            if orders[left].side == orders[right].side && orders[left].constraint
                == orders[right].constraint && orders[left].priority_sequence
                == orders[right].priority_sequence {
                proof {
                    assert(orders@[left as int].side == orders@[right as int].side);
                }
                return true;
            }
            left += 1;
        }
        proof {
            let seen = orders@.take(right as int);
            let longer = orders@.take(right + 1);
            assert forall|i: int, j: int|
                0 <= i < j < longer.len() && (#[trigger] longer[i]).side == (
                #[trigger] longer[j]).side && longer[i].constraint
                    == longer[j].constraint implies longer[i].priority_sequence
                != longer[j].priority_sequence by {
                assert(longer[i] == orders@[i]);
                if j < right {
                    assert(seen[i] == longer[i] && seen[j] == longer[j]);
                }
            }
        }
        right += 1;
    }
    proof {
        assert(orders@.take(right as int) =~= orders@);
    }
    false
}

/// Returns the first contradiction among accepted and active identities.
fn identity_fault(orders: &[CallAuctionOrderSnapshot], accepted: &[OrderId]) -> (r: Option<
    &'static str,
>)
    ensures
        match r {
            None => {
                &&& accepted@.no_duplicates()
                &&& forall|i: int|
                    0 <= i < orders@.len() ==> accepted@.contains((#[trigger] orders@[i]).order_id)
                &&& ids_distinct(orders@)
            },
            Some(detail) => detail@ == (if !accepted@.no_duplicates() {
                "auction checkpoint repeats an accepted order identifier"@
            } else if exists|i: int|
                0 <= i < orders@.len() && !accepted@.contains((#[trigger] orders@[i]).order_id) {
                "auction checkpoint active order lacks accepted identity"@
            } else {
                "auction checkpoint repeats an active order identifier"@
            }) && (accepted@.no_duplicates() && (forall|i: int|
                0 <= i < orders@.len() ==> accepted@.contains((#[trigger] orders@[i]).order_id))
                ==> !ids_distinct(orders@)),
        },
{
    let mut known: OrderedMap<OrderId, ()> = OrderedMap::unbounded();
    let mut index: usize = 0;
    while index < accepted.len()
        invariant
            known.wf(),
            index <= accepted@.len(),
            forall|i: int, j: int| 0 <= i < j < index ==> accepted@[i] != accepted@[j],
            forall|id: OrderId| #[trigger]
                known@.dom().contains(id) <==> exists|i: int|
                    0 <= i < index && #[trigger] accepted@[i] == id,
        decreases accepted@.len() - index,
    {
        let id = accepted[index];
        let ghost before = known@;
        let previous = known.insert(id, ());
        if previous.is_some() {
            proof {
                let i = choose|i: int| 0 <= i < index && #[trigger] accepted@[i] == id;
                assert(accepted@[i] == accepted@[index as int]);
            }
            return Some("auction checkpoint repeats an accepted order identifier");
        }
        proof {
            assert forall|other: OrderId| #[trigger] known@.dom().contains(other) <==> exists|i: int|
                0 <= i < index + 1 && #[trigger] accepted@[i] == other by {
                assert(before.dom().contains(other) <==> exists|i: int|
                    0 <= i < index && #[trigger] accepted@[i] == other);
                if other == id {
                    assert(accepted@[index as int] == other);
                }
            }
        }
        index += 1;
    }
    let mut scan: usize = 0;
    while scan < orders.len()
        invariant
            known.wf(),
            accepted@.no_duplicates(),
            scan <= orders@.len(),
            forall|id: OrderId| #[trigger]
                known@.dom().contains(id) <==> exists|i: int|
                    0 <= i < accepted@.len() && #[trigger] accepted@[i] == id,
            forall|i: int|
                0 <= i < scan ==> accepted@.contains((#[trigger] orders@[i]).order_id),
        decreases orders@.len() - scan,
    {
        if !known.contains_key(orders[scan].order_id) {
            proof {
                assert(!accepted@.contains(orders@[scan as int].order_id));
            }
            return Some("auction checkpoint active order lacks accepted identity");
        }
        scan += 1;
    }
    if in_sequence_order(orders).is_none() {
        return Some("auction checkpoint repeats an active order identifier");
    }
    None
}

/// Returns the first contradiction in captured state.
fn find_restore_fault(
    definition: InstrumentDefinition,
    limits: CallAuctionBookLimits,
    orders: &[CallAuctionOrderSnapshot],
    accepted: &[OrderId],
    next_priority_sequence: u64,
    next_trade_id: u64,
) -> (r: Option<&'static str>)
    requires
        definition.wf(),
    ensures
        ({
            let fault = restore_fault(
                definition,
                limits,
                orders@,
                accepted@,
                next_priority_sequence,
                next_trade_id,
            );
            let sound = restorable(
                definition,
                limits,
                orders@,
                accepted@,
                next_priority_sequence,
                next_trade_id,
            );
            match r {
                None => fault is None && sound,
                Some(detail) => fault == Some(detail@) && !sound,
            }
        }),
{
    if let Some(detail) = identity_fault(orders, accepted) {
        proof {
            if accepted@.no_duplicates() && exists|i: int|
                0 <= i < orders@.len() && !accepted@.contains((#[trigger] orders@[i]).order_id) {
                let i = choose|i: int|
                    0 <= i < orders@.len() && !accepted@.contains((#[trigger] orders@[i]).order_id);
                assert(!order_restorable(definition, accepted@, next_priority_sequence, orders@[i]));
            }
        }
        return Some(detail);
    }
    if orders.len() > limits.active_orders {
        return Some("active orders exceed configured maximum");
    }
    if accepted.len() > limits.accepted_order_ids {
        return Some("accepted identifiers exceed configured maximum");
    }
    if occupied_count(orders, Side::Buy) > limits.price_levels_per_side || occupied_count(
        orders,
        Side::Sell,
    ) > limits.price_levels_per_side {
        return Some("occupied limit prices exceed configured maximum");
    }
    if shares_sequence(orders) {
        return Some("auction queue membership, link, or priority is inconsistent");
    }
    let mut index: usize = 0;
    while index < orders.len()
        invariant
            definition.wf(),
            index <= orders@.len(),
            accepted@.no_duplicates(),
            ids_distinct(orders@),
            queues_distinct(orders@),
            orders@.len() <= limits.active_orders,
            accepted@.len() <= limits.accepted_order_ids,
            occupied_prices(orders@, Side::Buy).len() <= limits.price_levels_per_side,
            occupied_prices(orders@, Side::Sell).len() <= limits.price_levels_per_side,
            forall|i: int|
                0 <= i < orders@.len() ==> accepted@.contains((#[trigger] orders@[i]).order_id),
            forall|i: int|
                0 <= i < index ==> order_restorable(
                    definition,
                    accepted@,
                    next_priority_sequence,
                    #[trigger] orders@[i],
                ),
            orders_fault(definition, next_priority_sequence, orders@, 0) == orders_fault(
                definition,
                next_priority_sequence,
                orders@,
                index as int,
            ),
        decreases orders@.len() - index,
    {
        let order = orders[index];
        let unpriced: bool = match order.constraint {
            AuctionOrderConstraint::Market => false,
            AuctionOrderConstraint::Limit(price) => definition.price.validate(price).is_err(),
        };
        proof {
            assert(orders@[index as int] == order);
        }
        if definition.quantity.validate_leaves(order.quantity).is_err() {
            assert(!order_restorable(
                definition,
                accepted@,
                next_priority_sequence,
                orders@[index as int],
            ));
            return Some("active order quantity violates instrument rules");
        }
        if unpriced {
            assert(!order_restorable(
                definition,
                accepted@,
                next_priority_sequence,
                orders@[index as int],
            ));
            return Some("active limit price violates instrument rules");
        }
        if order.priority_sequence == 0 || order.priority_sequence >= next_priority_sequence {
            assert(!order_restorable(
                definition,
                accepted@,
                next_priority_sequence,
                orders@[index as int],
            ));
            return Some("active order priority sequence is outside the assigned prefix");
        }
        index += 1;
    }
    if next_priority_sequence == 0 || next_trade_id == 0 {
        return Some("auction checkpoint counter is zero");
    }
    None
}

/// The sum of a list of amounts is at most its length times the largest amount.
proof fn lemma_sum_limit(orders: RestingOrders, ids: Seq<OrderId>)
    requires
        forall|i: int| 0 <= i < ids.len() ==> orders.dom().contains(#[trigger] ids[i]),
    ensures
        0 <= member_sum(leaves(orders), ids) <= ids.len() * u64::MAX,
    decreases ids.len(),
{
    if ids.len() > 0 {
        let shorter = ids.drop_last();
        assert forall|i: int| 0 <= i < shorter.len() implies orders.dom().contains(
            #[trigger] shorter[i],
        ) by {
            assert(shorter[i] == ids[i]);
        }
        lemma_sum_limit(orders, shorter);
        assert(orders.dom().contains(ids[ids.len() - 1]));
        assert(leaves(orders)[ids.last()] <= u64::MAX);
        assert(ids.len() * u64::MAX == (ids.len() - 1) * u64::MAX + u64::MAX)
            by (nonlinear_arith);
    }
}

impl CallAuctionBook {
    /// While there is room for one more active order, no queue or account
    /// aggregate can overflow.
    pub proof fn law_aggregates_fit(
        &self,
        side: Side,
        constraint: AuctionOrderConstraint,
        account: AccountId,
        quantity: Quantity,
    )
        requires
            self.wf(),
            self.orders@.len() < self.limits.active_orders,
        ensures
            Self::aggregates_fit(
                self.queue_of(side, constraint),
                self.account_side(account, side),
                quantity,
            ),
    {
        let orders = self.orders@;
        let queue = self.queue_of(side, constraint);
        let index = self.account_side(account, side);
        self.orders.lemma_view();
        assert(queue_ok(orders, queue, side, constraint));
        assert(account_ok(orders, index, account, side));
        reveal(queue_ok);
        reveal(account_ok);
        let queued = queue_ids(orders, queue);
        let owned = account_ids(orders, index);
        assert forall|i: int| 0 <= i < queued.len() implies orders.dom().contains(
            #[trigger] queued[i],
        ) by {
            assert(in_queue(orders, queued[i], side, constraint));
        }
        assert forall|i: int| 0 <= i < owned.len() implies orders.dom().contains(
            #[trigger] owned[i],
        ) by {
            assert(in_account(orders, owned[i], account, side));
        }
        lemma_distinct_members(queued, orders.dom());
        lemma_distinct_members(owned, orders.dom());
        lemma_sum_limit(orders, queued);
        lemma_sum_limit(orders, owned);
        let room = usize::MAX as int;
        assert(queued.len() * u64::MAX <= (room - 1) * u64::MAX) by (nonlinear_arith)
            requires
                queued.len() <= room - 1,
        ;
        assert(owned.len() * u64::MAX <= (room - 1) * u64::MAX) by (nonlinear_arith)
            requires
                owned.len() <= room - 1,
        ;
        assert((room - 1) * u64::MAX + u64::MAX <= u128::MAX) by (nonlinear_arith)
            requires
                room <= u64::MAX,
        ;
    }

    /// A price has a queue exactly when an active order rests at it.
    pub proof fn law_levels_are_occupied(&self, side: Side, price: Price)
        requires
            self.wf(),
        ensures
            self.level_map(side).dom().contains(price) <==> exists|id: OrderId| #[trigger]
                self.active().dom().contains(id) && self.active()[id].side == side
                    && self.active()[id].constraint == AuctionOrderConstraint::Limit(price),
    {
        let orders = self.orders@;
        let constraint = AuctionOrderConstraint::Limit(price);
        let queue = self.queue_of(side, constraint);
        assert(queue_ok(orders, queue, side, constraint));
        reveal(queue_ok);
        let ids = queue_ids(orders, queue);
        if self.level_map(side).dom().contains(price) {
            assert(queue.order_count > 0);
            assert(in_queue(orders, ids[0], side, constraint));
            assert(self.active().dom().contains(ids[0]));
        }
        if exists|id: OrderId| #[trigger]
            self.active().dom().contains(id) && self.active()[id].side == side
                && self.active()[id].constraint == constraint {
            let id = choose|id: OrderId| #[trigger]
                self.active().dom().contains(id) && self.active()[id].side == side
                    && self.active()[id].constraint == constraint;
            assert(in_queue(orders, id, side, constraint));
            assert(ids.contains(id));
        }
    }
}

/// Captured prices are finitely many.
proof fn lemma_occupied_finite(orders: Seq<CallAuctionOrderSnapshot>, side: Side)
    ensures
        occupied_prices(orders, side).finite(),
{
    let prices = orders.map_values(
        |order: CallAuctionOrderSnapshot|
            match order.constraint {
                AuctionOrderConstraint::Limit(price) => price,
                AuctionOrderConstraint::Market => Price { raw: 0 },
            },
    );
    vstd::seq_lib::seq_to_set_is_finite(prices);
    assert forall|price: Price| #[trigger]
        occupied_prices(orders, side).contains(price) implies prices.to_set().contains(price) by {
        let i = choose|i: int|
            0 <= i < orders.len() && (#[trigger] orders[i]).side == side && orders[i].constraint
                == AuctionOrderConstraint::Limit(price);
        assert(prices[i] == price);
    }
    vstd::set_lib::lemma_set_subset_finite(prices.to_set(), occupied_prices(orders, side));
}

/// Lists captured orders by admission sequence.
///
/// Fails when an identity occurs twice.
fn in_sequence_order(orders: &[CallAuctionOrderSnapshot]) -> (r: Option<
    Vec<CallAuctionOrderSnapshot>,
>)
    ensures
        r is Some <==> ids_distinct(orders@),
        r matches Some(sorted) ==> {
            &&& ids_distinct(sorted@)
            &&& sorted@.len() == orders@.len()
            &&& forall|i: int| 0 <= i < orders@.len() ==> sorted@.contains(#[trigger] orders@[i])
            &&& forall|i: int| 0 <= i < sorted@.len() ==> orders@.contains(#[trigger] sorted@[i])
            &&& forall|i: int, j: int|
                0 <= i < j < sorted@.len() ==> (#[trigger] sorted@[i]).priority_sequence <= (
                #[trigger] sorted@[j]).priority_sequence
        },
{
    let mut sorted: Vec<CallAuctionOrderSnapshot> = Vec::new();
    let mut index: usize = 0;
    while index < orders.len()
        invariant
            index <= orders@.len(),
            sorted@.len() == index,
            ids_distinct(orders@.take(index as int)),
            ids_distinct(sorted@),
            forall|i: int| 0 <= i < index ==> sorted@.contains(#[trigger] orders@[i]),
            forall|i: int|
                0 <= i < sorted@.len() ==> orders@.take(index as int).contains(#[trigger] sorted@[i]),
            forall|i: int, j: int|
                0 <= i < j < sorted@.len() ==> (#[trigger] sorted@[i]).priority_sequence <= (
                #[trigger] sorted@[j]).priority_sequence,
        decreases orders@.len() - index,
    {
        let order = orders[index];
        let mut position: usize = 0;
        let mut scan: usize = 0;
        while scan < sorted.len()
            invariant
                index < orders@.len(),
                order == orders@[index as int],
                position <= scan <= sorted@.len(),
                forall|k: int| 0 <= k < scan ==> (#[trigger] sorted@[k]).order_id != order.order_id,
                forall|k: int|
                    0 <= k < position ==> (#[trigger] sorted@[k]).priority_sequence
                        <= order.priority_sequence,
                forall|k: int|
                    position <= k < scan ==> (#[trigger] sorted@[k]).priority_sequence
                        > order.priority_sequence,
                forall|i: int|
                    0 <= i < sorted@.len() ==> orders@.take(index as int).contains(
                        #[trigger] sorted@[i],
                    ),
                forall|i: int, j: int|
                    0 <= i < j < sorted@.len() ==> (#[trigger] sorted@[i]).priority_sequence <= (
                    #[trigger] sorted@[j]).priority_sequence,
            decreases sorted@.len() - scan,
        {
            let listed = sorted[scan];
            if listed.order_id == order.order_id {
                proof {
                    let prefix = orders@.take(index as int);
                    assert(prefix.contains(sorted@[scan as int]));
                    let i = choose|i: int| 0 <= i < prefix.len() && prefix[i] == listed;
                    assert(orders@[i].order_id == orders@[index as int].order_id);
                }
                return None;
            }
            if listed.priority_sequence <= order.priority_sequence {
                position = scan + 1;
            }
            scan += 1;
        }
        let ghost before = sorted@;
        sorted.insert(position, order);
        proof {
            let prefix = orders@.take(index as int);
            let longer = orders@.take(index + 1);
            assert(longer == prefix.push(order));
            assert(sorted@ == before.insert(position as int, order));
            assert forall|i: int| 0 <= i < sorted@.len() implies (#[trigger] sorted@[i]) == (if i
                < position {
                before[i]
            } else if i == position {
                order
            } else {
                before[i - 1]
            }) by {}
            assert forall|i: int| 0 <= i < index + 1 implies sorted@.contains(
                #[trigger] orders@[i],
            ) by {
                if i < index {
                    assert(before.contains(orders@[i]));
                    let k = choose|k: int| 0 <= k < before.len() && before[k] == orders@[i];
                    if k < position {
                        assert(sorted@[k] == orders@[i]);
                    } else {
                        assert(sorted@[k + 1] == orders@[i]);
                    }
                } else {
                    assert(sorted@[position as int] == order);
                }
            }
            assert forall|i: int| 0 <= i < sorted@.len() implies longer.contains(
                #[trigger] sorted@[i],
            ) by {
                if i == position {
                    assert(longer[index as int] == order);
                } else {
                    let old_index = if i < position {
                        i
                    } else {
                        i - 1
                    };
                    assert(prefix.contains(before[old_index]));
                    let k = choose|k: int| 0 <= k < prefix.len() && prefix[k] == before[old_index];
                    assert(longer[k] == sorted@[i]);
                }
            }
            assert forall|i: int, j: int| 0 <= i < j < longer.len() implies (
            #[trigger] longer[i]).order_id != (#[trigger] longer[j]).order_id by {
                assert(longer[i] == prefix[i]);
                if j < index {
                    assert(longer[j] == prefix[j]);
                } else {
                    assert(before.contains(orders@[i]));
                    let k = choose|k: int| 0 <= k < before.len() && before[k] == orders@[i];
                    assert(before[k].order_id != order.order_id);
                }
            }
        }
        index += 1;
    }
    proof {
        assert(orders@.take(index as int) =~= orders@);
    }
    Some(sorted)
}

impl CallAuctionBook {
    /// The book holds the first `count` orders of a list.
    spec fn holds_first(&self, orders: Seq<CallAuctionOrderSnapshot>, count: int) -> bool {
        &&& forall|id: OrderId| #[trigger]
            self.active().dom().contains(id) <==> exists|i: int|
                0 <= i < count && (#[trigger] orders[i]).order_id == id
        &&& forall|i: int|
            0 <= i < count ==> self.active()[(#[trigger] orders[i]).order_id] == orders[i]
        &&& self.orders@.len() == count
    }

    /// Records accepted identities in an empty book.
    ///
    /// Fails when an identity occurs twice.
    fn restore_accepted(&mut self, accepted: &[OrderId]) -> (r: bool)
        requires
            old(self).wf(),
            old(self).active().dom() == Set::<OrderId>::empty(),
            old(self).accepted() == Set::<OrderId>::empty(),
            accepted@.len() <= old(self).limits.accepted_order_ids,
        ensures
            r <==> accepted@.no_duplicates(),
            r ==> {
                &&& final(self).wf()
                &&& final(self).same_shell(old(self))
                &&& final(self).uncross_pool == old(self).uncross_pool
                &&& final(self).orders == old(self).orders
                &&& final(self).next_priority_sequence == old(self).next_priority_sequence
                &&& final(self).next_trade_id == old(self).next_trade_id
                &&& final(self).state_revision == old(self).state_revision
                &&& final(self).accepted() == accepted@.to_set()
            },
    {
        let ghost entry = *self;
        proof {
            self.seen_order_ids.lemma_view();
            assert(accepted@.take(0).to_set() =~= Set::<OrderId>::empty());
            if self.seen_order_ids.entries@.len() > 0 {
                assert(self.seen_order_ids@.dom().contains(self.seen_order_ids.entries@[0].0));
            }
        }
        let mut index: usize = 0;
        while index < accepted.len()
            invariant
                entry.wf(),
                entry.active().dom() == Set::<OrderId>::empty(),
                self.seen_order_ids.wf(),
                self.seen_order_ids.maximum == entry.seen_order_ids.maximum,
                self.seen_order_ids.reserved == entry.seen_order_ids.reserved,
                self.seen_order_ids.entries@.len() == index,
                index <= accepted@.len() <= entry.limits.accepted_order_ids,
                accepted@.take(index as int).no_duplicates(),
                self.accepted() == accepted@.take(index as int).to_set(),
                *self == (CallAuctionBook { seen_order_ids: self.seen_order_ids, ..entry }),
            decreases accepted@.len() - index,
        {
            let id = accepted[index];
            let ghost before = accepted@.take(index as int);
            let ghost after = accepted@.take(index + 1);
            proof {
                assert(after =~= before.push(id));
                assert(before.to_set().contains(id) <==> before.contains(id));
            }
            let previous = self.seen_order_ids.insert(id, ());
            if previous.is_some() {
                proof {
                    assert(before.contains(id));
                    let i = choose|i: int| 0 <= i < before.len() && before[i] == id;
                    assert(accepted@[i] == accepted@[index as int]);
                }
                return false;
            }
            proof {
                assert(!before.contains(id));
                assert forall|i: int, j: int|
                    0 <= i < after.len() && 0 <= j < after.len() && i != j implies after[i]
                    != after[j] by {
                    if i < index && j < index {
                        assert(before[i] == after[i] && before[j] == after[j]);
                    } else if i < index {
                        assert(before[i] == after[i]);
                    } else {
                        assert(before[j] == after[j]);
                    }
                }
                assert forall|other: OrderId| self.accepted().contains(other)
                    <==> after.to_set().contains(other) by {
                    assert(before.to_set().contains(other) <==> before.contains(other));
                    assert(after.to_set().contains(other) <==> after.contains(other));
                    if before.contains(other) {
                        let i = choose|i: int| 0 <= i < before.len() && before[i] == other;
                        assert(after[i] == other);
                    }
                    if other == id {
                        assert(after[index as int] == other);
                    }
                    if after.contains(other) && other != id {
                        let i = choose|i: int| 0 <= i < after.len() && after[i] == other;
                        assert(before[i] == other);
                    }
                }
                assert(self.accepted() =~= after.to_set());
            }
            index += 1;
        }
        proof {
            assert(accepted@.take(index as int) =~= accepted@);
            assert forall|side: Side, constraint: AuctionOrderConstraint| queue_ok(
                self.orders@,
                #[trigger] self.queue_of(side, constraint),
                side,
                constraint,
            ) by {
                assert(self.queue_of(side, constraint) == entry.queue_of(side, constraint));
            }
            assert forall|account: AccountId, side: Side| account_ok(
                self.orders@,
                #[trigger] self.account_side(account, side),
                account,
                side,
            ) by {
                assert(self.account_side(account, side) == entry.account_side(account, side));
            }
            assert forall|id: OrderId| #[trigger] self.orders@.dom().contains(
                id,
            ) implies self.order_ok(id) by {
                assert(entry.active().dom().contains(id));
            }
        }
        true
    }

    /// A full side of prices leaves no room for one more.
    proof fn lemma_no_room(
        &self,
        orders: Seq<CallAuctionOrderSnapshot>,
        sorted: Seq<CallAuctionOrderSnapshot>,
        index: int,
    )
        requires
            self.wf(),
            0 <= index < sorted.len(),
            self.holds_first(sorted, index),
            forall|i: int| 0 <= i < sorted.len() ==> orders.contains(#[trigger] sorted[i]),
            !self.level_room(sorted[index].side, sorted[index].constraint),
        ensures
            occupied_prices(orders, sorted[index].side).len() > self.limits.price_levels_per_side,
    {
        let order = sorted[index];
        let side = order.side;
        let price = order.constraint->Limit_0;
        let dom = self.level_map(side).dom();
        let all = occupied_prices(orders, side);
        lemma_occupied_finite(orders, side);
        self.bids.lemma_view();
        self.asks.lemma_view();
        assert forall|other: Price| #[trigger] dom.insert(price).contains(other) implies all.contains(
            other,
        ) by {
            if other == price {
                assert(orders.contains(sorted[index]));
                let k = choose|k: int| 0 <= k < orders.len() && orders[k] == sorted[index];
                assert(orders[k].side == side);
            } else {
                self.law_levels_are_occupied(side, other);
                let id = choose|id: OrderId| #[trigger]
                    self.active().dom().contains(id) && self.active()[id].side == side
                        && self.active()[id].constraint == AuctionOrderConstraint::Limit(other);
                let i = choose|i: int| 0 <= i < index && (#[trigger] sorted[i]).order_id == id;
                assert(self.active()[sorted[i].order_id] == sorted[i]);
                assert(orders.contains(sorted[i]));
                let k = choose|k: int| 0 <= k < orders.len() && orders[k] == sorted[i];
                assert(orders[k].side == side);
            }
        }
        vstd::set_lib::lemma_len_subset(dom.insert(price), all);
    }

    /// What rebuilding gives.
    pub open spec fn is_restored(
        &self,
        definition: InstrumentDefinition,
        limits: CallAuctionBookLimits,
        orders: Seq<CallAuctionOrderSnapshot>,
        accepted: Seq<OrderId>,
    ) -> bool {
        &&& self.definition == definition
        &&& self.limits == limits
        &&& self.active() == orders_by_id(orders)
        &&& self.accepted() == accepted.to_set()
    }

    /// Rebuilds a book from captured state.
    ///
    /// Success is owed for every consistent capture, unless an empty book of
    /// the same configuration cannot be constructed.
    pub fn from_checkpoint_state(
        definition: InstrumentDefinition,
        limits: CallAuctionBookLimits,
        active_orders: &[CallAuctionOrderSnapshot],
        accepted_order_ids: &[OrderId],
        next_priority_sequence: u64,
        next_trade_id: u64,
        state_revision: u64,
        instance_id: u64,
    ) -> (r: Result<Self, CallAuctionRestoreError>)
        requires
            definition.wf(),
            limits.wf(),
        ensures
            match r {
                Ok(book) => {
                    &&& price_configuration_fault(definition) is None
                    &&& restorable(
                        definition,
                        limits,
                        active_orders@,
                        accepted_order_ids@,
                        next_priority_sequence,
                        next_trade_id,
                    )
                    &&& book.wf()
                    &&& book.is_restored(
                        definition,
                        limits,
                        active_orders@,
                        accepted_order_ids@,
                    )
                    &&& book.next_priority_sequence == next_priority_sequence
                    &&& book.next_trade_id == next_trade_id
                    &&& book.state_revision == state_revision
                    &&& book.instance_id == instance_id < u64::MAX
                    &&& book.uncross_pool.available@.len() == limits.prepared_uncrosses
                },
                Err(CallAuctionRestoreError::Construction(error)) => match price_configuration_fault(
                    definition,
                ) {
                    Some(fault) => error
                        == CallAuctionConstructionError::InvalidInstrumentPriceConfiguration(fault),
                    None => error is CapacityReservationFailed || (instance_id == u64::MAX && error
                        == CallAuctionConstructionError::BookInstanceIdExhausted),
                },
                Err(CallAuctionRestoreError::Contradiction(detail)) => {
                    &&& !restorable(
                        definition,
                        limits,
                        active_orders@,
                        accepted_order_ids@,
                        next_priority_sequence,
                        next_trade_id,
                    )
                    &&& restore_fault(
                        definition,
                        limits,
                        active_orders@,
                        accepted_order_ids@,
                        next_priority_sequence,
                        next_trade_id,
                    ) == Some(detail@)
                },
            },
            price_configuration_fault(definition) matches Some(fault) ==> (
            r matches Err(CallAuctionRestoreError::Construction(error)) && error
                == CallAuctionConstructionError::InvalidInstrumentPriceConfiguration(fault)),
            instance_id == u64::MAX ==> r matches Err(CallAuctionRestoreError::Construction(_)),
    {
        match Self::try_with_limits(definition, limits, instance_id) {
            Ok(book) => book.restored(
                active_orders,
                accepted_order_ids,
                next_priority_sequence,
                next_trade_id,
                state_revision,
            ),
            Err(error) => Err(CallAuctionRestoreError::Construction(error)),
        }
    }

    /// Fills this empty book with captured state.
    ///
    /// Succeeds exactly for consistent captures. Otherwise the first
    /// contradiction is named.
    pub fn restored(
        self,
        active_orders: &[CallAuctionOrderSnapshot],
        accepted_order_ids: &[OrderId],
        next_priority_sequence: u64,
        next_trade_id: u64,
        state_revision: u64,
    ) -> (r: Result<Self, CallAuctionRestoreError>)
        requires
            self.wf(),
            self.is_new(),
        ensures
            r is Ok <==> restorable(
                self.definition,
                self.limits,
                active_orders@,
                accepted_order_ids@,
                next_priority_sequence,
                next_trade_id,
            ),
            match r {
                Ok(book) => {
                    &&& book.wf()
                    &&& book.is_restored(
                        self.definition,
                        self.limits,
                        active_orders@,
                        accepted_order_ids@,
                    )
                    &&& book.next_priority_sequence == next_priority_sequence
                    &&& book.next_trade_id == next_trade_id
                    &&& book.state_revision == state_revision
                    &&& book.instance_id == self.instance_id
                    &&& book.uncross_pool.available@.len() == self.uncross_pool.available@.len()
                },
                Err(error) => error matches CallAuctionRestoreError::Contradiction(detail)
                    && restore_fault(
                    self.definition,
                    self.limits,
                    active_orders@,
                    accepted_order_ids@,
                    next_priority_sequence,
                    next_trade_id,
                ) == Some(detail@),
            },
    {
        let definition = self.definition;
        let limits = self.limits;
        let ghost instance_id = self.instance_id;
        let ghost buffers = self.uncross_pool.available@.len();
        let mut book = self;
        if let Some(detail) = find_restore_fault(
            definition,
            limits,
            active_orders,
            accepted_order_ids,
            next_priority_sequence,
            next_trade_id,
        ) {
            return Err(CallAuctionRestoreError::Contradiction(detail));
        }
        let _ = book.restore_accepted(accepted_order_ids);
        let sorted = in_sequence_order(active_orders).unwrap();
        let ghost empty = book;
        book.next_priority_sequence = next_priority_sequence;
        book.next_trade_id = next_trade_id;
        book.state_revision = state_revision;
        proof {
            empty.lemma_rebased(&book);
            empty.orders.lemma_view();
            if empty.orders.entries@.len() > 0 {
                assert(empty.active().dom().contains(empty.orders.entries@[0].0));
            }
        }
        let mut index: usize = 0;
        while index < sorted.len()
            invariant
                book.wf(),
                book.definition == definition,
                book.limits == limits,
                book.instance_id == instance_id,
                book.uncross_pool.available@.len() == buffers,
                book.next_priority_sequence == next_priority_sequence,
                book.next_trade_id == next_trade_id,
                book.state_revision == state_revision,
                book.accepted() == accepted_order_ids@.to_set(),
                accepted_order_ids@.no_duplicates(),
                accepted_order_ids@.len() <= limits.accepted_order_ids,
                next_priority_sequence > 0,
                next_trade_id > 0,
                index <= sorted@.len() <= limits.active_orders,
                restorable(
                    definition,
                    limits,
                    active_orders@,
                    accepted_order_ids@,
                    next_priority_sequence,
                    next_trade_id,
                ),
                ids_distinct(active_orders@),
                ids_distinct(sorted@),
                sorted@.len() == active_orders@.len(),
                forall|i: int|
                    0 <= i < active_orders@.len() ==> sorted@.contains(#[trigger] active_orders@[i]),
                forall|i: int|
                    0 <= i < sorted@.len() ==> active_orders@.contains(#[trigger] sorted@[i]),
                forall|i: int, j: int|
                    0 <= i < j < sorted@.len() ==> (#[trigger] sorted@[i]).priority_sequence <= (
                    #[trigger] sorted@[j]).priority_sequence,
                book.holds_first(sorted@, index as int),
                forall|i: int|
                    0 <= i < index ==> order_restorable(
                        definition,
                        accepted_order_ids@,
                        next_priority_sequence,
                        #[trigger] sorted@[i],
                    ),
                forall|i: int, j: int|
                    0 <= i < j < index && (#[trigger] sorted@[i]).side == (
                    #[trigger] sorted@[j]).side && sorted@[i].constraint == sorted@[j].constraint
                        ==> sorted@[i].priority_sequence < sorted@[j].priority_sequence,
            decreases sorted@.len() - index,
        {
            let order = sorted[index];
            proof {
                assert(accepted_order_ids@.to_set().contains(order.order_id)
                    <==> accepted_order_ids@.contains(order.order_id));
                assert(active_orders@.contains(sorted@[index as int]));
            }
            proof {
                let k = choose|k: int| 0 <= k < active_orders@.len() && active_orders@[k] == order;
                assert(order_restorable(
                    definition,
                    accepted_order_ids@,
                    next_priority_sequence,
                    active_orders@[k],
                ));
                if !book.level_room(order.side, order.constraint) {
                    book.lemma_no_room(active_orders@, sorted@, index as int);
                }
                book.lemma_tail(order.side, order.constraint);
                if let Some(tail) = book.queue_of(order.side, order.constraint).tail {
                    if book.orders@[tail].priority_sequence >= order.priority_sequence {
                        assert(book.active().dom().contains(tail));
                        let j = choose|j: int|
                            0 <= j < index && (#[trigger] sorted@[j]).order_id == tail;
                        assert(book.active()[sorted@[j].order_id] == sorted@[j]);
                        assert(sorted@[j].priority_sequence <= sorted@[index as int].priority_sequence);
                        assert(active_orders@.contains(sorted@[j]));
                        lemma_not_queues_distinct(active_orders@, sorted@, j, index as int);
                    }
                }
            }
            proof {
                book.lemma_tail(order.side, order.constraint);
                assert forall|i: int| 0 <= i < index implies (#[trigger] sorted@[i]).order_id
                    != order.order_id by {
                    assert(sorted@[i].order_id != sorted@[index as int].order_id);
                }
                assert(!book.active().dom().contains(order.order_id));
                assert(!book.orders@.dom().contains(order.order_id));
                book.law_aggregates_fit(
                    order.side,
                    order.constraint,
                    order.account_id,
                    order.quantity,
                );
            }
            let ghost before = book;
            book.link_order(order);
            proof {
                assert(book.active() == before.active().insert(order.order_id, order));
                assert forall|id: OrderId| #[trigger] book.active().dom().contains(id)
                    <==> exists|i: int|
                    0 <= i < index + 1 && (#[trigger] sorted@[i]).order_id == id by {
                    if id == order.order_id {
                        assert(sorted@[index as int].order_id == id);
                    } else {
                        assert(before.active().dom().contains(id) <==> book.active().dom().contains(
                            id,
                        ));
                        if before.active().dom().contains(id) {
                            let i = choose|i: int|
                                0 <= i < index && (#[trigger] sorted@[i]).order_id == id;
                            assert(sorted@[i].order_id == id);
                        }
                    }
                }
                assert forall|i: int| 0 <= i < index + 1 implies book.active()[(
                #[trigger] sorted@[i]).order_id] == sorted@[i] by {
                    if i < index {
                        assert(sorted@[i].order_id != order.order_id);
                        assert(before.active()[sorted@[i].order_id] == sorted@[i]);
                    }
                }
                assert forall|i: int, j: int|
                    0 <= i < j < index + 1 && (#[trigger] sorted@[i]).side == (
                    #[trigger] sorted@[j]).side && sorted@[i].constraint
                        == sorted@[j].constraint implies sorted@[i].priority_sequence
                    < sorted@[j].priority_sequence by {
                    if j == index {
                        assert(before.active()[sorted@[i].order_id] == sorted@[i]);
                        assert(before.active().dom().contains(sorted@[i].order_id));
                        assert(in_queue(
                            before.orders@,
                            sorted@[i].order_id,
                            order.side,
                            order.constraint,
                        ));
                    }
                }
            }
            index += 1;
        }
        proof {
            book.lemma_complete(active_orders@, sorted@, accepted_order_ids@);
        }
        Ok(book)
    }

    /// Counters of a book without orders may be set freely.
    proof fn lemma_rebased(&self, other: &Self)
        requires
            self.wf(),
            self.active().dom() == Set::<OrderId>::empty(),
            *other == (CallAuctionBook {
                next_priority_sequence: other.next_priority_sequence,
                next_trade_id: other.next_trade_id,
                state_revision: other.state_revision,
                ..*self
            }),
            other.next_priority_sequence > 0,
            other.next_trade_id > 0,
        ensures
            other.wf(),
            other.active() == self.active(),
    {
        assert forall|side: Side, constraint: AuctionOrderConstraint| queue_ok(
            other.orders@,
            #[trigger] other.queue_of(side, constraint),
            side,
            constraint,
        ) by {
            assert(other.queue_of(side, constraint) == self.queue_of(side, constraint));
        }
        assert forall|account: AccountId, side: Side| account_ok(
            other.orders@,
            #[trigger] other.account_side(account, side),
            account,
            side,
        ) by {
            assert(other.account_side(account, side) == self.account_side(account, side));
        }
        assert forall|id: OrderId| #[trigger] other.orders@.dom().contains(
            id,
        ) implies other.order_ok(id) by {
            assert(self.active().dom().contains(id));
        }
    }

    /// The tail of a queue is its order with the highest admission sequence.
    proof fn lemma_tail(&self, side: Side, constraint: AuctionOrderConstraint)
        requires
            self.wf(),
        ensures
            ({
                let queue = self.queue_of(side, constraint);
                &&& queue.tail matches Some(tail) ==> in_queue(self.orders@, tail, side, constraint)
                    && forall|id: OrderId| #[trigger]
                    in_queue(self.orders@, id, side, constraint)
                        ==> self.orders@[id].priority_sequence
                        <= self.orders@[tail].priority_sequence
                &&& queue.tail is None ==> forall|id: OrderId|
                    !#[trigger] in_queue(self.orders@, id, side, constraint)
            }),
    {
        let orders = self.orders@;
        let queue = self.queue_of(side, constraint);
        assert(queue_ok(orders, queue, side, constraint));
        reveal(queue_ok);
        reveal(ascending);
        let ids = queue_ids(orders, queue);
        if ids.len() > 0 {
            let last = ids.len() - 1;
            assert(in_queue(orders, ids[last], side, constraint));
            assert forall|id: OrderId| #[trigger]
                in_queue(orders, id, side, constraint) implies orders[id].priority_sequence
                <= orders[ids[last]].priority_sequence by {
                assert(ids.contains(id));
                let i = choose|i: int| 0 <= i < ids.len() && ids[i] == id;
                if i < last {
                    assert(orders[ids[i]].priority_sequence < orders[ids[last]].priority_sequence);
                }
            }
        } else {
            assert forall|id: OrderId| !#[trigger] in_queue(orders, id, side, constraint) by {
                if in_queue(orders, id, side, constraint) {
                    assert(ids.contains(id));
                }
            }
        }
    }

    /// A book that holds the whole list is the rebuilt one.
    proof fn lemma_complete(
        &self,
        orders: Seq<CallAuctionOrderSnapshot>,
        sorted: Seq<CallAuctionOrderSnapshot>,
        accepted: Seq<OrderId>,
    )
        requires
            self.wf(),
            self.holds_first(sorted, sorted.len() as int),
            sorted.len() == orders.len(),
            sorted.len() <= self.limits.active_orders,
            ids_distinct(orders),
            ids_distinct(sorted),
            forall|i: int| 0 <= i < orders.len() ==> sorted.contains(#[trigger] orders[i]),
            forall|i: int| 0 <= i < sorted.len() ==> orders.contains(#[trigger] sorted[i]),
            forall|i: int|
                0 <= i < sorted.len() ==> order_restorable(
                    self.definition,
                    accepted,
                    self.next_priority_sequence,
                    #[trigger] sorted[i],
                ),
            forall|i: int, j: int|
                0 <= i < j < sorted.len() && (#[trigger] sorted[i]).side == (
                #[trigger] sorted[j]).side && sorted[i].constraint == sorted[j].constraint
                    ==> sorted[i].priority_sequence < sorted[j].priority_sequence,
            accepted.no_duplicates(),
            accepted.len() <= self.limits.accepted_order_ids,
            self.next_priority_sequence > 0,
            self.next_trade_id > 0,
        ensures
            restorable(
                self.definition,
                self.limits,
                orders,
                accepted,
                self.next_priority_sequence,
                self.next_trade_id,
            ),
            self.active() == orders_by_id(orders),
    {
        assert forall|i: int| 0 <= i < orders.len() implies order_restorable(
            self.definition,
            accepted,
            self.next_priority_sequence,
            #[trigger] orders[i],
        ) by {
            assert(sorted.contains(orders[i]));
            let k = choose|k: int| 0 <= k < sorted.len() && sorted[k] == orders[i];
            assert(order_restorable(
                self.definition,
                accepted,
                self.next_priority_sequence,
                sorted[k],
            ));
        }
        assert forall|i: int, j: int|
            0 <= i < j < orders.len() && (#[trigger] orders[i]).side == (#[trigger] orders[j]).side
                && orders[i].constraint == orders[j].constraint implies orders[i].priority_sequence
            != orders[j].priority_sequence by {
            assert(sorted.contains(orders[i]));
            assert(sorted.contains(orders[j]));
            let a = choose|a: int| 0 <= a < sorted.len() && sorted[a] == orders[i];
            let b = choose|b: int| 0 <= b < sorted.len() && sorted[b] == orders[j];
            assert(orders[i].order_id != orders[j].order_id);
            if a < b {
                assert(sorted[a].priority_sequence < sorted[b].priority_sequence);
            } else {
                assert(sorted[b].priority_sequence < sorted[a].priority_sequence);
            }
        }
        let active = self.active();
        let listed = orders_by_id(orders);
        assert forall|id: OrderId| #[trigger] active.dom().contains(id) <==> listed.dom().contains(
            id,
        ) by {
            if active.dom().contains(id) {
                let i = choose|i: int| 0 <= i < sorted.len() && (#[trigger] sorted[i]).order_id == id;
                assert(orders.contains(sorted[i]));
                let k = choose|k: int| 0 <= k < orders.len() && orders[k] == sorted[i];
                assert(orders[k].order_id == id);
            }
            if listed.dom().contains(id) {
                let k = choose|k: int| 0 <= k < orders.len() && (#[trigger] orders[k]).order_id == id;
                assert(sorted.contains(orders[k]));
                let i = choose|i: int| 0 <= i < sorted.len() && sorted[i] == orders[k];
                assert(sorted[i].order_id == id);
            }
        }
        assert forall|id: OrderId| #[trigger] active.dom().contains(id) implies active[id]
            == listed[id] by {
            let k = choose|k: int| 0 <= k < orders.len() && (#[trigger] orders[k]).order_id == id;
            assert(listed.dom().contains(id));
            assert(sorted.contains(orders[k]));
            let i = choose|i: int| 0 <= i < sorted.len() && sorted[i] == orders[k];
            assert(active[sorted[i].order_id] == sorted[i]);
        }
        assert(active =~= listed);
        self.lemma_level_bound(orders, Side::Buy);
        self.lemma_level_bound(orders, Side::Sell);
    }

    /// The prices of a list occupy queues of the book that holds it.
    proof fn lemma_level_bound(&self, orders: Seq<CallAuctionOrderSnapshot>, side: Side)
        requires
            self.wf(),
            ids_distinct(orders),
            self.active() == orders_by_id(orders),
        ensures
            occupied_prices(orders, side).len() <= self.limits.price_levels_per_side,
    {
        self.bids.lemma_view();
        self.asks.lemma_view();
        let all = occupied_prices(orders, side);
        let dom = self.level_map(side).dom();
        assert forall|price: Price| #[trigger] all.contains(price) implies dom.contains(price) by {
            let i = choose|i: int|
                0 <= i < orders.len() && (#[trigger] orders[i]).side == side && orders[i].constraint
                    == AuctionOrderConstraint::Limit(price);
            let id = orders[i].order_id;
            assert(self.active().dom().contains(id));
            let k = choose|k: int| 0 <= k < orders.len() && (#[trigger] orders[k]).order_id == id;
            assert(k == i) by {
                if k < i {
                    assert(orders[k].order_id != orders[i].order_id);
                } else if i < k {
                    assert(orders[i].order_id != orders[k].order_id);
                }
            }
            self.law_levels_are_occupied(side, price);
        }
        vstd::set_lib::lemma_len_subset(all, dom);
    }
}

/// Two orders of one queue with one admission sequence contradict a capture.
proof fn lemma_not_queues_distinct(
    orders: Seq<CallAuctionOrderSnapshot>,
    sorted: Seq<CallAuctionOrderSnapshot>,
    left: int,
    right: int,
)
    requires
        0 <= left < right < sorted.len(),
        ids_distinct(sorted),
        orders.contains(sorted[left]),
        orders.contains(sorted[right]),
        sorted[left].side == sorted[right].side,
        sorted[left].constraint == sorted[right].constraint,
        sorted[left].priority_sequence == sorted[right].priority_sequence,
    ensures
        !queues_distinct(orders),
{
    let a = choose|a: int| 0 <= a < orders.len() && orders[a] == sorted[left];
    let b = choose|b: int| 0 <= b < orders.len() && orders[b] == sorted[right];
    assert(sorted[left].order_id != sorted[right].order_id);
    if a < b {
        assert(orders[a].side == orders[b].side);
    } else {
        assert(orders[b].side == orders[a].side);
    }
}

} // verus!
