//! The offline audit of the collection book.
//!
//! The audit follows every queue and account list link by link and accepts a
//! book exactly when all of its indexes agree.

use vstd::prelude::*;

use crate::auction::AuctionOrderConstraint;
use crate::book_lemmas::{lemma_account_spells, lemma_queue_spells};
use crate::book_queries::account_traced;
use crate::book_state::{
    account_ids, account_links, account_ok, ascending, empty_queue, empty_side, in_account,
    in_queue, leaves, lemma_account_ok, lemma_queue_ok, queue_ids, queue_links, queue_ok,
    AuctionAccountIndex, AuctionAccountSideIndex, AuctionQueue, CallAuctionBook,
    RestingAuctionOrder, RestingOrders,
};
use crate::book_types::CallAuctionInvariantViolation;
use crate::chain::{
    after_prefix, chain, last_of, lemma_covering_members, lemma_distinct_members, lemma_sum_bounds,
    lemma_sum_prefix, lemma_sum_push, lemma_visit, lemma_visited_chain, lemma_walk, linked,
    member_sum, visited_links,
};
use crate::domain::{AccountId, OrderId, Price, Side};

verus! {

/// The queue lists `ids` consistently; nothing is said of orders it omits.
pub open spec fn queue_listed(
    orders: RestingOrders,
    queue: AuctionQueue,
    side: Side,
    constraint: AuctionOrderConstraint,
    ids: Seq<OrderId>,
) -> bool {
    &&& chain(queue_links(orders), ids, queue.head, queue.tail)
    &&& queue.order_count == ids.len()
    &&& queue.total_quantity == member_sum(leaves(orders), ids)
    &&& ids.len() > 0 ==> queue.total_quantity > 0
    &&& forall|i: int|
        0 <= i < ids.len() ==> in_queue(orders, #[trigger] ids[i], side, constraint)
    &&& ascending(orders, ids)
}

/// The account list holds `ids` consistently; nothing is said of orders it omits.
pub open spec fn account_listed(
    orders: RestingOrders,
    index: AuctionAccountSideIndex,
    account: AccountId,
    side: Side,
    ids: Seq<OrderId>,
) -> bool {
    &&& account_traced(orders, index, account, side, ids)
    &&& ids.len() > 0 ==> index.total_quantity > 0
}

/// The first contradiction met when a queue is followed from `current` on, after
/// `count` of its orders; `room` orders may still be met in all queues.
pub open spec fn queue_walk_fault(
    orders: RestingOrders,
    queue: AuctionQueue,
    side: Side,
    constraint: AuctionOrderConstraint,
    room: int,
    count: nat,
    current: Option<OrderId>,
    previous: Option<OrderId>,
    total: int,
) -> Option<Seq<char>>
    decreases queue.order_count - count,
{
    match current {
        None => if previous != queue.tail || count != queue.order_count || total
            != queue.total_quantity {
            Some("auction queue tail, count, or quantity aggregate is inconsistent"@)
        } else {
            None
        },
        Some(id) => {
            let order = orders[id];
            if count >= queue.order_count {
                Some("auction queue traversal exceeds recorded count"@)
            } else if count >= room {
                Some(
                    "active order occurs more than once or participates in an auction queue cycle"@,
                )
            } else if !orders.dom().contains(id) {
                Some("auction queue references an absent order"@)
            } else if order.side != side || order.constraint != constraint || order.previous
                != previous || (previous matches Some(before)
                && orders[before].priority_sequence >= order.priority_sequence) {
                Some("auction queue membership, link, or priority is inconsistent"@)
            } else if total + order.quantity.lots > u128::MAX {
                Some("auction queue quantity overflow"@)
            } else {
                queue_walk_fault(
                    orders,
                    queue,
                    side,
                    constraint,
                    room,
                    count + 1,
                    order.next,
                    Some(id),
                    total + order.quantity.lots,
                )
            }
        },
    }
}

/// The first contradiction in one queue, when `indexed` orders were met before.
pub open spec fn queue_fault(
    orders: RestingOrders,
    queue: AuctionQueue,
    side: Side,
    constraint: AuctionOrderConstraint,
    indexed: int,
) -> Option<Seq<char>> {
    if queue.order_count == 0 {
        if queue.head is Some || queue.tail is Some || queue.total_quantity != 0 {
            Some("empty auction queue has non-empty redundant state"@)
        } else {
            None
        }
    } else if queue.head is None || queue.tail is None || queue.total_quantity == 0 {
        Some("non-empty auction queue lacks head, tail, or aggregate"@)
    } else {
        queue_walk_fault(
            orders,
            queue,
            side,
            constraint,
            orders.len() - indexed,
            0,
            queue.head,
            None,
            0,
        )
    }
}

/// The first contradiction in a list of queues from `position` on.
pub open spec fn queues_fault(
    orders: RestingOrders,
    queues: Seq<(AuctionQueue, Side, AuctionOrderConstraint)>,
    position: int,
    indexed: int,
) -> Option<Seq<char>>
    decreases queues.len() - position,
{
    if position >= queues.len() {
        if indexed != orders.len() {
            Some("active order index contains an unqueued order"@)
        } else {
            None
        }
    } else {
        let (queue, side, constraint) = queues[position];
        match queue_fault(orders, queue, side, constraint, indexed) {
            Some(detail) => Some(detail),
            None => queues_fault(orders, queues, position + 1, indexed + queue.order_count),
        }
    }
}

/// The first contradiction met when an account list is followed from `current`
/// on, after `count` of its orders; `room` orders may still be met in all lists.
pub open spec fn account_walk_fault(
    orders: RestingOrders,
    index: AuctionAccountSideIndex,
    account: AccountId,
    side: Side,
    room: int,
    count: nat,
    current: Option<OrderId>,
    previous: Option<OrderId>,
    total: int,
) -> Option<Seq<char>>
    decreases index.order_count - count,
{
    match current {
        None => if previous != index.tail || count != index.order_count || total
            != index.total_quantity {
            Some("account-index tail, count, or quantity aggregate is inconsistent"@)
        } else {
            None
        },
        Some(id) => {
            let order = orders[id];
            if count >= index.order_count || count >= room {
                Some(
                    "active order occurs more than once or participates in an account-index cycle"@,
                )
            } else if !orders.dom().contains(id) {
                Some("account index references an absent active order"@)
            } else if order.account_id != account || order.side != side || order.account_previous
                != previous {
                Some("account-index membership or previous link is inconsistent"@)
            } else if total + order.quantity.lots > u128::MAX {
                Some("account-index quantity aggregate overflows"@)
            } else {
                account_walk_fault(
                    orders,
                    index,
                    account,
                    side,
                    room,
                    count + 1,
                    order.account_next,
                    Some(id),
                    total + order.quantity.lots,
                )
            }
        },
    }
}

/// The first contradiction in one account list, when `indexed` orders were met
/// before.
pub open spec fn account_side_fault(
    orders: RestingOrders,
    index: AuctionAccountSideIndex,
    account: AccountId,
    side: Side,
    indexed: int,
) -> Option<Seq<char>> {
    if index.order_count == 0 {
        if index.head is Some || index.tail is Some || index.total_quantity != 0 {
            Some("empty account side has non-empty redundant state"@)
        } else {
            None
        }
    } else if index.head is None || index.tail is None || index.total_quantity == 0 {
        Some("non-empty account side lacks a head, tail, or quantity aggregate"@)
    } else {
        account_walk_fault(
            orders,
            index,
            account,
            side,
            orders.len() - indexed,
            0,
            index.head,
            None,
            0,
        )
    }
}

/// The first contradiction in a list of account indexes from `position` on.
pub open spec fn accounts_fault(
    orders: RestingOrders,
    accounts: Seq<(AccountId, AuctionAccountIndex)>,
    position: int,
    indexed: int,
) -> Option<Seq<char>>
    decreases accounts.len() - position,
{
    if position >= accounts.len() {
        if indexed != orders.len() {
            Some("active order index contains an order absent from account indexes"@)
        } else {
            None
        }
    } else {
        let (account, index) = accounts[position];
        let half = indexed + index.buys.order_count;
        if index.vacant() {
            Some("empty account remains in the active-order account index"@)
        } else if account_side_fault(orders, index.buys, account, Side::Buy, indexed) is Some {
            account_side_fault(orders, index.buys, account, Side::Buy, indexed)
        } else if account_side_fault(orders, index.sells, account, Side::Sell, half) is Some {
            account_side_fault(orders, index.sells, account, Side::Sell, half)
        } else {
            accounts_fault(orders, accounts, position + 1, half + index.sells.order_count)
        }
    }
}

impl CallAuctionBook {
    /// Market queues, then bid and ask queues by ascending price.
    pub open spec fn queue_list(&self) -> Seq<(AuctionQueue, Side, AuctionOrderConstraint)> {
        seq![
            (self.market_buys, Side::Buy, AuctionOrderConstraint::Market),
            (self.market_sells, Side::Sell, AuctionOrderConstraint::Market),
        ] + self.bids.entries@.map_values(
            |entry: (Price, AuctionQueue)|
                (entry.1, Side::Buy, AuctionOrderConstraint::Limit(entry.0)),
        ) + self.asks.entries@.map_values(
            |entry: (Price, AuctionQueue)|
                (entry.1, Side::Sell, AuctionOrderConstraint::Limit(entry.0)),
        )
    }

    /// The first index that is out of order, over its bound or short of its
    /// reservation.
    pub open spec fn storage_fault(&self) -> Option<Seq<char>> {
        if !self.orders.wf() {
            Some("call-auction active-order index: keys are not strictly ascending"@)
        } else if !self.seen_order_ids.wf() {
            Some("call-auction accepted-identifier index: keys are not strictly ascending"@)
        } else if !self.bids.wf() {
            Some("call-auction bid index: keys are not strictly ascending"@)
        } else if !self.asks.wf() {
            Some("call-auction ask index: keys are not strictly ascending"@)
        } else if !self.account_orders.wf() {
            Some("call-auction active-account index: keys are not strictly ascending"@)
        } else if self.account_orders.entries@.len() > self.account_orders.maximum {
            Some("call-auction active-account index: entries exceed the maximum"@)
        } else if self.orders.entries@.len() > self.limits.active_orders {
            Some("active orders exceed configured maximum"@)
        } else if self.seen_order_ids.entries@.len() > self.limits.accepted_order_ids {
            Some("accepted identifiers exceed configured maximum"@)
        } else if self.bids.entries@.len() > self.limits.price_levels_per_side
            || self.asks.entries@.len() > self.limits.price_levels_per_side {
            Some("occupied limit prices exceed configured maximum"@)
        } else if !self.storage_ok() {
            Some("constructor reservation is below a configured maximum"@)
        } else {
            None
        }
    }

    /// The first rule that one active order breaks.
    pub open spec fn entry_fault(&self, entry: (OrderId, RestingAuctionOrder)) -> Option<
        Seq<char>,
    > {
        let (id, order) = entry;
        if id != order.order_id || !self.seen_order_ids@.dom().contains(id) {
            Some("active order identity is inconsistent or absent from accepted identities"@)
        } else if !self.account_orders@.dom().contains(order.account_id) {
            Some("active order owner is absent from the account index"@)
        } else if !self.definition.quantity.admits_leaves(order.quantity) {
            Some("active order quantity violates instrument rules"@)
        } else if order.constraint matches AuctionOrderConstraint::Limit(price)
            && !self.definition.price.admits(price) {
            Some("active limit price violates instrument rules"@)
        } else if order.priority_sequence == 0 || order.priority_sequence
            >= self.next_priority_sequence {
            Some("active order priority sequence is outside the assigned prefix"@)
        } else {
            None
        }
    }

    /// The first rule that an active order breaks, from `position` on.
    pub open spec fn orders_fault(&self, position: int) -> Option<Seq<char>>
        decreases self.orders.entries@.len() - position,
    {
        if position >= self.orders.entries@.len() {
            None
        } else {
            match self.entry_fault(self.orders.entries@[position]) {
                Some(detail) => Some(detail),
                None => self.orders_fault(position + 1),
            }
        }
    }

    /// The first contradiction that the offline audit meets.
    pub open spec fn audit_fault(&self) -> Option<Seq<char>> {
        if self.storage_fault() is Some {
            self.storage_fault()
        } else if queues_fault(self.orders@, self.queue_list(), 0, 0) is Some {
            queues_fault(self.orders@, self.queue_list(), 0, 0)
        } else if accounts_fault(self.orders@, self.account_orders.entries@, 0, 0) is Some {
            accounts_fault(self.orders@, self.account_orders.entries@, 0, 0)
        } else {
            self.orders_fault(0)
        }
    }
}

impl CallAuctionBook {
    /// Follows one queue and returns the number of orders followed so far.
    fn validate_queue(
        &self,
        queue: AuctionQueue,
        side: Side,
        constraint: AuctionOrderConstraint,
        indexed_orders: usize,
    ) -> (r: Result<usize, CallAuctionInvariantViolation>)
        requires
            self.orders.wf(),
            indexed_orders <= self.orders@.len(),
        ensures
            r is Ok <==> queue_listed(
                self.orders@,
                queue,
                side,
                constraint,
                queue_ids(self.orders@, queue),
            ) && indexed_orders + queue.order_count <= self.orders@.len(),
            r matches Ok(total) ==> total == indexed_orders + queue.order_count,
            match r {
                Ok(_) => queue_fault(
                    self.orders@,
                    queue,
                    side,
                    constraint,
                    indexed_orders as int,
                ) is None,
                Err(error) => queue_fault(
                    self.orders@,
                    queue,
                    side,
                    constraint,
                    indexed_orders as int,
                ) == Some(error.detail@),
            },
    {
        let ghost orders = self.orders@;
        let ghost expected = queue_ids(orders, queue);
        let ghost listed = queue_listed(orders, queue, side, constraint, expected);
        if queue.order_count == 0 {
            if queue.head.is_some() || queue.tail.is_some() || queue.total_quantity != 0 {
                return Err(
                    CallAuctionInvariantViolation::new(
                        "empty auction queue has non-empty redundant state",
                    ),
                );
            }
            proof {
                reveal(ascending);
                assert(expected =~= Seq::<OrderId>::empty());
            }
            return Ok(indexed_orders);
        }
        if queue.head.is_none() || queue.tail.is_none() || queue.total_quantity == 0 {
            return Err(
                CallAuctionInvariantViolation::new(
                    "non-empty auction queue lacks head, tail, or aggregate",
                ),
            );
        }
        let mut current = queue.head;
        let mut previous: Option<OrderId> = None;
        let mut previous_sequence: Option<u64> = None;
        let mut total: u128 = 0;
        let mut count: u64 = 0;
        let mut indexed: usize = indexed_orders;
        let ghost mut ids = Seq::<OrderId>::empty();
        proof {
            reveal(ascending);
            assert(expected.take(0) =~= ids);
        }
        while current.is_some()
            invariant
                self.orders.wf(),
                orders == self.orders@,
                expected == queue_ids(orders, queue),
                listed == queue_listed(orders, queue, side, constraint, expected),
                queue.order_count > 0,
                queue.total_quantity > 0,
                indexed_orders <= orders.len(),
                visited_links(queue_links(orders), ids, queue.head, current),
                previous == last_of(ids),
                previous_sequence == (match last_of(ids) {
                    None => None,
                    Some(id) => Some(orders[id].priority_sequence),
                }),
                queue_walk_fault(
                    orders,
                    queue,
                    side,
                    constraint,
                    orders.len() - indexed_orders,
                    count as nat,
                    current,
                    previous,
                    total as int,
                ) == queue_fault(orders, queue, side, constraint, indexed_orders as int),
                count == ids.len(),
                count <= queue.order_count,
                indexed == indexed_orders + count,
                indexed <= orders.len(),
                total == member_sum(leaves(orders), ids),
                forall|i: int|
                    0 <= i < ids.len() ==> in_queue(orders, #[trigger] ids[i], side, constraint),
                ascending(orders, ids),
                listed ==> count <= expected.len() && ids == expected.take(count as int)
                    && current == after_prefix(expected, count as int),
            decreases queue.order_count - count,
        {
            let order_id = current.unwrap();
            if count >= queue.order_count {
                return Err(
                    CallAuctionInvariantViolation::new(
                        "auction queue traversal exceeds recorded count",
                    ),
                );
            }
            if indexed >= self.orders.len() {
                return Err(
                    CallAuctionInvariantViolation::new(
                        "active order occurs more than once or participates in an auction queue cycle",
                    ),
                );
            }
            proof {
                if listed {
                    assert(in_queue(orders, expected[count as int], side, constraint));
                    assert(linked(queue_links(orders), expected, count as int));
                    assert(expected.take(count + 1) =~= ids.push(order_id));
                    lemma_sum_push(leaves(orders), ids, order_id);
                    assert forall|i: int| 0 <= i < expected.len() implies 0 <= leaves(orders)[
                        #[trigger] expected[i]] by {
                        assert(in_queue(orders, expected[i], side, constraint));
                    }
                    lemma_sum_prefix(leaves(orders), expected, count + 1);
                    if count > 0 {
                        assert(ids[count - 1] == expected[count - 1]);
                        reveal(ascending);
                        assert(orders[expected[count - 1]].priority_sequence
                            < orders[expected[count as int]].priority_sequence);
                    }
                }
            }
            let order = match self.orders.get(order_id) {
                Some(order) => order,
                None => {
                    return Err(
                        CallAuctionInvariantViolation::new(
                            "auction queue references an absent order",
                        ),
                    );
                },
            };
            let rises = match previous_sequence {
                None => true,
                Some(sequence) => sequence < order.priority_sequence,
            };
            if order.side != side || order.constraint != constraint || order.previous != previous
                || !rises {
                return Err(
                    CallAuctionInvariantViolation::new(
                        "auction queue membership, link, or priority is inconsistent",
                    ),
                );
            }
            proof {
                lemma_sum_push(leaves(orders), ids, order_id);
            }
            match total.checked_add(order.quantity.lots as u128) {
                Some(sum) => {
                    total = sum;
                },
                None => {
                    return Err(CallAuctionInvariantViolation::new("auction queue quantity overflow"));
                },
            }
            proof {
                lemma_visit(queue_links(orders), ids, queue.head, order_id);
                lemma_ascending_extend(orders, ids, order_id);
                let grown = ids.push(order_id);
                assert forall|i: int| 0 <= i < grown.len() implies in_queue(
                    orders,
                    #[trigger] grown[i],
                    side,
                    constraint,
                ) by {
                    if i < ids.len() {
                        assert(in_queue(orders, ids[i], side, constraint));
                    }
                }
                ids = grown;
            }
            count = count + 1;
            indexed = indexed + 1;
            previous = Some(order_id);
            previous_sequence = Some(order.priority_sequence);
            current = order.next;
        }
        proof {
            if listed {
                assert(expected.take(count as int) =~= expected);
            }
            lemma_visited_chain(queue_links(orders), ids, queue.head);
            if previous == queue.tail && count == queue.order_count && total
                == queue.total_quantity {
                lemma_walk(queue_links(orders), ids, queue.head, queue.tail);
            }
        }
        if previous != queue.tail || count != queue.order_count || total != queue.total_quantity {
            return Err(
                CallAuctionInvariantViolation::new(
                    "auction queue tail, count, or quantity aggregate is inconsistent",
                ),
            );
        }
        Ok(indexed)
    }

    /// Follows one account list and returns the number of orders followed so far.
    fn validate_account_side(
        &self,
        side_index: AuctionAccountSideIndex,
        account_id: AccountId,
        side: Side,
        indexed_orders: usize,
    ) -> (r: Result<usize, CallAuctionInvariantViolation>)
        requires
            self.orders.wf(),
            indexed_orders <= self.orders@.len(),
        ensures
            r is Ok <==> account_listed(
                self.orders@,
                side_index,
                account_id,
                side,
                account_ids(self.orders@, side_index),
            ) && indexed_orders + side_index.order_count <= self.orders@.len(),
            r matches Ok(total) ==> total == indexed_orders + side_index.order_count,
            match r {
                Ok(_) => account_side_fault(
                    self.orders@,
                    side_index,
                    account_id,
                    side,
                    indexed_orders as int,
                ) is None,
                Err(error) => account_side_fault(
                    self.orders@,
                    side_index,
                    account_id,
                    side,
                    indexed_orders as int,
                ) == Some(error.detail@),
            },
    {
        let ghost orders = self.orders@;
        let ghost expected = account_ids(orders, side_index);
        let ghost listed = account_listed(orders, side_index, account_id, side, expected);
        if side_index.order_count == 0 {
            if side_index.head.is_some() || side_index.tail.is_some() || side_index.total_quantity
                != 0 {
                return Err(
                    CallAuctionInvariantViolation::new(
                        "empty account side has non-empty redundant state",
                    ),
                );
            }
            proof {
                assert(expected =~= Seq::<OrderId>::empty());
            }
            return Ok(indexed_orders);
        }
        if side_index.head.is_none() || side_index.tail.is_none() || side_index.total_quantity
            == 0 {
            return Err(
                CallAuctionInvariantViolation::new(
                    "non-empty account side lacks a head, tail, or quantity aggregate",
                ),
            );
        }
        let mut current = side_index.head;
        let mut previous: Option<OrderId> = None;
        let mut total: u128 = 0;
        let mut count: usize = 0;
        let mut indexed: usize = indexed_orders;
        let ghost mut ids = Seq::<OrderId>::empty();
        proof {
            assert(expected.take(0) =~= ids);
        }
        while current.is_some()
            invariant
                self.orders.wf(),
                orders == self.orders@,
                expected == account_ids(orders, side_index),
                listed == account_listed(orders, side_index, account_id, side, expected),
                side_index.order_count > 0,
                side_index.total_quantity > 0,
                indexed_orders <= orders.len(),
                visited_links(account_links(orders), ids, side_index.head, current),
                previous == last_of(ids),
                account_walk_fault(
                    orders,
                    side_index,
                    account_id,
                    side,
                    orders.len() - indexed_orders,
                    count as nat,
                    current,
                    previous,
                    total as int,
                ) == account_side_fault(
                    orders,
                    side_index,
                    account_id,
                    side,
                    indexed_orders as int,
                ),
                count == ids.len(),
                count <= side_index.order_count,
                indexed == indexed_orders + count,
                indexed <= orders.len(),
                total == member_sum(leaves(orders), ids),
                forall|i: int|
                    0 <= i < ids.len() ==> in_account(orders, #[trigger] ids[i], account_id, side),
                listed ==> count <= expected.len() && ids == expected.take(count as int)
                    && current == after_prefix(expected, count as int),
            decreases side_index.order_count - count,
        {
            let order_id = current.unwrap();
            if count >= side_index.order_count || indexed >= self.orders.len() {
                return Err(
                    CallAuctionInvariantViolation::new(
                        "active order occurs more than once or participates in an account-index cycle",
                    ),
                );
            }
            proof {
                if listed {
                    assert(in_account(orders, expected[count as int], account_id, side));
                    assert(linked(account_links(orders), expected, count as int));
                    assert(expected.take(count + 1) =~= ids.push(order_id));
                    lemma_sum_push(leaves(orders), ids, order_id);
                    assert forall|i: int| 0 <= i < expected.len() implies 0 <= leaves(orders)[
                        #[trigger] expected[i]] by {
                        assert(in_account(orders, expected[i], account_id, side));
                    }
                    lemma_sum_prefix(leaves(orders), expected, count + 1);
                    if count > 0 {
                        assert(ids[count - 1] == expected[count - 1]);
                    }
                }
            }
            let order = match self.orders.get(order_id) {
                Some(order) => order,
                None => {
                    return Err(
                        CallAuctionInvariantViolation::new(
                            "account index references an absent active order",
                        ),
                    );
                },
            };
            if order.account_id != account_id || order.side != side || order.account_previous
                != previous {
                return Err(
                    CallAuctionInvariantViolation::new(
                        "account-index membership or previous link is inconsistent",
                    ),
                );
            }
            proof {
                lemma_sum_push(leaves(orders), ids, order_id);
            }
            match total.checked_add(order.quantity.lots as u128) {
                Some(sum) => {
                    total = sum;
                },
                None => {
                    return Err(
                        CallAuctionInvariantViolation::new(
                            "account-index quantity aggregate overflows",
                        ),
                    );
                },
            }
            proof {
                lemma_visit(account_links(orders), ids, side_index.head, order_id);
                let grown = ids.push(order_id);
                assert forall|i: int| 0 <= i < grown.len() implies in_account(
                    orders,
                    #[trigger] grown[i],
                    account_id,
                    side,
                ) by {
                    if i < ids.len() {
                        assert(in_account(orders, ids[i], account_id, side));
                    }
                }
                ids = grown;
            }
            count = count + 1;
            indexed = indexed + 1;
            previous = Some(order_id);
            current = order.account_next;
        }
        proof {
            if listed {
                assert(expected.take(count as int) =~= expected);
            }
            lemma_visited_chain(account_links(orders), ids, side_index.head);
            if previous == side_index.tail && count == side_index.order_count && total
                == side_index.total_quantity {
                lemma_walk(account_links(orders), ids, side_index.head, side_index.tail);
            }
        }
        if previous != side_index.tail || count != side_index.order_count || total
            != side_index.total_quantity {
            return Err(
                CallAuctionInvariantViolation::new(
                    "account-index tail, count, or quantity aggregate is inconsistent",
                ),
            );
        }
        Ok(indexed)
    }

    /// Checks order, bounds and reservation of every index.
    fn validate_storage(&self) -> (r: Result<(), CallAuctionInvariantViolation>)
        requires
            self.config_ok(),
        ensures
            r is Ok <==> self.storage_ok(),
            match r {
                Ok(_) => self.storage_fault() is None,
                Err(error) => self.storage_fault() == Some(error.detail@),
            },
    {
        if !self.orders.is_sorted() {
            return Err(
                CallAuctionInvariantViolation::new(
                    "call-auction active-order index: keys are not strictly ascending",
                ),
            );
        }
        if !self.seen_order_ids.is_sorted() {
            return Err(
                CallAuctionInvariantViolation::new(
                    "call-auction accepted-identifier index: keys are not strictly ascending",
                ),
            );
        }
        if !self.bids.is_sorted() {
            return Err(
                CallAuctionInvariantViolation::new(
                    "call-auction bid index: keys are not strictly ascending",
                ),
            );
        }
        if !self.asks.is_sorted() {
            return Err(
                CallAuctionInvariantViolation::new(
                    "call-auction ask index: keys are not strictly ascending",
                ),
            );
        }
        if !self.account_orders.is_sorted() {
            return Err(
                CallAuctionInvariantViolation::new(
                    "call-auction active-account index: keys are not strictly ascending",
                ),
            );
        }
        if self.account_orders.len() > self.account_orders.maximum() {
            return Err(
                CallAuctionInvariantViolation::new(
                    "call-auction active-account index: entries exceed the maximum",
                ),
            );
        }
        if self.orders.len() > self.limits.active_orders {
            return Err(
                CallAuctionInvariantViolation::new("active orders exceed configured maximum"),
            );
        }
        if self.seen_order_ids.len() > self.limits.accepted_order_ids {
            return Err(
                CallAuctionInvariantViolation::new("accepted identifiers exceed configured maximum"),
            );
        }
        if self.bids.len() > self.limits.price_levels_per_side || self.asks.len()
            > self.limits.price_levels_per_side {
            return Err(
                CallAuctionInvariantViolation::new(
                    "occupied limit prices exceed configured maximum",
                ),
            );
        }
        if self.orders.allocation_capacity() < self.limits.active_orders
            || self.seen_order_ids.allocation_capacity() < self.limits.accepted_order_ids
            || self.account_orders.allocation_capacity() < self.limits.active_orders
            || self.bids.allocation_capacity() < self.limits.price_levels_per_side
            || self.asks.allocation_capacity() < self.limits.price_levels_per_side
            || self.bid_level_scratch.reserved < self.limits.price_levels_per_side
            || self.ask_level_scratch.reserved < self.limits.price_levels_per_side
            || self.buy_order_scratch.reserved < self.limits.active_orders
            || self.sell_order_scratch.reserved < self.limits.active_orders
            || self.uncross_pool.available.len() > self.uncross_pool.capacity
            || self.uncross_pool.buffer_capacity < self.limits.active_orders {
            return Err(
                CallAuctionInvariantViolation::new(
                    "constructor reservation is below a configured maximum",
                ),
            );
        }
        Ok(())
    }

    /// Checks every per-order rule.
    fn validate_active_orders(&self) -> (r: Result<(), CallAuctionInvariantViolation>)
        requires
            self.config_ok(),
            self.storage_ok(),
        ensures
            r is Ok <==> self.orders_ok(),
            match r {
                Ok(_) => self.orders_fault(0) is None,
                Err(error) => self.orders_fault(0) == Some(error.detail@),
            },
    {
        proof {
            self.orders.lemma_view();
        }
        let mut index: usize = 0;
        while index < self.orders.len()
            invariant
                self.config_ok(),
                self.storage_ok(),
                index <= self.orders.entries@.len(),
                forall|i: int|
                    0 <= i < self.orders.entries@.len() ==> self.orders@.dom().contains(
                        (#[trigger] self.orders.entries@[i]).0,
                    ) && self.orders@[self.orders.entries@[i].0] == self.orders.entries@[i].1,
                forall|i: int|
                    0 <= i < index ==> self.order_ok((#[trigger] self.orders.entries@[i]).0),
                self.orders_fault(0) == self.orders_fault(index as int),
            decreases self.orders.entries@.len() - index,
        {
            let order_id = self.orders.key_at(index);
            let order = self.orders.value_at(index);
            assert(self.orders@.dom().contains(self.orders.entries@[index as int].0));
            if order_id != order.order_id || !self.seen_order_ids.contains_key(order_id) {
                return Err(
                    CallAuctionInvariantViolation::new(
                        "active order identity is inconsistent or absent from accepted identities",
                    ),
                );
            }
            if !self.account_orders.contains_key(order.account_id) {
                return Err(
                    CallAuctionInvariantViolation::new(
                        "active order owner is absent from the account index",
                    ),
                );
            }
            if self.definition.quantity_rules().validate_leaves(order.quantity).is_err() {
                return Err(
                    CallAuctionInvariantViolation::new(
                        "active order quantity violates instrument rules",
                    ),
                );
            }
            if let AuctionOrderConstraint::Limit(price) = order.constraint {
                if self.definition.price_rules().validate(price).is_err() {
                    return Err(
                        CallAuctionInvariantViolation::new(
                            "active limit price violates instrument rules",
                        ),
                    );
                }
            }
            if order.priority_sequence == 0 || order.priority_sequence
                >= self.next_priority_sequence {
                return Err(
                    CallAuctionInvariantViolation::new(
                        "active order priority sequence is outside the assigned prefix",
                    ),
                );
            }
            index += 1;
        }
        proof {
            assert forall|id: OrderId| #[trigger] self.orders@.dom().contains(
                id,
            ) implies self.order_ok(id) by {
                let i = choose|i: int|
                    0 <= i < self.orders.entries@.len() && (#[trigger] self.orders.entries@[i]).0
                        == id;
                assert(self.order_ok(self.orders.entries@[i].0));
            }
        }
        Ok(())
    }
}

/// A list that ends with a higher sequence keeps rising.
proof fn lemma_ascending_extend(orders: RestingOrders, ids: Seq<OrderId>, id: OrderId)
    requires
        ascending(orders, ids),
        last_of(ids) matches Some(last) ==> orders[last].priority_sequence
            < orders[id].priority_sequence,
    ensures
        ascending(orders, ids.push(id)),
{
    reveal(ascending);
    let grown = ids.push(id);
    assert forall|i: int, j: int| 0 <= i < j < grown.len() implies orders[
        #[trigger] grown[i]].priority_sequence < orders[#[trigger] grown[j]].priority_sequence by {
        assert(grown[i] == ids[i]);
        if j < ids.len() {
            assert(grown[j] == ids[j]);
        } else if i < ids.len() - 1 {
            assert(orders[ids[i]].priority_sequence < orders[ids[ids.len() - 1]].priority_sequence);
        }
    }
}

/// A queue of the book, by side and constraint.
pub type QueueKey = (Side, AuctionOrderConstraint);

/// An account list of the book, by account and side.
pub type AccountKey = (AccountId, Side);

/// The queue to which an active order belongs.
spec fn queue_key(orders: RestingOrders, id: OrderId) -> QueueKey {
    (orders[id].side, orders[id].constraint)
}

/// The account list to which an active order belongs.
spec fn account_key(orders: RestingOrders, id: OrderId) -> AccountKey {
    (orders[id].account_id, orders[id].side)
}

spec fn key_listed(book: &CallAuctionBook, key: QueueKey) -> bool {
    let queue = book.queue_of(key.0, key.1);
    queue_listed(book.orders@, queue, key.0, key.1, queue_ids(book.orders@, queue))
}

spec fn side_listed(book: &CallAuctionBook, key: AccountKey) -> bool {
    let index = book.account_side(key.0, key.1);
    account_listed(book.orders@, index, key.0, key.1, account_ids(book.orders@, index))
}

/// Members of several queues, one queue after the other.
spec fn queues_concat(book: &CallAuctionBook, keys: Seq<QueueKey>) -> Seq<OrderId>
    decreases keys.len(),
{
    if keys.len() == 0 {
        Seq::empty()
    } else {
        queues_concat(book, keys.drop_last()) + queue_ids(
            book.orders@,
            book.queue_of(keys.last().0, keys.last().1),
        )
    }
}

/// Members of several account lists, one list after the other.
spec fn sides_concat(book: &CallAuctionBook, keys: Seq<AccountKey>) -> Seq<OrderId>
    decreases keys.len(),
{
    if keys.len() == 0 {
        Seq::empty()
    } else {
        sides_concat(book, keys.drop_last()) + account_ids(
            book.orders@,
            book.account_side(keys.last().0, keys.last().1),
        )
    }
}

spec fn queues_listed(book: &CallAuctionBook, keys: Seq<QueueKey>) -> bool {
    &&& forall|i: int| 0 <= i < keys.len() ==> key_listed(book, #[trigger] keys[i])
    &&& forall|i: int, j: int| 0 <= i < j < keys.len() ==> #[trigger] keys[i] != #[trigger] keys[j]
}

spec fn sides_listed(book: &CallAuctionBook, keys: Seq<AccountKey>) -> bool {
    &&& forall|i: int| 0 <= i < keys.len() ==> side_listed(book, #[trigger] keys[i])
    &&& forall|i: int, j: int| 0 <= i < j < keys.len() ==> #[trigger] keys[i] != #[trigger] keys[j]
}

/// Distinct queues share no member.
proof fn lemma_queues_concat(book: &CallAuctionBook, keys: Seq<QueueKey>)
    requires
        queues_listed(book, keys),
    ensures
        ({
            let all = queues_concat(book, keys);
            &&& forall|i: int|
                0 <= i < all.len() ==> book.orders@.dom().contains(#[trigger] all[i])
                    && keys.contains(queue_key(book.orders@, all[i])) && queue_ids(
                    book.orders@,
                    book.queue_of(
                        queue_key(book.orders@, all[i]).0,
                        queue_key(book.orders@, all[i]).1,
                    ),
                ).contains(all[i])
            &&& forall|i: int, j: int|
                0 <= i < j < all.len() ==> #[trigger] all[i] != #[trigger] all[j]
        }),
    decreases keys.len(),
{
    if keys.len() > 0 {
        let shorter = keys.drop_last();
        let key = keys.last();
        let queue = book.queue_of(key.0, key.1);
        let part = queue_ids(book.orders@, queue);
        let rest = queues_concat(book, shorter);
        let all = queues_concat(book, keys);
        assert forall|i: int| 0 <= i < shorter.len() implies key_listed(
            book,
            #[trigger] shorter[i],
        ) by {
            assert(shorter[i] == keys[i]);
        }
        assert forall|i: int, j: int| 0 <= i < j < shorter.len() implies #[trigger] shorter[i]
            != #[trigger] shorter[j] by {
            assert(keys[i] != keys[j]);
        }
        lemma_queues_concat(book, shorter);
        assert(key_listed(book, keys[keys.len() - 1]));
        assert forall|i: int| 0 <= i < all.len() implies book.orders@.dom().contains(
            #[trigger] all[i],
        ) && keys.contains(queue_key(book.orders@, all[i])) && queue_ids(
            book.orders@,
            book.queue_of(
                queue_key(book.orders@, all[i]).0,
                queue_key(book.orders@, all[i]).1,
            ),
        ).contains(all[i]) by {
            if i < rest.len() {
                assert(all[i] == rest[i]);
                assert(shorter.contains(queue_key(book.orders@, rest[i])));
                let j = choose|j: int|
                    0 <= j < shorter.len() && shorter[j] == queue_key(book.orders@, rest[i]);
                assert(keys[j] == queue_key(book.orders@, all[i]));
            } else {
                assert(all[i] == part[i - rest.len()]);
                assert(in_queue(book.orders@, part[i - rest.len()], key.0, key.1));
                assert(keys[keys.len() - 1] == queue_key(book.orders@, all[i]));
                assert(part.contains(all[i]));
            }
        }
        assert forall|i: int, j: int| 0 <= i < j < all.len() implies #[trigger] all[i]
            != #[trigger] all[j] by {
            if j < rest.len() {
                assert(rest[i] != rest[j]);
            } else if i >= rest.len() {
                assert(part[i - rest.len()] != part[j - rest.len()]);
            } else {
                assert(in_queue(book.orders@, part[j - rest.len()], key.0, key.1));
                assert(shorter.contains(queue_key(book.orders@, rest[i])));
                let k = choose|k: int|
                    0 <= k < shorter.len() && shorter[k] == queue_key(book.orders@, rest[i]);
                assert(keys[k] != keys[keys.len() - 1]);
            }
        }
    }
}

/// Distinct account lists share no member.
proof fn lemma_sides_concat(book: &CallAuctionBook, keys: Seq<AccountKey>)
    requires
        sides_listed(book, keys),
    ensures
        ({
            let all = sides_concat(book, keys);
            &&& forall|i: int|
                0 <= i < all.len() ==> book.orders@.dom().contains(#[trigger] all[i])
                    && keys.contains(account_key(book.orders@, all[i])) && account_ids(
                    book.orders@,
                    book.account_side(
                        account_key(book.orders@, all[i]).0,
                        account_key(book.orders@, all[i]).1,
                    ),
                ).contains(all[i])
            &&& forall|i: int, j: int|
                0 <= i < j < all.len() ==> #[trigger] all[i] != #[trigger] all[j]
        }),
    decreases keys.len(),
{
    if keys.len() > 0 {
        let shorter = keys.drop_last();
        let key = keys.last();
        let index = book.account_side(key.0, key.1);
        let part = account_ids(book.orders@, index);
        let rest = sides_concat(book, shorter);
        let all = sides_concat(book, keys);
        assert forall|i: int| 0 <= i < shorter.len() implies side_listed(
            book,
            #[trigger] shorter[i],
        ) by {
            assert(shorter[i] == keys[i]);
        }
        assert forall|i: int, j: int| 0 <= i < j < shorter.len() implies #[trigger] shorter[i]
            != #[trigger] shorter[j] by {
            assert(keys[i] != keys[j]);
        }
        lemma_sides_concat(book, shorter);
        assert(side_listed(book, keys[keys.len() - 1]));
        assert forall|i: int| 0 <= i < all.len() implies book.orders@.dom().contains(
            #[trigger] all[i],
        ) && keys.contains(account_key(book.orders@, all[i])) && account_ids(
            book.orders@,
            book.account_side(
                account_key(book.orders@, all[i]).0,
                account_key(book.orders@, all[i]).1,
            ),
        ).contains(all[i]) by {
            if i < rest.len() {
                assert(all[i] == rest[i]);
                assert(shorter.contains(account_key(book.orders@, rest[i])));
                let j = choose|j: int|
                    0 <= j < shorter.len() && shorter[j] == account_key(book.orders@, rest[i]);
                assert(keys[j] == account_key(book.orders@, all[i]));
            } else {
                assert(all[i] == part[i - rest.len()]);
                assert(in_account(book.orders@, part[i - rest.len()], key.0, key.1));
                assert(keys[keys.len() - 1] == account_key(book.orders@, all[i]));
                assert(part.contains(all[i]));
            }
        }
        assert forall|i: int, j: int| 0 <= i < j < all.len() implies #[trigger] all[i]
            != #[trigger] all[j] by {
            if j < rest.len() {
                assert(rest[i] != rest[j]);
            } else if i >= rest.len() {
                assert(part[i - rest.len()] != part[j - rest.len()]);
            } else {
                assert(in_account(book.orders@, part[j - rest.len()], key.0, key.1));
                assert(shorter.contains(account_key(book.orders@, rest[i])));
                let k = choose|k: int|
                    0 <= k < shorter.len() && shorter[k] == account_key(book.orders@, rest[i]);
                assert(keys[k] != keys[keys.len() - 1]);
            }
        }
    }
}

/// An agreeing queue of valid orders is listed.
pub(crate) proof fn lemma_ok_listed(
    book: &CallAuctionBook,
    queue: AuctionQueue,
    side: Side,
    constraint: AuctionOrderConstraint,
)
    requires
        queue_ok(book.orders@, queue, side, constraint),
        book.orders_ok(),
    ensures
        queue_listed(book.orders@, queue, side, constraint, queue_ids(book.orders@, queue)),
{
    lemma_queue_spells(book.orders@, queue, side, constraint);
    let ids = queue_ids(book.orders@, queue);
    if ids.len() > 0 {
        assert forall|i: int| 0 <= i < ids.len() implies 0 <= leaves(book.orders@)[
            #[trigger] ids[i]] by {
            assert(in_queue(book.orders@, ids[i], side, constraint));
        }
        lemma_sum_bounds(leaves(book.orders@), ids, 0);
        assert(in_queue(book.orders@, ids[0], side, constraint));
        assert(book.order_ok(ids[0]));
    }
}

/// An agreeing account list of valid orders is listed.
proof fn lemma_ok_side_listed(
    book: &CallAuctionBook,
    index: AuctionAccountSideIndex,
    account: AccountId,
    side: Side,
)
    requires
        account_ok(book.orders@, index, account, side),
        book.orders_ok(),
    ensures
        account_listed(book.orders@, index, account, side, account_ids(book.orders@, index)),
{
    lemma_account_spells(book.orders@, index, account, side);
    let ids = account_ids(book.orders@, index);
    if ids.len() > 0 {
        assert forall|i: int| 0 <= i < ids.len() implies 0 <= leaves(book.orders@)[
            #[trigger] ids[i]] by {
            assert(in_account(book.orders@, ids[i], account, side));
        }
        lemma_sum_bounds(leaves(book.orders@), ids, 0);
        assert(in_account(book.orders@, ids[0], account, side));
        assert(book.order_ok(ids[0]));
    }
}

/// What following one more queue establishes, whether it succeeds or not.
proof fn lemma_follow_queue(book: &CallAuctionBook, keys: Seq<QueueKey>, key: QueueKey, accepted: bool)
    requires
        book.storage_ok(),
        queues_listed(book, keys),
        !keys.contains(key),
        accepted <==> key_listed(book, key) && queues_concat(book, keys).len() + book.queue_of(
            key.0,
            key.1,
        ).order_count <= book.orders@.len(),
    ensures
        accepted ==> queues_listed(book, keys.push(key)) && queues_concat(
            book,
            keys.push(key),
        ).len() == queues_concat(book, keys).len() + book.queue_of(key.0, key.1).order_count,
        !accepted ==> !(book.queues_ok() && book.orders_ok()),
{
    let grown = keys.push(key);
    assert(grown.drop_last() =~= keys);
    if key_listed(book, key) {
        assert forall|i: int| 0 <= i < grown.len() implies key_listed(book, #[trigger] grown[i]) by {
            if i < keys.len() {
                assert(grown[i] == keys[i]);
            }
        }
        assert forall|i: int, j: int| 0 <= i < j < grown.len() implies #[trigger] grown[i]
            != #[trigger] grown[j] by {
            if j < keys.len() {
                assert(keys[i] != keys[j]);
            } else {
                assert(keys.contains(keys[i]));
            }
        }
        lemma_queues_concat(book, grown);
        book.orders.lemma_view();
        lemma_distinct_members(queues_concat(book, grown), book.orders@.dom());
    } else if book.queues_ok() && book.orders_ok() {
        assert(queue_ok(book.orders@, book.queue_of(key.0, key.1), key.0, key.1));
        lemma_ok_listed(book, book.queue_of(key.0, key.1), key.0, key.1);
    }
}

/// What following one more account list establishes, whether it succeeds or not.
proof fn lemma_follow_side(
    book: &CallAuctionBook,
    keys: Seq<AccountKey>,
    key: AccountKey,
    accepted: bool,
)
    requires
        book.storage_ok(),
        sides_listed(book, keys),
        !keys.contains(key),
        accepted <==> side_listed(book, key) && sides_concat(book, keys).len() + book.account_side(
            key.0,
            key.1,
        ).order_count <= book.orders@.len(),
    ensures
        accepted ==> sides_listed(book, keys.push(key)) && sides_concat(
            book,
            keys.push(key),
        ).len() == sides_concat(book, keys).len() + book.account_side(key.0, key.1).order_count,
        !accepted ==> !(book.accounts_ok() && book.orders_ok()),
{
    let grown = keys.push(key);
    assert(grown.drop_last() =~= keys);
    if side_listed(book, key) {
        assert forall|i: int| 0 <= i < grown.len() implies side_listed(book, #[trigger] grown[i]) by {
            if i < keys.len() {
                assert(grown[i] == keys[i]);
            }
        }
        assert forall|i: int, j: int| 0 <= i < j < grown.len() implies #[trigger] grown[i]
            != #[trigger] grown[j] by {
            if j < keys.len() {
                assert(keys[i] != keys[j]);
            } else {
                assert(keys.contains(keys[i]));
            }
        }
        lemma_sides_concat(book, grown);
        book.orders.lemma_view();
        lemma_distinct_members(sides_concat(book, grown), book.orders@.dom());
    } else if book.accounts_ok() && book.orders_ok() {
        assert(account_ok(book.orders@, book.account_side(key.0, key.1), key.0, key.1));
        lemma_ok_side_listed(book, book.account_side(key.0, key.1), key.0, key.1);
    }
}

/// Both market queues, then the given numbers of bid and ask queues.
spec fn audit_keys(book: &CallAuctionBook, bids: nat, asks: nat) -> Seq<QueueKey> {
    seq![
        (Side::Buy, AuctionOrderConstraint::Market),
        (Side::Sell, AuctionOrderConstraint::Market),
    ] + Seq::new(
        bids,
        |i: int| (Side::Buy, AuctionOrderConstraint::Limit(book.bids.entries@[i].0)),
    ) + Seq::new(
        asks,
        |i: int| (Side::Sell, AuctionOrderConstraint::Limit(book.asks.entries@[i].0)),
    )
}

/// Both sides of the given number of accounts.
spec fn audit_accounts(book: &CallAuctionBook, accounts: nat) -> Seq<AccountKey> {
    Seq::new(
        2 * accounts,
        |i: int|
            (book.account_orders.entries@[i / 2].0, if i % 2 == 0 {
                Side::Buy
            } else {
                Side::Sell
            }),
    )
}

/// Once every queue is listed, the queues agree exactly when no order is left over.
proof fn lemma_queues_complete(book: &CallAuctionBook)
    requires
        book.storage_ok(),
        queues_listed(
            book,
            audit_keys(book, book.bids.entries@.len(), book.asks.entries@.len()),
        ),
    ensures
        book.queues_ok() <==> queues_concat(
            book,
            audit_keys(book, book.bids.entries@.len(), book.asks.entries@.len()),
        ).len() == book.orders@.len(),
{
    let nb = book.bids.entries@.len();
    let na = book.asks.entries@.len();
    let keys = audit_keys(book, nb, na);
    let all = queues_concat(book, keys);
    lemma_queues_concat(book, keys);
    book.orders.lemma_view();
    book.bids.lemma_view();
    book.asks.lemma_view();
    lemma_distinct_members(all, book.orders@.dom());
    // Every queue that is not among the keys is empty.
    assert forall|side: Side, constraint: AuctionOrderConstraint| !keys.contains(
        (side, constraint),
    ) implies #[trigger] book.queue_of(side, constraint) == empty_queue() by {
        match constraint {
            AuctionOrderConstraint::Market => {
                assert(keys[0] == (Side::Buy, AuctionOrderConstraint::Market));
                assert(keys[1] == (Side::Sell, AuctionOrderConstraint::Market));
            },
            AuctionOrderConstraint::Limit(price) => {
                if book.level_map(side).dom().contains(price) {
                    match side {
                        Side::Buy => {
                            let i = choose|i: int|
                                0 <= i < nb && (#[trigger] book.bids.entries@[i]).0 == price;
                            assert(keys[2 + i] == (side, constraint));
                        },
                        Side::Sell => {
                            let i = choose|i: int|
                                0 <= i < na && (#[trigger] book.asks.entries@[i]).0 == price;
                            assert(keys[2 + nb + i] == (side, constraint));
                        },
                    }
                }
            },
        }
    }
    if all.len() == book.orders@.len() {
        assert forall|side: Side, constraint: AuctionOrderConstraint| queue_ok(
            book.orders@,
            #[trigger] book.queue_of(side, constraint),
            side,
            constraint,
        ) by {
            let queue = book.queue_of(side, constraint);
            let ids = queue_ids(book.orders@, queue);
            assert forall|id: OrderId| #[trigger] in_queue(
                book.orders@,
                id,
                side,
                constraint,
            ) implies ids.contains(id) && keys.contains((side, constraint)) by {
                assert(all.contains(id));
                let i = choose|i: int| 0 <= i < all.len() && all[i] == id;
                assert(keys.contains(queue_key(book.orders@, all[i])));
            }
            if keys.contains((side, constraint)) {
                let k = choose|k: int| 0 <= k < keys.len() && keys[k] == (side, constraint);
                assert(key_listed(book, keys[k]));
                lemma_queue_ok(book.orders@, queue, side, constraint, ids);
            } else {
                reveal(ascending);
                let none = Seq::<OrderId>::empty();
                assert(ids =~= none);
                lemma_queue_ok(book.orders@, empty_queue(), side, constraint, none);
            }
        }
    }
    if book.queues_ok() {
        assert forall|id: OrderId| #[trigger] book.orders@.dom().contains(id) implies all.contains(
            id,
        ) by {
            let key = queue_key(book.orders@, id);
            let queue = book.queue_of(key.0, key.1);
            assert(queue_ok(book.orders@, queue, key.0, key.1));
            lemma_queue_spells(book.orders@, queue, key.0, key.1);
            assert(in_queue(book.orders@, id, key.0, key.1));
            assert(queue_ids(book.orders@, queue).contains(id));
            assert(keys.contains(key)) by {
                if !keys.contains(key) {
                    assert(queue == empty_queue());
                    assert(queue_ids(book.orders@, queue) =~= Seq::<OrderId>::empty());
                }
            }
            let k = choose|k: int| 0 <= k < keys.len() && keys[k] == key;
            lemma_part_of_concat(book, keys, k, id);
        }
        lemma_covering_members(all, book.orders@.dom());
    }
}

proof fn lemma_part_of_concat(book: &CallAuctionBook, keys: Seq<QueueKey>, k: int, id: OrderId)
    requires
        0 <= k < keys.len(),
        queue_ids(book.orders@, book.queue_of(keys[k].0, keys[k].1)).contains(id),
    ensures
        queues_concat(book, keys).contains(id),
    decreases keys.len(),
{
    let rest = queues_concat(book, keys.drop_last());
    let part = queue_ids(book.orders@, book.queue_of(keys.last().0, keys.last().1));
    let all = queues_concat(book, keys);
    if k == keys.len() - 1 {
        let i = choose|i: int| 0 <= i < part.len() && part[i] == id;
        assert(all[rest.len() + i] == id);
    } else {
        assert(keys.drop_last()[k] == keys[k]);
        lemma_part_of_concat(book, keys.drop_last(), k, id);
        let i = choose|i: int| 0 <= i < rest.len() && rest[i] == id;
        assert(all[i] == id);
    }
}

proof fn lemma_part_of_sides(book: &CallAuctionBook, keys: Seq<AccountKey>, k: int, id: OrderId)
    requires
        0 <= k < keys.len(),
        account_ids(book.orders@, book.account_side(keys[k].0, keys[k].1)).contains(id),
    ensures
        sides_concat(book, keys).contains(id),
    decreases keys.len(),
{
    let rest = sides_concat(book, keys.drop_last());
    let part = account_ids(book.orders@, book.account_side(keys.last().0, keys.last().1));
    let all = sides_concat(book, keys);
    if k == keys.len() - 1 {
        let i = choose|i: int| 0 <= i < part.len() && part[i] == id;
        assert(all[rest.len() + i] == id);
    } else {
        assert(keys.drop_last()[k] == keys[k]);
        lemma_part_of_sides(book, keys.drop_last(), k, id);
        let i = choose|i: int| 0 <= i < rest.len() && rest[i] == id;
        assert(all[i] == id);
    }
}

/// Once every account list is listed, the lists agree exactly when no order is left over.
proof fn lemma_sides_complete(book: &CallAuctionBook)
    requires
        book.storage_ok(),
        sides_listed(book, audit_accounts(book, book.account_orders.entries@.len())),
    ensures
        (forall|account: AccountId, side: Side|
            account_ok(book.orders@, #[trigger] book.account_side(account, side), account, side))
            <==> sides_concat(
            book,
            audit_accounts(book, book.account_orders.entries@.len()),
        ).len() == book.orders@.len(),
{
    let count = book.account_orders.entries@.len();
    let keys = audit_accounts(book, count);
    let all = sides_concat(book, keys);
    lemma_sides_concat(book, keys);
    book.orders.lemma_view();
    book.account_orders.lemma_view();
    lemma_distinct_members(all, book.orders@.dom());
    assert forall|account: AccountId, side: Side| !keys.contains(
        (account, side),
    ) implies #[trigger] book.account_side(account, side) == empty_side() by {
        if book.account_orders@.dom().contains(account) {
            let i = choose|i: int|
                0 <= i < count && (#[trigger] book.account_orders.entries@[i]).0 == account;
            let k = 2 * i + if side == Side::Buy {
                0int
            } else {
                1int
            };
            assert(k / 2 == i);
            assert(k % 2 == (if side == Side::Buy {
                0int
            } else {
                1int
            }));
            assert(keys[k] == (account, side));
        }
    }
    if all.len() == book.orders@.len() {
        assert forall|account: AccountId, side: Side| account_ok(
            book.orders@,
            #[trigger] book.account_side(account, side),
            account,
            side,
        ) by {
            let index = book.account_side(account, side);
            let ids = account_ids(book.orders@, index);
            assert forall|id: OrderId| #[trigger] in_account(
                book.orders@,
                id,
                account,
                side,
            ) implies ids.contains(id) && keys.contains((account, side)) by {
                assert(all.contains(id));
                let i = choose|i: int| 0 <= i < all.len() && all[i] == id;
                assert(keys.contains(account_key(book.orders@, all[i])));
            }
            if keys.contains((account, side)) {
                let k = choose|k: int| 0 <= k < keys.len() && keys[k] == (account, side);
                assert(side_listed(book, keys[k]));
                lemma_account_ok(book.orders@, index, account, side, ids);
            } else {
                let none = Seq::<OrderId>::empty();
                assert(ids =~= none);
                lemma_account_ok(book.orders@, empty_side(), account, side, none);
            }
        }
    }
    if forall|account: AccountId, side: Side|
        account_ok(book.orders@, #[trigger] book.account_side(account, side), account, side) {
        assert forall|id: OrderId| #[trigger] book.orders@.dom().contains(id) implies all.contains(
            id,
        ) by {
            let key = account_key(book.orders@, id);
            let index = book.account_side(key.0, key.1);
            assert(account_ok(book.orders@, index, key.0, key.1));
            lemma_account_spells(book.orders@, index, key.0, key.1);
            assert(in_account(book.orders@, id, key.0, key.1));
            assert(account_ids(book.orders@, index).contains(id));
            assert(keys.contains(key)) by {
                if !keys.contains(key) {
                    assert(index == empty_side());
                    assert(account_ids(book.orders@, index) =~= Seq::<OrderId>::empty());
                }
            }
            let k = choose|k: int| 0 <= k < keys.len() && keys[k] == key;
            lemma_part_of_sides(book, keys, k, id);
        }
        lemma_covering_members(all, book.orders@.dom());
    }
}

impl CallAuctionBook {
    /// Follows every queue.
    fn validate_queues(&self) -> (r: Result<(), CallAuctionInvariantViolation>)
        requires
            self.storage_ok(),
        ensures
            r is Ok ==> self.queues_ok(),
            r is Err ==> !(self.queues_ok() && self.orders_ok()),
            match r {
                Ok(_) => queues_fault(self.orders@, self.queue_list(), 0, 0) is None,
                Err(error) => queues_fault(self.orders@, self.queue_list(), 0, 0) == Some(
                    error.detail@,
                ),
            },
    {
        let ghost queues = self.queue_list();
        proof {
            reveal_with_fuel(queues_fault, 3);
            assert(queues[0] == (self.market_buys, Side::Buy, AuctionOrderConstraint::Market));
            assert(queues[1] == (self.market_sells, Side::Sell, AuctionOrderConstraint::Market));
        }
        proof {
            self.orders.lemma_view();
            self.bids.lemma_view();
            self.asks.lemma_view();
        }
        let ghost mut keys = Seq::<QueueKey>::empty();
        let buy_market = Ghost((Side::Buy, AuctionOrderConstraint::Market));
        let sell_market = Ghost((Side::Sell, AuctionOrderConstraint::Market));
        let mut indexed: usize = 0;
        match self.validate_queue(
            self.market_buys,
            Side::Buy,
            AuctionOrderConstraint::Market,
            indexed,
        ) {
            Ok(total) => {
                proof {
                    lemma_follow_queue(self, keys, buy_market@, true);
                    keys = keys.push(buy_market@);
                }
                indexed = total;
            },
            Err(error) => {
                proof {
                    lemma_follow_queue(self, keys, buy_market@, false);
                }
                return Err(error);
            },
        }
        proof {
            assert(!keys.contains(sell_market@));
        }
        match self.validate_queue(
            self.market_sells,
            Side::Sell,
            AuctionOrderConstraint::Market,
            indexed,
        ) {
            Ok(total) => {
                proof {
                    lemma_follow_queue(self, keys, sell_market@, true);
                    keys = keys.push(sell_market@);
                    assert(keys =~= audit_keys(self, 0, 0));
                }
                indexed = total;
            },
            Err(error) => {
                proof {
                    lemma_follow_queue(self, keys, sell_market@, false);
                }
                return Err(error);
            },
        }
        let mut bid: usize = 0;
        while bid < self.bids.len()
            invariant
                queues == self.queue_list(),
                queues_fault(self.orders@, queues, 0, 0) == queues_fault(
                    self.orders@,
                    queues,
                    bid + 2,
                    indexed as int,
                ),
                self.storage_ok(),
                bid <= self.bids.entries@.len(),
                keys == audit_keys(self, bid as nat, 0),
                queues_listed(self, keys),
                indexed == queues_concat(self, keys).len(),
                indexed <= self.orders@.len(),
            decreases self.bids.entries@.len() - bid,
        {
            let price = self.bids.key_at(bid);
            let queue = self.bids.value_at(bid);
            let key = Ghost((Side::Buy, AuctionOrderConstraint::Limit(price)));
            proof {
                self.bids.lemma_view();
                assert(queues[bid + 2] == (
                    queue,
                    Side::Buy,
                    AuctionOrderConstraint::Limit(price),
                ));
                assert(self.queue_of(Side::Buy, AuctionOrderConstraint::Limit(price)) == queue);
                assert(!keys.contains(key@)) by {
                    if keys.contains(key@) {
                        let k = choose|k: int| 0 <= k < keys.len() && keys[k] == key@;
                        if k >= 2 {
                            assert(self.bids.entries@[k - 2].0 == price);
                            assert(self.bids.entries@[k - 2].0.raw
                                < self.bids.entries@[bid as int].0.raw);
                        }
                    }
                }
            }
            match self.validate_queue(
                queue,
                Side::Buy,
                AuctionOrderConstraint::Limit(price),
                indexed,
            ) {
                Ok(total) => {
                    proof {
                        lemma_follow_queue(self, keys, key@, true);
                        keys = keys.push(key@);
                        assert(keys =~= audit_keys(self, (bid + 1) as nat, 0));
                    }
                    indexed = total;
                },
                Err(error) => {
                    proof {
                        lemma_follow_queue(self, keys, key@, false);
                    }
                    return Err(error);
                },
            }
            bid += 1;
        }
        let mut ask: usize = 0;
        while ask < self.asks.len()
            invariant
                queues == self.queue_list(),
                queues_fault(self.orders@, queues, 0, 0) == queues_fault(
                    self.orders@,
                    queues,
                    self.bids.entries@.len() + ask + 2,
                    indexed as int,
                ),
                self.storage_ok(),
                ask <= self.asks.entries@.len(),
                keys == audit_keys(self, self.bids.entries@.len(), ask as nat),
                queues_listed(self, keys),
                indexed == queues_concat(self, keys).len(),
                indexed <= self.orders@.len(),
            decreases self.asks.entries@.len() - ask,
        {
            let price = self.asks.key_at(ask);
            let queue = self.asks.value_at(ask);
            let key = Ghost((Side::Sell, AuctionOrderConstraint::Limit(price)));
            proof {
                self.asks.lemma_view();
                assert(queues[self.bids.entries@.len() + ask + 2] == (
                    queue,
                    Side::Sell,
                    AuctionOrderConstraint::Limit(price),
                ));
                assert(self.queue_of(Side::Sell, AuctionOrderConstraint::Limit(price)) == queue);
                assert(!keys.contains(key@)) by {
                    if keys.contains(key@) {
                        let k = choose|k: int| 0 <= k < keys.len() && keys[k] == key@;
                        let j = k - 2 - self.bids.entries@.len();
                        if j >= 0 {
                            assert(self.asks.entries@[j].0 == price);
                            assert(self.asks.entries@[j].0.raw
                                < self.asks.entries@[ask as int].0.raw);
                        }
                    }
                }
            }
            match self.validate_queue(
                queue,
                Side::Sell,
                AuctionOrderConstraint::Limit(price),
                indexed,
            ) {
                Ok(total) => {
                    proof {
                        lemma_follow_queue(self, keys, key@, true);
                        keys = keys.push(key@);
                        assert(keys =~= audit_keys(
                            self,
                            self.bids.entries@.len(),
                            (ask + 1) as nat,
                        ));
                    }
                    indexed = total;
                },
                Err(error) => {
                    proof {
                        lemma_follow_queue(self, keys, key@, false);
                    }
                    return Err(error);
                },
            }
            ask += 1;
        }
        proof {
            lemma_queues_complete(self);
        }
        if indexed != self.orders.len() {
            return Err(
                CallAuctionInvariantViolation::new("active order index contains an unqueued order"),
            );
        }
        Ok(())
    }

    /// Follows every account list.
    fn validate_account_order_index(&self) -> (r: Result<(), CallAuctionInvariantViolation>)
        requires
            self.storage_ok(),
        ensures
            r is Ok ==> self.accounts_ok(),
            r is Err ==> !(self.accounts_ok() && self.orders_ok()),
            match r {
                Ok(_) => accounts_fault(self.orders@, self.account_orders.entries@, 0, 0) is None,
                Err(error) => accounts_fault(
                    self.orders@,
                    self.account_orders.entries@,
                    0,
                    0,
                ) == Some(error.detail@),
            },
    {
        let ghost mut keys = Seq::<AccountKey>::empty();
        let mut indexed: usize = 0;
        let mut account: usize = 0;
        proof {
            self.orders.lemma_view();
            assert(keys =~= audit_accounts(self, 0));
        }
        while account < self.account_orders.len()
            invariant
                accounts_fault(self.orders@, self.account_orders.entries@, 0, 0) == accounts_fault(
                    self.orders@,
                    self.account_orders.entries@,
                    account as int,
                    indexed as int,
                ),
                self.storage_ok(),
                account <= self.account_orders.entries@.len(),
                keys == audit_accounts(self, account as nat),
                sides_listed(self, keys),
                indexed == sides_concat(self, keys).len(),
                indexed <= self.orders@.len(),
                forall|i: int|
                    0 <= i < account ==> !(#[trigger] self.account_orders.entries@[i]).1.vacant(),
            decreases self.account_orders.entries@.len() - account,
        {
            let account_id = self.account_orders.key_at(account);
            let index = self.account_orders.value_at(account);
            proof {
                self.account_orders.lemma_view();
                assert(self.account_orders@.dom().contains(account_id));
                assert(self.account_orders@[account_id] == index);
            }
            if index.is_empty() {
                return Err(
                    CallAuctionInvariantViolation::new(
                        "empty account remains in the active-order account index",
                    ),
                );
            }
            let buy_key = Ghost((account_id, Side::Buy));
            let sell_key = Ghost((account_id, Side::Sell));
            proof {
                assert forall|s: Side| !keys.contains((account_id, s)) by {
                    if keys.contains((account_id, s)) {
                        let k = choose|k: int| 0 <= k < keys.len() && keys[k] == (account_id, s);
                        assert(self.account_orders.entries@[k / 2].0 == account_id);
                        assert(k / 2 < account);
                        assert(self.account_orders.entries@[k / 2].0.value
                            < self.account_orders.entries@[account as int].0.value);
                    }
                }
                assert(!keys.contains(buy_key@));
                assert(!keys.contains(sell_key@));
            }
            match self.validate_account_side(index.buys, account_id, Side::Buy, indexed) {
                Ok(total) => {
                    proof {
                        lemma_follow_side(self, keys, buy_key@, true);
                        assert(!keys.push(buy_key@).contains(sell_key@)) by {
                            let grown = keys.push(buy_key@);
                            if grown.contains(sell_key@) {
                                let k = choose|k: int| 0 <= k < grown.len() && grown[k] == sell_key@;
                                if k < keys.len() {
                                    assert(keys[k] == sell_key@);
                                }
                            }
                        }
                        keys = keys.push(buy_key@);
                    }
                    indexed = total;
                },
                Err(error) => {
                    proof {
                        lemma_follow_side(self, keys, buy_key@, false);
                    }
                    return Err(error);
                },
            }
            match self.validate_account_side(index.sells, account_id, Side::Sell, indexed) {
                Ok(total) => {
                    proof {
                        lemma_follow_side(self, keys, sell_key@, true);
                        keys = keys.push(sell_key@);
                        assert(keys =~= audit_accounts(self, (account + 1) as nat));
                    }
                    indexed = total;
                },
                Err(error) => {
                    proof {
                        lemma_follow_side(self, keys, sell_key@, false);
                    }
                    return Err(error);
                },
            }
            account += 1;
        }
        proof {
            lemma_sides_complete(self);
            self.account_orders.lemma_view();
            assert forall|id: AccountId| #[trigger] self.account_orders@.dom().contains(
                id,
            ) implies !self.account_orders@[id].vacant() by {
                let i = choose|i: int|
                    0 <= i < self.account_orders.entries@.len() && (
                    #[trigger] self.account_orders.entries@[i]).0 == id;
                assert(self.account_orders@[self.account_orders.entries@[i].0]
                    == self.account_orders.entries@[i].1);
            }
        }
        if indexed != self.orders.len() {
            return Err(
                CallAuctionInvariantViolation::new(
                    "active order index contains an order absent from account indexes",
                ),
            );
        }
        Ok(())
    }

    /// Audits every redundant index, list, aggregate, priority relation, and
    /// finite bound, and accepts the book exactly when all of them agree.
    pub fn validate(&self) -> (r: Result<(), CallAuctionInvariantViolation>)
        requires
            self.config_ok(),
        ensures
            r is Ok <==> self.audited(),
            match r {
                Ok(_) => self.audit_fault() is None,
                Err(error) => self.audit_fault() == Some(error.detail@),
            },
    {
        match self.validate_storage() {
            Ok(()) => {},
            Err(error) => {
                return Err(error);
            },
        }
        match self.validate_queues() {
            Ok(()) => {},
            Err(error) => {
                return Err(error);
            },
        }
        match self.validate_account_order_index() {
            Ok(()) => {},
            Err(error) => {
                return Err(error);
            },
        }
        self.validate_active_orders()
    }
}

} // verus!
