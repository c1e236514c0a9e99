//! Threading orders into and out of the queues and account lists of the book.
//!
//! `link_order`, `remove_active_order` and `resize_order` are the only ways in
//! which active orders change; each keeps the book well formed.

use vstd::prelude::*;

use crate::auction::AuctionOrderConstraint;
use crate::book_lemmas::{
    lemma_account_ends, lemma_account_frame, lemma_account_member, lemma_account_push,
    lemma_account_remove, lemma_account_resize, lemma_account_spells, lemma_queue_ends,
    lemma_queue_frame, lemma_queue_member, lemma_queue_push, lemma_queue_remove, lemma_queue_resize,
    queue_without, side_without,
};
use crate::book_state::{
    account_ok, empty_queue, empty_side, in_account, in_queue, queue_ok, AuctionAccountIndex,
    AuctionAccountSideIndex, AuctionQueue, CallAuctionBook, RestingAuctionOrder, RestingOrders,
};
use crate::book_types::CallAuctionOrderSnapshot;
use crate::chain::lemma_distinct_members;
use crate::domain::{AccountId, OrderId, Price, Quantity, Side};
use crate::ordered_map::OrderedMap;

verus! {

/// Occupied prices of a side after one of its queues is stored.
pub open spec fn levels_after(
    prices: Set<Price>,
    same_side: bool,
    constraint: AuctionOrderConstraint,
    emptied: bool,
) -> Set<Price> {
    match constraint {
        AuctionOrderConstraint::Market => prices,
        AuctionOrderConstraint::Limit(price) => if !same_side {
            prices
        } else if emptied {
            prices.remove(price)
        } else {
            prices.insert(price)
        },
    }
}

impl CallAuctionBook {
    /// Returns the queue of one side and constraint.
    pub(crate) fn queue_snapshot(&self, side: Side, constraint: AuctionOrderConstraint) -> (r:
        AuctionQueue)
        requires
            self.bids.wf(),
            self.asks.wf(),
        ensures
            r == self.queue_of(side, constraint),
    {
        match constraint {
            AuctionOrderConstraint::Market => match side {
                Side::Buy => self.market_buys,
                Side::Sell => self.market_sells,
            },
            AuctionOrderConstraint::Limit(price) => {
                let found = match side {
                    Side::Buy => self.bids.get(price),
                    Side::Sell => self.asks.get(price),
                };
                match found {
                    Some(queue) => queue,
                    None => AuctionQueue::default(),
                }
            },
        }
    }

    /// Returns the list of one account and side.
    pub(crate) fn account_side_snapshot(&self, account_id: AccountId, side: Side) -> (r:
        AuctionAccountSideIndex)
        requires
            self.account_orders.wf(),
        ensures
            r == self.account_side(account_id, side),
    {
        match self.account_orders.get(account_id) {
            Some(index) => index.side(side),
            None => AuctionAccountSideIndex::default(),
        }
    }

    /// Everything but the queues is unchanged.
    pub open spec fn same_but_queues(&self, other: &Self) -> bool {
        &&& self.same_shell(other)
        &&& self.orders == other.orders
        &&& self.account_orders == other.account_orders
        &&& self.seen_order_ids == other.seen_order_ids
        &&& self.next_priority_sequence == other.next_priority_sequence
        &&& self.next_trade_id == other.next_trade_id
        &&& self.state_revision == other.state_revision
    }

    /// Whether the queue of one side and constraint can be stored.
    pub open spec fn level_room(&self, side: Side, constraint: AuctionOrderConstraint) -> bool {
        match constraint {
            AuctionOrderConstraint::Market => true,
            AuctionOrderConstraint::Limit(price) => {
                ||| self.level_map(side).dom().contains(price)
                ||| self.level_map(side).len() < self.limits.price_levels_per_side
            },
        }
    }

    /// Stores the queue of one side and constraint; an empty one is dropped.
    fn replace_queue(&mut self, side: Side, constraint: AuctionOrderConstraint, queue: AuctionQueue)
        requires
            old(self).bids.wf(),
            old(self).asks.wf(),
            old(self).levels_occupied(),
            queue.order_count == 0 ==> queue == empty_queue(),
            queue.order_count > 0 ==> old(self).level_room(side, constraint),
            old(self).bids.entries@.len() <= old(self).limits.price_levels_per_side,
            old(self).asks.entries@.len() <= old(self).limits.price_levels_per_side,
        ensures
            final(self).same_but_queues(old(self)),
            final(self).bids.wf(),
            final(self).asks.wf(),
            final(self).bids.maximum == old(self).bids.maximum,
            final(self).asks.maximum == old(self).asks.maximum,
            final(self).bids.reserved == old(self).bids.reserved,
            final(self).asks.reserved == old(self).asks.reserved,
            final(self).bids.entries@.len() <= final(self).limits.price_levels_per_side,
            final(self).asks.entries@.len() <= final(self).limits.price_levels_per_side,
            final(self).levels_occupied(),
            queue.order_count == 0 || old(self).queue_of(side, constraint).order_count > 0 ==> {
                &&& final(self).bids.entries@.len() <= old(self).bids.entries@.len()
                &&& final(self).asks.entries@.len() <= old(self).asks.entries@.len()
            },
            final(self).queue_of(side, constraint) == queue,
            forall|s: Side, c: AuctionOrderConstraint|
                s != side || c != constraint ==> #[trigger] final(self).queue_of(s, c) == old(
                    self,
                ).queue_of(s, c),
            forall|s: Side| #[trigger]
                final(self).level_map(s).dom() == levels_after(
                    old(self).level_map(s).dom(),
                    s == side,
                    constraint,
                    queue.order_count == 0,
                ),
    {
        proof {
            self.bids.lemma_view();
            self.asks.lemma_view();
        }
        match constraint {
            AuctionOrderConstraint::Market => match side {
                Side::Buy => {
                    self.market_buys = queue;
                },
                Side::Sell => {
                    self.market_sells = queue;
                },
            },
            AuctionOrderConstraint::Limit(price) => {
                if queue.order_count == 0 {
                    match side {
                        Side::Buy => {
                            let _removed = self.bids.remove(price);
                        },
                        Side::Sell => {
                            let _removed = self.asks.remove(price);
                        },
                    }
                } else {
                    match side {
                        Side::Buy => {
                            let _replaced = self.bids.insert(price, queue);
                        },
                        Side::Sell => {
                            let _replaced = self.asks.insert(price, queue);
                        },
                    }
                }
            },
        }
        proof {
            assert forall|s: Side| #[trigger] self.level_map(s).dom() == levels_after(
                old(self).level_map(s).dom(),
                s == side,
                constraint,
                queue.order_count == 0,
            ) by {
                assert(self.level_map(s).dom() =~= levels_after(
                    old(self).level_map(s).dom(),
                    s == side,
                    constraint,
                    queue.order_count == 0,
                ));
            }
        }
    }

    /// Everything but the account index is unchanged.
    pub open spec fn same_but_accounts(&self, other: &Self) -> bool {
        &&& self.same_shell(other)
        &&& self.orders == other.orders
        &&& self.seen_order_ids == other.seen_order_ids
        &&& self.bids == other.bids
        &&& self.asks == other.asks
        &&& self.market_buys == other.market_buys
        &&& self.market_sells == other.market_sells
        &&& self.next_priority_sequence == other.next_priority_sequence
        &&& self.next_trade_id == other.next_trade_id
        &&& self.state_revision == other.state_revision
    }

    /// Accounts present in the index own an order.
    pub open spec fn accounts_occupied(&self) -> bool {
        forall|account: AccountId| #[trigger]
            self.account_orders@.dom().contains(account)
                ==> !self.account_orders@[account].vacant()
    }

    /// Stores the list of one account and side; an empty account is dropped.
    fn replace_account_side(
        &mut self,
        account_id: AccountId,
        side: Side,
        side_index: AuctionAccountSideIndex,
    )
        requires
            old(self).account_orders.wf(),
            old(self).accounts_occupied(),
            side_index.order_count == 0 ==> side_index == empty_side(),
            forall|s: Side|
                (#[trigger] old(self).account_side(account_id, s)).order_count == 0 ==> old(
                    self,
                ).account_side(account_id, s) == empty_side(),
        ensures
            final(self).same_but_accounts(old(self)),
            final(self).account_orders.wf(),
            final(self).account_orders.maximum == old(self).account_orders.maximum,
            final(self).account_orders.reserved == old(self).account_orders.reserved,
            final(self).accounts_occupied(),
            final(self).account_side(account_id, side) == side_index,
            forall|a: AccountId, s: Side|
                a != account_id || s != side ==> #[trigger] final(self).account_side(a, s) == old(
                    self,
                ).account_side(a, s),
    {
        let mut index = match self.account_orders.get(account_id) {
            Some(found) => found,
            None => AuctionAccountIndex::default(),
        };
        let other = match side {
            Side::Buy => Side::Sell,
            Side::Sell => Side::Buy,
        };
        proof {
            assert(index.of(other) == self.account_side(account_id, other));
        }
        index.set_side(side, side_index);
        if index.is_empty() {
            let _removed = self.account_orders.remove(account_id);
        } else {
            let _replaced = self.account_orders.insert(account_id, index);
        }
    }

    /// Accounts are no more numerous than active orders.
    pub proof fn lemma_accounts_bounded(&self)
        requires
            self.orders.wf(),
            self.account_orders.wf(),
            self.accounts_ok(),
        ensures
            self.account_orders.entries@.len() <= self.orders.entries@.len(),
    {
        self.orders.lemma_view();
        self.account_orders.lemma_view();
        let entries = self.account_orders.entries@;
        let owner = |i: int|
            if entries[i].1.buys.order_count > 0 {
                entries[i].1.buys.head->0
            } else {
                entries[i].1.sells.head->0
            };
        let ids = Seq::new(entries.len(), |i: int| owner(i));
        assert forall|i: int| 0 <= i < ids.len() implies self.orders@.dom().contains(
            #[trigger] ids[i],
        ) && self.orders@[ids[i]].account_id == entries[i].0 by {
            let account = entries[i].0;
            assert(self.account_orders@.dom().contains(account));
            assert(self.account_orders@[account] == entries[i].1);
            assert(account_ok(
                self.orders@,
                self.account_side(account, Side::Buy),
                account,
                Side::Buy,
            ));
            assert(account_ok(
                self.orders@,
                self.account_side(account, Side::Sell),
                account,
                Side::Sell,
            ));
            lemma_account_ends(
                self.orders@,
                self.account_side(account, Side::Buy),
                account,
                Side::Buy,
            );
            lemma_account_ends(
                self.orders@,
                self.account_side(account, Side::Sell),
                account,
                Side::Sell,
            );
        }
        assert forall|i: int, j: int| 0 <= i < j < ids.len() implies #[trigger] ids[i]
            != #[trigger] ids[j] by {
            assert(entries[i].0.value < entries[j].0.value);
        }
        lemma_distinct_members(ids, self.orders@.dom());
    }

    /// Whether an order with these queue and account aggregates stays representable.
    pub open spec fn aggregates_fit(
        queue: AuctionQueue,
        account_side: AuctionAccountSideIndex,
        quantity: Quantity,
    ) -> bool {
        &&& queue.total_quantity + quantity.lots <= u128::MAX
        &&& queue.order_count + 1 <= u64::MAX
        &&& account_side.total_quantity + quantity.lots <= u128::MAX
        &&& account_side.order_count + 1 <= usize::MAX
    }

    /// Threads one new order into its queue and its account list.
    pub(crate) fn link_order(&mut self, order: CallAuctionOrderSnapshot)
        requires
            old(self).wf(),
            old(self).seen_order_ids@.dom().contains(order.order_id),
            !old(self).orders@.dom().contains(order.order_id),
            old(self).orders@.len() < old(self).limits.active_orders,
            old(self).definition.quantity.admits_leaves(order.quantity),
            order.constraint matches AuctionOrderConstraint::Limit(price) ==> old(
                self,
            ).definition.price.admits(price),
            old(self).level_room(order.side, order.constraint),
            0 < order.priority_sequence < old(self).next_priority_sequence,
            forall|id: OrderId| #[trigger]
                in_queue(old(self).orders@, id, order.side, order.constraint) ==> old(
                    self,
                ).orders@[id].priority_sequence < order.priority_sequence,
            Self::aggregates_fit(
                old(self).queue_of(order.side, order.constraint),
                old(self).account_side(order.account_id, order.side),
                order.quantity,
            ),
        ensures
            final(self).wf(),
            final(self).same_shell(old(self)),
            final(self).active() == old(self).active().insert(order.order_id, order),
            final(self).orders@.len() == old(self).orders@.len() + 1,
            final(self).seen_order_ids == old(self).seen_order_ids,
            final(self).next_priority_sequence == old(self).next_priority_sequence,
            final(self).next_trade_id == old(self).next_trade_id,
            final(self).state_revision == old(self).state_revision,
    {
        let id = order.order_id;
        let ghost before = self.orders@;
        let ghost entry = *self;
        let queue = self.queue_snapshot(order.side, order.constraint);
        let account_side = self.account_side_snapshot(order.account_id, order.side);
        proof {
            assert(queue_ok(before, self.queue_of(order.side, order.constraint), order.side, order.constraint));
            assert(account_ok(before, self.account_side(order.account_id, order.side), order.account_id, order.side));
            lemma_queue_ends(before, queue, order.side, order.constraint);
            lemma_account_ends(before, account_side, order.account_id, order.side);
            self.orders.lemma_view();
        }
        let resting = RestingAuctionOrder {
            order_id: id,
            account_id: order.account_id,
            side: order.side,
            constraint: order.constraint,
            quantity: order.quantity,
            priority_class: order.priority_class,
            priority_sequence: order.priority_sequence,
            previous: queue.tail,
            next: None,
            account_previous: account_side.tail,
            account_next: None,
        };
        if let Some(tail) = account_side.tail {
            if let Some(found) = self.orders.get(tail) {
                let mut changed = found;
                changed.account_next = Some(id);
                let _replaced = self.orders.insert(tail, changed);
            }
        }
        if let Some(tail) = queue.tail {
            if let Some(found) = self.orders.get(tail) {
                let mut changed = found;
                changed.next = Some(id);
                let _replaced = self.orders.insert(tail, changed);
            }
        }
        let _replaced = self.orders.insert(id, resting);
        let ghost after = self.orders@;
        proof {
            self.orders.lemma_view();
            assert(after.dom() =~= before.dom().insert(id));
            assert(after[id] == resting);
            assert forall|other: OrderId| #[trigger] before.dom().contains(other) implies after[other]
                == (RestingAuctionOrder {
                next: if queue.tail == Some(other) {
                    Some(id)
                } else {
                    before[other].next
                },
                account_next: if account_side.tail == Some(other) {
                    Some(id)
                } else {
                    before[other].account_next
                },
                ..before[other]
            }) by {}
        }
        let new_queue = AuctionQueue {
            head: match queue.head {
                Some(head) => Some(head),
                None => Some(id),
            },
            tail: Some(id),
            total_quantity: queue.total_quantity + order.quantity.lots as u128,
            order_count: queue.order_count + 1,
        };
        let new_side = AuctionAccountSideIndex {
            head: match account_side.head {
                Some(head) => Some(head),
                None => Some(id),
            },
            tail: Some(id),
            order_count: account_side.order_count + 1,
            total_quantity: account_side.total_quantity + order.quantity.lots as u128,
        };
        self.replace_queue(order.side, order.constraint, new_queue);
        let ghost queued = *self;
        proof {
            assert forall|s: Side|
                (#[trigger] self.account_side(order.account_id, s)).order_count
                    == 0 implies self.account_side(order.account_id, s) == empty_side() by {
                assert(self.account_side(order.account_id, s) == entry.account_side(
                    order.account_id,
                    s,
                ));
                lemma_empty_side(
                    before,
                    entry.account_side(order.account_id, s),
                    order.account_id,
                    s,
                );
            }
        }
        self.replace_account_side(order.account_id, order.side, new_side);
        proof {
            lemma_link(before, after, queue, account_side, resting);
            assert forall|s: Side, c: AuctionOrderConstraint| queue_ok(
                self.orders@,
                #[trigger] self.queue_of(s, c),
                s,
                c,
            ) by {
                assert(queue_ok(before, entry.queue_of(s, c), s, c));
                assert(self.queue_of(s, c) == queued.queue_of(s, c));
                if s != order.side || c != order.constraint {
                    lemma_link_other_queue(before, after, queue, account_side, resting, entry.queue_of(s, c), s, c);
                }
            }
            assert forall|a: AccountId, s: Side| account_ok(
                self.orders@,
                #[trigger] self.account_side(a, s),
                a,
                s,
            ) by {
                assert(account_ok(before, entry.account_side(a, s), a, s));
                if a != order.account_id || s != order.side {
                    lemma_link_other_account(before, after, queue, account_side, resting, entry.account_side(a, s), a, s);
                }
            }
            assert forall|other: OrderId| #[trigger] self.orders@.dom().contains(other) implies self.order_ok(
                other,
            ) by {
                if other != id {
                    assert(before.dom().contains(other));
                    assert(entry.order_ok(other));
                    lemma_account_present(self, other);
                } else {
                    lemma_account_present(self, other);
                }
            }
            assert(self.active() =~= entry.active().insert(id, order)) by {
                assert forall|other: OrderId| #[trigger] self.active().dom().contains(other) implies self.active()[other]
                    == entry.active().insert(id, order)[other] by {
                    if other != id {
                        assert(before.dom().contains(other));
                    }
                }
            }
            self.lemma_accounts_bounded();
        }
    }
}

impl CallAuctionBook {
    /// A queue after one active order has left the book.
    pub open spec fn queue_after_removal(
        &self,
        order_id: OrderId,
        side: Side,
        constraint: AuctionOrderConstraint,
    ) -> AuctionQueue {
        let order = self.orders@[order_id];
        if order.side == side && order.constraint == constraint {
            queue_without(self.queue_of(side, constraint), order)
        } else {
            self.queue_of(side, constraint)
        }
    }

    /// An account list after one active order has left the book.
    pub open spec fn side_after_removal(
        &self,
        order_id: OrderId,
        account: AccountId,
        side: Side,
    ) -> AuctionAccountSideIndex {
        let order = self.orders@[order_id];
        if order.side == side && order.account_id == account {
            side_without(self.account_side(account, side), order)
        } else {
            self.account_side(account, side)
        }
    }

    /// Occupied prices of a side after one active order has left the book.
    pub open spec fn levels_after_removal(&self, order_id: OrderId, side: Side) -> Set<Price> {
        let order = self.orders@[order_id];
        if order.side == side && self.queue_of(side, order.constraint).order_count == 1 {
            levels_after(self.level_map(side).dom(), true, order.constraint, true)
        } else {
            self.level_map(side).dom()
        }
    }

    /// Unthreads one active order from its queue and its account list.
    pub(crate) fn remove_active_order(&mut self, order_id: OrderId) -> (r: CallAuctionOrderSnapshot)
        requires
            old(self).wf(),
            old(self).orders@.dom().contains(order_id),
        ensures
            final(self).wf(),
            final(self).same_shell(old(self)),
            r == old(self).active()[order_id],
            final(self).active() == old(self).active().remove(order_id),
            final(self).orders@.len() == old(self).orders@.len() - 1,
            final(self).seen_order_ids == old(self).seen_order_ids,
            final(self).next_priority_sequence == old(self).next_priority_sequence,
            final(self).next_trade_id == old(self).next_trade_id,
            final(self).state_revision == old(self).state_revision,
            forall|s: Side, c: AuctionOrderConstraint| #[trigger]
                final(self).queue_of(s, c) == old(self).queue_after_removal(order_id, s, c),
            forall|a: AccountId, s: Side| #[trigger]
                final(self).account_side(a, s) == old(self).side_after_removal(order_id, a, s),
            forall|s: Side| #[trigger]
                final(self).level_map(s).dom() == old(self).levels_after_removal(order_id, s),
    {
        let ghost before = self.orders@;
        let ghost entry = *self;
        let order = self.orders.fetch(order_id);
        let queue = self.queue_snapshot(order.side, order.constraint);
        let account_side = self.account_side_snapshot(order.account_id, order.side);
        proof {
            assert(self.order_ok(order_id));
            assert(queue_ok(
                before,
                self.queue_of(order.side, order.constraint),
                order.side,
                order.constraint,
            ));
            assert(account_ok(
                before,
                self.account_side(order.account_id, order.side),
                order.account_id,
                order.side,
            ));
            assert(in_queue(before, order_id, order.side, order.constraint));
            assert(in_account(before, order_id, order.account_id, order.side));
            lemma_queue_member(before, queue, order.side, order.constraint, order_id);
            lemma_account_member(before, account_side, order.account_id, order.side, order_id);
            self.orders.lemma_view();
            self.bids.lemma_view();
            self.asks.lemma_view();
        }
        unlink_neighbours(&mut self.orders, order);
        let ghost after = self.orders@;
        assert(linked_out(before, after, queue, account_side, order));
        let new_queue = AuctionQueue {
            head: if queue.head == Some(order_id) {
                order.next
            } else {
                queue.head
            },
            tail: if queue.tail == Some(order_id) {
                order.previous
            } else {
                queue.tail
            },
            total_quantity: queue.total_quantity - order.quantity.lots as u128,
            order_count: queue.order_count - 1,
        };
        let new_side = AuctionAccountSideIndex {
            head: if account_side.head == Some(order_id) {
                order.account_next
            } else {
                account_side.head
            },
            tail: if account_side.tail == Some(order_id) {
                order.account_previous
            } else {
                account_side.tail
            },
            order_count: account_side.order_count - 1,
            total_quantity: account_side.total_quantity - order.quantity.lots as u128,
        };
        proof {
            lemma_queue_remove(before, after, queue, order.side, order.constraint, order_id);
            lemma_account_remove(
                before,
                after,
                account_side,
                order.account_id,
                order.side,
                order_id,
            );
            assert(new_queue == queue_without(queue, order));
            assert(new_side == side_without(account_side, order));
        }
        self.replace_queue(order.side, order.constraint, new_queue);
        let ghost queued = *self;
        proof {
            assert forall|s: Side|
                (#[trigger] self.account_side(order.account_id, s)).order_count
                    == 0 implies self.account_side(order.account_id, s) == empty_side() by {
                assert(self.account_side(order.account_id, s) == entry.account_side(
                    order.account_id,
                    s,
                ));
                lemma_empty_side(
                    before,
                    entry.account_side(order.account_id, s),
                    order.account_id,
                    s,
                );
            }
        }
        self.replace_account_side(order.account_id, order.side, new_side);
        proof {
            assert forall|s: Side, c: AuctionOrderConstraint|
                s != order.side || c != order.constraint implies #[trigger] self.queue_of(s, c)
                == entry.queue_of(s, c) by {
                assert(self.queue_of(s, c) == queued.queue_of(s, c));
            }
            assert(self.queue_of(order.side, order.constraint) == queued.queue_of(
                order.side,
                order.constraint,
            ));
            lemma_unlinked_lists(&entry, self, order);
            lemma_unlinked_orders(&entry, self, order);
            self.lemma_accounts_bounded();
            assert forall|s: Side| #[trigger] self.level_map(s).dom()
                == entry.levels_after_removal(order_id, s) by {
                assert(self.level_map(s).dom() == queued.level_map(s).dom());
                if queue.order_count > 1 {
                    assert(queued.level_map(s).dom() =~= entry.level_map(s).dom());
                }
            }
        }
        order.snapshot()
    }

    /// Reduces the leaves of one active order and keeps its place.
    pub(crate) fn resize_order(&mut self, order_id: OrderId, quantity: Quantity)
        requires
            old(self).wf(),
            old(self).orders@.dom().contains(order_id),
            old(self).definition.quantity.admits_leaves(quantity),
            quantity.lots <= old(self).orders@[order_id].quantity.lots,
        ensures
            final(self).wf(),
            final(self).same_shell(old(self)),
            final(self).active() == old(self).active().insert(
                order_id,
                CallAuctionOrderSnapshot { quantity, ..old(self).active()[order_id] },
            ),
            final(self).orders@.len() == old(self).orders@.len(),
            final(self).seen_order_ids == old(self).seen_order_ids,
            final(self).next_priority_sequence == old(self).next_priority_sequence,
            final(self).next_trade_id == old(self).next_trade_id,
            final(self).state_revision == old(self).state_revision,
    {
        let ghost before = self.orders@;
        let ghost entry = *self;
        let order = self.orders.fetch(order_id);
        let queue = self.queue_snapshot(order.side, order.constraint);
        let account_side = self.account_side_snapshot(order.account_id, order.side);
        proof {
            assert(self.order_ok(order_id));
            assert(queue_ok(
                before,
                self.queue_of(order.side, order.constraint),
                order.side,
                order.constraint,
            ));
            assert(account_ok(
                before,
                self.account_side(order.account_id, order.side),
                order.account_id,
                order.side,
            ));
            assert(in_queue(before, order_id, order.side, order.constraint));
            assert(in_account(before, order_id, order.account_id, order.side));
            lemma_queue_member(before, queue, order.side, order.constraint, order_id);
            lemma_account_member(before, account_side, order.account_id, order.side, order_id);
            self.orders.lemma_view();
        }
        let delta: u64 = order.quantity.lots - quantity.lots;
        let mut changed = order;
        changed.quantity = quantity;
        let _replaced = self.orders.insert(order_id, changed);
        let ghost after = self.orders@;
        let mut new_queue = queue;
        new_queue.total_quantity = queue.total_quantity - delta as u128;
        let mut new_side = account_side;
        new_side.total_quantity = account_side.total_quantity - delta as u128;
        proof {
            self.orders.lemma_view();
            lemma_queue_resize(
                before,
                after,
                queue,
                order.side,
                order.constraint,
                order_id,
                new_queue,
            );
            lemma_account_resize(
                before,
                after,
                account_side,
                order.account_id,
                order.side,
                order_id,
                new_side,
            );
        }
        self.replace_queue(order.side, order.constraint, new_queue);
        let ghost queued = *self;
        proof {
            assert forall|s: Side|
                (#[trigger] self.account_side(order.account_id, s)).order_count
                    == 0 implies self.account_side(order.account_id, s) == empty_side() by {
                assert(self.account_side(order.account_id, s) == entry.account_side(
                    order.account_id,
                    s,
                ));
                lemma_empty_side(
                    before,
                    entry.account_side(order.account_id, s),
                    order.account_id,
                    s,
                );
            }
        }
        self.replace_account_side(order.account_id, order.side, new_side);
        proof {
            assert forall|s: Side, c: AuctionOrderConstraint| queue_ok(
                self.orders@,
                #[trigger] self.queue_of(s, c),
                s,
                c,
            ) by {
                assert(queue_ok(before, entry.queue_of(s, c), s, c));
                assert(self.queue_of(s, c) == queued.queue_of(s, c));
                if s != order.side || c != order.constraint {
                    lemma_queue_frame(before, after, entry.queue_of(s, c), s, c);
                }
            }
            assert forall|a: AccountId, s: Side| account_ok(
                self.orders@,
                #[trigger] self.account_side(a, s),
                a,
                s,
            ) by {
                assert(account_ok(before, entry.account_side(a, s), a, s));
                if a != order.account_id || s != order.side {
                    lemma_account_frame(before, after, entry.account_side(a, s), a, s);
                }
            }
            assert forall|other: OrderId| #[trigger]
                self.orders@.dom().contains(other) implies self.order_ok(other) by {
                assert(before.dom().contains(other));
                assert(entry.order_ok(other));
                assert(account_ok(
                    self.orders@,
                    self.account_side(self.orders@[other].account_id, self.orders@[other].side),
                    self.orders@[other].account_id,
                    self.orders@[other].side,
                ));
                lemma_account_present(self, other);
            }
            assert(self.active() =~= entry.active().insert(
                order_id,
                CallAuctionOrderSnapshot { quantity, ..entry.active()[order_id] },
            ));
            self.lemma_accounts_bounded();
        }
    }
}

/// A neighbour of an order after that order left.
spec fn unlinked_neighbour(
    other: RestingAuctionOrder,
    order: RestingAuctionOrder,
    id: OrderId,
) -> RestingAuctionOrder {
    RestingAuctionOrder {
        previous: if order.next == Some(id) {
            order.previous
        } else {
            other.previous
        },
        next: if order.previous == Some(id) {
            order.next
        } else {
            other.next
        },
        account_previous: if order.account_next == Some(id) {
            order.account_previous
        } else {
            other.account_previous
        },
        account_next: if order.account_previous == Some(id) {
            order.account_next
        } else {
            other.account_next
        },
        ..other
    }
}

/// `after` is `before` with `order` taken out of its queue and account list.
spec fn linked_out(
    before: RestingOrders,
    after: RestingOrders,
    queue: AuctionQueue,
    account_side: AuctionAccountSideIndex,
    order: RestingAuctionOrder,
) -> bool {
    let id = order.order_id;
    &&& before.dom().contains(id)
    &&& before[id] == order
    &&& after.dom() == before.dom().remove(id)
    &&& queue_ok(before, queue, order.side, order.constraint)
    &&& account_ok(before, account_side, order.account_id, order.side)
    &&& forall|other: OrderId| #[trigger]
        before.dom().contains(other) && other != id ==> after[other] == unlinked_neighbour(
            before[other],
            order,
            other,
        )
}

/// Takes one order out of the map and closes the gap in both of its lists.
fn unlink_neighbours(
    orders: &mut OrderedMap<OrderId, RestingAuctionOrder>,
    order: RestingAuctionOrder,
)
    requires
        old(orders).wf(),
        old(orders)@.dom().contains(order.order_id),
        order.previous matches Some(id) ==> old(orders)@.dom().contains(id) && id
            != order.order_id,
        order.next matches Some(id) ==> old(orders)@.dom().contains(id) && id != order.order_id,
        order.account_previous matches Some(id) ==> old(orders)@.dom().contains(id) && id
            != order.order_id,
        order.account_next matches Some(id) ==> old(orders)@.dom().contains(id) && id
            != order.order_id,
    ensures
        final(orders).wf(),
        final(orders).maximum == old(orders).maximum,
        final(orders).reserved == old(orders).reserved,
        final(orders)@.dom() == old(orders)@.dom().remove(order.order_id),
        final(orders).entries@.len() == old(orders).entries@.len() - 1,
        forall|other: OrderId| #[trigger]
            old(orders)@.dom().contains(other) && other != order.order_id ==> final(orders)@[other]
                == unlinked_neighbour(old(orders)@[other], order, other),
{
    let ghost start = orders@;
    if let Some(previous) = order.previous {
        let mut changed = orders.fetch(previous);
        changed.next = order.next;
        let _replaced = orders.insert(previous, changed);
    }
    assert(orders@.dom() =~= start.dom());
    if let Some(next) = order.next {
        let mut changed = orders.fetch(next);
        changed.previous = order.previous;
        let _replaced = orders.insert(next, changed);
    }
    assert(orders@.dom() =~= start.dom());
    if let Some(previous) = order.account_previous {
        let mut changed = orders.fetch(previous);
        changed.account_next = order.account_next;
        let _replaced = orders.insert(previous, changed);
    }
    assert(orders@.dom() =~= start.dom());
    if let Some(next) = order.account_next {
        let mut changed = orders.fetch(next);
        changed.account_previous = order.account_previous;
        let _replaced = orders.insert(next, changed);
    }
    assert(orders@.dom() =~= start.dom());
    let _removed = orders.remove(order.order_id);
    assert(orders@.dom() =~= start.dom().remove(order.order_id));
}

/// What `remove_active_order` leaves of the queues and account lists.
spec fn unlinked_book(entry: &CallAuctionBook, exit: &CallAuctionBook, order: RestingAuctionOrder) -> bool {
    let queue = entry.queue_of(order.side, order.constraint);
    let account_side = entry.account_side(order.account_id, order.side);
    &&& entry.wf()
    &&& linked_out(entry.orders@, exit.orders@, queue, account_side, order)
    &&& exit.queue_of(order.side, order.constraint) == queue_without(queue, order)
    &&& exit.account_side(order.account_id, order.side) == side_without(account_side, order)
    &&& forall|s: Side, c: AuctionOrderConstraint|
        s != order.side || c != order.constraint ==> #[trigger] exit.queue_of(s, c)
            == entry.queue_of(s, c)
    &&& forall|a: AccountId, s: Side|
        a != order.account_id || s != order.side ==> #[trigger] exit.account_side(a, s)
            == entry.account_side(a, s)
}

proof fn lemma_unlinked_lists(
    entry: &CallAuctionBook,
    exit: &CallAuctionBook,
    order: RestingAuctionOrder,
)
    requires
        unlinked_book(entry, exit, order),
    ensures
        exit.queues_ok(),
        forall|account: AccountId, side: Side|
            account_ok(exit.orders@, #[trigger] exit.account_side(account, side), account, side),
{
    let before = entry.orders@;
    let after = exit.orders@;
    let queue = entry.queue_of(order.side, order.constraint);
    let account_side = entry.account_side(order.account_id, order.side);
    let id = order.order_id;
    assert(in_queue(before, id, order.side, order.constraint));
    assert(in_account(before, id, order.account_id, order.side));
    lemma_queue_member(before, queue, order.side, order.constraint, id);
    lemma_account_member(before, account_side, order.account_id, order.side, id);
    lemma_queue_remove(before, after, queue, order.side, order.constraint, id);
    lemma_account_remove(before, after, account_side, order.account_id, order.side, id);
    assert forall|s: Side, c: AuctionOrderConstraint| queue_ok(
        exit.orders@,
        #[trigger] exit.queue_of(s, c),
        s,
        c,
    ) by {
        if s != order.side || c != order.constraint {
            assert(queue_ok(before, entry.queue_of(s, c), s, c));
            lemma_unlink_other_queue(
                before,
                after,
                queue,
                account_side,
                order,
                entry.queue_of(s, c),
                s,
                c,
            );
        }
    }
    assert forall|a: AccountId, s: Side| account_ok(
        exit.orders@,
        #[trigger] exit.account_side(a, s),
        a,
        s,
    ) by {
        if a != order.account_id || s != order.side {
            assert(account_ok(before, entry.account_side(a, s), a, s));
            lemma_unlink_other_account(
                before,
                after,
                queue,
                account_side,
                order,
                entry.account_side(a, s),
                a,
                s,
            );
        }
    }
}

proof fn lemma_unlinked_orders(
    entry: &CallAuctionBook,
    exit: &CallAuctionBook,
    order: RestingAuctionOrder,
)
    requires
        unlinked_book(entry, exit, order),
        exit.definition == entry.definition,
        exit.seen_order_ids == entry.seen_order_ids,
        exit.next_priority_sequence == entry.next_priority_sequence,
        forall|account: AccountId, side: Side|
            account_ok(exit.orders@, #[trigger] exit.account_side(account, side), account, side),
    ensures
        exit.orders_ok(),
        exit.active() == entry.active().remove(order.order_id),
{
    let before = entry.orders@;
    let id = order.order_id;
    assert forall|other: OrderId| #[trigger] exit.orders@.dom().contains(other) implies exit.order_ok(
        other,
    ) by {
        assert(before.dom().contains(other));
        assert(entry.order_ok(other));
        assert(account_ok(
            exit.orders@,
            exit.account_side(exit.orders@[other].account_id, exit.orders@[other].side),
            exit.orders@[other].account_id,
            exit.orders@[other].side,
        ));
        lemma_account_present(exit, other);
    }
    assert forall|other: OrderId| #[trigger] exit.active().dom().contains(
        other,
    ) implies exit.active()[other] == entry.active().remove(id)[other] by {
        assert(before.dom().contains(other));
    }
    assert(exit.active() =~= entry.active().remove(id));
}

proof fn lemma_unlink_other_queue(
    before: RestingOrders,
    after: RestingOrders,
    queue: AuctionQueue,
    account_side: AuctionAccountSideIndex,
    order: RestingAuctionOrder,
    other_queue: AuctionQueue,
    side: Side,
    constraint: AuctionOrderConstraint,
)
    requires
        linked_out(before, after, queue, account_side, order),
        queue_ok(before, other_queue, side, constraint),
        side != order.side || constraint != order.constraint,
    ensures
        queue_ok(after, other_queue, side, constraint),
{
    assert(in_queue(before, order.order_id, order.side, order.constraint));
    lemma_queue_member(before, queue, order.side, order.constraint, order.order_id);
    lemma_queue_frame(before, after, other_queue, side, constraint);
}

proof fn lemma_unlink_other_account(
    before: RestingOrders,
    after: RestingOrders,
    queue: AuctionQueue,
    account_side: AuctionAccountSideIndex,
    order: RestingAuctionOrder,
    other_side: AuctionAccountSideIndex,
    account: AccountId,
    side: Side,
)
    requires
        linked_out(before, after, queue, account_side, order),
        account_ok(before, other_side, account, side),
        account != order.account_id || side != order.side,
    ensures
        account_ok(after, other_side, account, side),
{
    assert(in_account(before, order.order_id, order.account_id, order.side));
    lemma_account_member(before, account_side, order.account_id, order.side, order.order_id);
    lemma_account_frame(before, after, other_side, account, side);
}

/// An agreeing account list without orders is the empty list.
proof fn lemma_empty_side(
    orders: RestingOrders,
    index: AuctionAccountSideIndex,
    account: AccountId,
    side: Side,
)
    requires
        account_ok(orders, index, account, side),
        index.order_count == 0,
    ensures
        index == empty_side(),
{
    lemma_account_ends(orders, index, account, side);
    lemma_account_spells(orders, index, account, side);
}

/// The owner of an active order is in the account index.
proof fn lemma_account_present(book: &CallAuctionBook, id: OrderId)
    requires
        book.orders@.dom().contains(id),
        account_ok(
            book.orders@,
            book.account_side(book.orders@[id].account_id, book.orders@[id].side),
            book.orders@[id].account_id,
            book.orders@[id].side,
        ),
    ensures
        book.account_orders@.dom().contains(book.orders@[id].account_id),
{
    let order = book.orders@[id];
    assert(in_account(book.orders@, id, order.account_id, order.side));
    lemma_account_member(
        book.orders@,
        book.account_side(order.account_id, order.side),
        order.account_id,
        order.side,
        id,
    );
}

/// `after` is `before` with `order` appended to its queue and account list.
spec fn linked_in(
    before: RestingOrders,
    after: RestingOrders,
    queue: AuctionQueue,
    account_side: AuctionAccountSideIndex,
    order: RestingAuctionOrder,
) -> bool {
    let id = order.order_id;
    &&& !before.dom().contains(id)
    &&& after.dom() == before.dom().insert(id)
    &&& after[id] == order
    &&& order.previous == queue.tail
    &&& order.next is None
    &&& order.account_previous == account_side.tail
    &&& order.account_next is None
    &&& queue_ok(before, queue, order.side, order.constraint)
    &&& account_ok(before, account_side, order.account_id, order.side)
    &&& forall|other: OrderId| #[trigger]
        before.dom().contains(other) ==> after[other] == (RestingAuctionOrder {
            next: if queue.tail == Some(other) {
                Some(id)
            } else {
                before[other].next
            },
            account_next: if account_side.tail == Some(other) {
                Some(id)
            } else {
                before[other].account_next
            },
            ..before[other]
        })
}

proof fn lemma_link(
    before: RestingOrders,
    after: RestingOrders,
    queue: AuctionQueue,
    account_side: AuctionAccountSideIndex,
    order: RestingAuctionOrder,
)
    requires
        linked_in(before, after, queue, account_side, order),
        CallAuctionBook::aggregates_fit(queue, account_side, order.quantity),
        forall|id: OrderId| #[trigger]
            in_queue(before, id, order.side, order.constraint) ==> before[id].priority_sequence
                < order.priority_sequence,
    ensures
        queue_ok(
            after,
            AuctionQueue {
                head: if queue.head is None {
                    Some(order.order_id)
                } else {
                    queue.head
                },
                tail: Some(order.order_id),
                total_quantity: (queue.total_quantity + order.quantity.lots) as u128,
                order_count: (queue.order_count + 1) as u64,
            },
            order.side,
            order.constraint,
        ),
        account_ok(
            after,
            AuctionAccountSideIndex {
                head: if account_side.head is None {
                    Some(order.order_id)
                } else {
                    account_side.head
                },
                tail: Some(order.order_id),
                total_quantity: (account_side.total_quantity + order.quantity.lots) as u128,
                order_count: (account_side.order_count + 1) as usize,
            },
            order.account_id,
            order.side,
        ),
{
    let id = order.order_id;
    lemma_queue_push(
        before,
        after,
        queue,
        order.side,
        order.constraint,
        id,
        AuctionQueue {
            head: if queue.head is None {
                Some(id)
            } else {
                queue.head
            },
            tail: Some(id),
            total_quantity: (queue.total_quantity + order.quantity.lots) as u128,
            order_count: (queue.order_count + 1) as u64,
        },
    );
    lemma_account_push(
        before,
        after,
        account_side,
        order.account_id,
        order.side,
        id,
        AuctionAccountSideIndex {
            head: if account_side.head is None {
                Some(id)
            } else {
                account_side.head
            },
            tail: Some(id),
            total_quantity: (account_side.total_quantity + order.quantity.lots) as u128,
            order_count: (account_side.order_count + 1) as usize,
        },
    );
}

proof fn lemma_link_other_queue(
    before: RestingOrders,
    after: RestingOrders,
    queue: AuctionQueue,
    account_side: AuctionAccountSideIndex,
    order: RestingAuctionOrder,
    other_queue: AuctionQueue,
    side: Side,
    constraint: AuctionOrderConstraint,
)
    requires
        linked_in(before, after, queue, account_side, order),
        queue_ok(before, other_queue, side, constraint),
        side != order.side || constraint != order.constraint,
    ensures
        queue_ok(after, other_queue, side, constraint),
{
    lemma_queue_ends(before, queue, order.side, order.constraint);
    lemma_queue_frame(before, after, other_queue, side, constraint);
}

proof fn lemma_link_other_account(
    before: RestingOrders,
    after: RestingOrders,
    queue: AuctionQueue,
    account_side: AuctionAccountSideIndex,
    order: RestingAuctionOrder,
    other_side: AuctionAccountSideIndex,
    account: AccountId,
    side: Side,
)
    requires
        linked_in(before, after, queue, account_side, order),
        account_ok(before, other_side, account, side),
        account != order.account_id || side != order.side,
    ensures
        account_ok(after, other_side, account, side),
{
    lemma_account_ends(before, account_side, order.account_id, order.side);
    lemma_account_frame(before, after, other_side, account, side);
}

} // verus!
