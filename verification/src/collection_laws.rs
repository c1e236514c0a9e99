//! What each order operation asks of a collection and does to it, over the
//! orders' own fields.

use vstd::prelude::*;

use crate::auction::AuctionOrderConstraint;
use crate::book_laws::listed_lots;
use crate::book_lemmas::{lemma_account_member, lemma_queue_member};
use crate::book_queries::{lemma_selection, lists_orders};
use crate::book_state::{account_ok, queue_ok, CallAuctionBook};
use crate::book_types::{
    CallAuctionAdmissionError, CallAuctionAmendError, CallAuctionCancelError, CallAuctionCapacity,
    CallAuctionOrder, CallAuctionOrderSnapshot, CallAuctionReplaceError,
};
use crate::domain::{AccountId, MassCancelScope, OrderId, Quantity, Side};
use crate::instrument::AdmissionError;

verus! {

impl CallAuctionBook {
    /// Every active order is stored under its identity, which was accepted once,
    /// holds a positive multiple of the lot increment within the maximum, has a
    /// limit on the tick grid inside the collar, and was sequenced.
    pub proof fn law_active_orders_are_valid(&self, id: OrderId)
        requires
            self.wf(),
            self.active().dom().contains(id),
        ensures
            ({
                let order = self.active()[id];
                &&& order.order_id == id
                &&& self.accepted().contains(id)
                &&& 0 < order.quantity.lots <= self.definition.quantity.maximum
                &&& order.quantity.lots as int % self.definition.quantity.increment as int == 0
                &&& match order.constraint {
                    AuctionOrderConstraint::Market => true,
                    AuctionOrderConstraint::Limit(limit) => {
                        &&& limit.raw as int % self.definition.price.tick_size as int == 0
                        &&& self.definition.price.minimum.raw <= limit.raw
                        &&& limit.raw <= self.definition.price.maximum.raw
                    },
                }
                &&& 0 < order.priority_sequence < self.next_priority_sequence
            }),
    {
        assert(self.order_ok(id));
    }

    /// An order request passes the instrument rules exactly when it names the
    /// book's instrument and version, its quantity is at least the minimum, at
    /// most the maximum and on the increment, and a limit is on the tick grid and
    /// inside the collar. What it violates first, in this order, is the answer.
    pub proof fn law_instrument_rules(&self, command: CallAuctionOrder)
        requires
            self.definition.wf(),
        ensures
            ({
                let rules = self.definition;
                let lots = command.quantity.lots;
                let routed = command.instrument_id == rules.instrument_id;
                let current = routed && command.instrument_version == rules.version;
                let large = current && lots >= rules.quantity.minimum;
                let sized = large && lots <= rules.quantity.maximum;
                let whole = sized && lots as int % rules.quantity.increment as int == 0;
                let fault = self.admission_fault(command);
                let refused = |error: AdmissionError|
                    fault == Some(CallAuctionAdmissionError::Instrument(error));
                &&& !routed ==> refused(AdmissionError::WrongInstrument)
                &&& routed && !current ==> refused(AdmissionError::WrongVersion)
                &&& current && !large ==> refused(AdmissionError::QuantityBelowMinimum)
                &&& large && !sized ==> refused(AdmissionError::QuantityAboveMaximum)
                &&& sized && !whole ==> refused(AdmissionError::QuantityOffIncrement)
                &&& match command.constraint {
                    AuctionOrderConstraint::Market => whole ==> !(fault matches Some(
                        CallAuctionAdmissionError::Instrument(_),
                    )),
                    AuctionOrderConstraint::Limit(limit) => {
                        let on_tick = limit.raw as int % rules.price.tick_size as int == 0;
                        let inside = rules.price.minimum.raw <= limit.raw && limit.raw
                            <= rules.price.maximum.raw;
                        &&& whole && !on_tick ==> refused(AdmissionError::PriceOffTick)
                        &&& whole && on_tick && !inside ==> refused(
                            AdmissionError::PriceOutsideCollar,
                        )
                        &&& whole && on_tick && inside ==> !(fault matches Some(
                            CallAuctionAdmissionError::Instrument(_),
                        ))
                    },
                }
            }),
    {
    }

    /// An order that passes the instrument rules is admitted unless its identity
    /// was accepted before, the active orders, accepted identities or price levels
    /// are at their limit, or a counter or total is exhausted. Market orders and
    /// limits at which an order of the side rests need no further price level.
    pub proof fn law_admission_needs_room(&self, command: CallAuctionOrder)
        requires
            self.wf(),
            self.command_fault(command) is None,
        ensures
            ({
                let fault = self.admission_fault(command);
                let fresh = !self.accepted().contains(command.order_id);
                let roomy = self.active().len() < self.limits.active_orders
                    && self.accepted().len() < self.limits.accepted_order_ids;
                let level = match command.constraint {
                    AuctionOrderConstraint::Market => true,
                    AuctionOrderConstraint::Limit(limit) => {
                        ||| exists|id: OrderId| #[trigger]
                            self.active().dom().contains(id) && self.active()[id].side
                                == command.side && self.active()[id].constraint
                                == AuctionOrderConstraint::Limit(limit)
                        ||| self.level_map(command.side).len() < self.limits.price_levels_per_side
                    },
                };
                let counted = self.next_priority_sequence < u64::MAX && self.state_revision
                    < u64::MAX;
                let summed = {
                    &&& self.queue_of(command.side, command.constraint).total_quantity
                        + command.quantity.lots <= u128::MAX
                    &&& self.queue_of(command.side, command.constraint).order_count < u64::MAX
                    &&& self.account_side(command.account_id, command.side).total_quantity
                        + command.quantity.lots <= u128::MAX
                    &&& self.account_side(command.account_id, command.side).order_count
                        < usize::MAX
                };
                &&& fault is None <==> fresh && roomy && level && counted && summed
                &&& !fresh ==> fault == Some(CallAuctionAdmissionError::DuplicateOrderId)
                &&& fresh && self.active().len() >= self.limits.active_orders ==> fault == Some(
                    CallAuctionAdmissionError::CapacityExceeded(CallAuctionCapacity::ActiveOrders),
                )
                &&& fresh && self.active().len() < self.limits.active_orders
                    && self.accepted().len() >= self.limits.accepted_order_ids ==> fault == Some(
                    CallAuctionAdmissionError::CapacityExceeded(
                        CallAuctionCapacity::AcceptedOrderIds,
                    ),
                )
                &&& fresh && roomy && !level ==> fault == Some(
                    CallAuctionAdmissionError::CapacityExceeded(
                        if command.side == Side::Buy {
                            CallAuctionCapacity::BidPriceLevels
                        } else {
                            CallAuctionCapacity::AskPriceLevels
                        },
                    ),
                )
                &&& fresh && roomy && level && self.next_priority_sequence == u64::MAX ==> fault
                    == Some(CallAuctionAdmissionError::PrioritySequenceExhausted)
                &&& fresh && roomy && level && self.next_priority_sequence < u64::MAX
                    && self.state_revision == u64::MAX ==> fault == Some(
                    CallAuctionAdmissionError::StateRevisionExhausted,
                )
                &&& fresh && roomy && level && counted && !summed ==> fault == Some(
                    CallAuctionAdmissionError::AggregateQuantityOverflow(command.side),
                )
            }),
    {
        if let AuctionOrderConstraint::Limit(limit) = command.constraint {
            self.law_levels_are_occupied(command.side, limit);
        }
    }

    /// An admitted order is active as requested, behind every order that was
    /// active before; its identity is consumed, and no other order changes.
    pub proof fn law_admission_appends_order(
        &self,
        after: &Self,
        command: CallAuctionOrder,
        id: OrderId,
    )
        requires
            self.wf(),
            after.admits_from(self, command),
        ensures
            ({
                let order = after.active()[command.order_id];
                &&& after.active().dom().contains(command.order_id)
                &&& order.order_id == command.order_id
                &&& order.account_id == command.account_id
                &&& order.side == command.side
                &&& order.constraint == command.constraint
                &&& order.quantity == command.quantity
                &&& order.priority_class == command.priority_class
                &&& order.priority_sequence == self.next_priority_sequence
                &&& self.active().dom().contains(id) ==> self.active()[id].priority_sequence
                    < order.priority_sequence
            }),
            id != command.order_id ==> {
                &&& after.active().dom().contains(id) <==> self.active().dom().contains(id)
                &&& after.active()[id] == self.active()[id] || !self.active().dom().contains(id)
                &&& after.accepted().contains(id) <==> self.accepted().contains(id)
            },
            after.accepted().contains(command.order_id),
            after.next_priority_sequence == self.next_priority_sequence + 1,
            after.state_revision == self.state_revision + 1,
            after.next_trade_id == self.next_trade_id,
    {
        if self.active().dom().contains(id) {
            assert(self.order_ok(id));
        }
    }

    /// A cancellation is granted exactly to the owner of an active order, as long
    /// as the revision can move; a missing order is answered before a foreign one.
    pub proof fn law_only_owner_cancels(&self, account: AccountId, id: OrderId)
        ensures
            ({
                let fault = self.cancel_fault(account, id);
                let active = self.active().dom().contains(id);
                let owned = active && self.active()[id].account_id == account;
                &&& fault is None <==> owned && self.state_revision < u64::MAX
                &&& fault == Some(CallAuctionCancelError::UnknownOrder) <==> !active
                &&& fault == Some(CallAuctionCancelError::AccountMismatch) <==> active && !owned
                &&& fault == Some(CallAuctionCancelError::StateRevisionExhausted) <==> owned
                    && self.state_revision == u64::MAX
            }),
    {
    }

    /// A cancelled order is gone, its identity stays consumed, and no other order
    /// changes.
    pub proof fn law_cancellation_removes_order(&self, after: &Self, target: OrderId, id: OrderId)
        requires
            after.cancels_from(self, target),
        ensures
            !after.active().dom().contains(target),
            id != target ==> {
                &&& after.active().dom().contains(id) <==> self.active().dom().contains(id)
                &&& self.active().dom().contains(id) ==> after.active()[id] == self.active()[id]
            },
            after.accepted().contains(id) <==> self.accepted().contains(id),
            after.next_priority_sequence == self.next_priority_sequence,
            after.state_revision == self.state_revision + 1,
            after.next_trade_id == self.next_trade_id,
    {
    }

    /// An amendment is granted exactly to the owner of an active order who asks
    /// for a positive quantity on the increment, within the maximum and below what
    /// the order holds, as long as the revision can move.
    pub proof fn law_amendment_must_reduce(
        &self,
        account: AccountId,
        id: OrderId,
        quantity: Quantity,
    )
        ensures
            ({
                let fault = self.amend_fault(account, id, quantity);
                let rules = self.definition.quantity;
                let lots = quantity.lots;
                let active = self.active().dom().contains(id);
                let owned = active && self.active()[id].account_id == account;
                let positive = owned && lots > 0;
                let sized = positive && lots <= rules.maximum;
                let whole = sized && lots as int % rules.increment as int == 0;
                let reduced = whole && lots < self.active()[id].quantity.lots;
                &&& fault is None <==> reduced && self.state_revision < u64::MAX
                &&& !active ==> fault == Some(CallAuctionAmendError::UnknownOrder)
                &&& active && !owned ==> fault == Some(CallAuctionAmendError::AccountMismatch)
                &&& owned && !positive ==> fault == Some(
                    CallAuctionAmendError::Instrument(AdmissionError::QuantityBelowMinimum),
                )
                &&& positive && !sized ==> fault == Some(
                    CallAuctionAmendError::Instrument(AdmissionError::QuantityAboveMaximum),
                )
                &&& sized && !whole ==> fault == Some(
                    CallAuctionAmendError::Instrument(AdmissionError::QuantityOffIncrement),
                )
                &&& whole && !reduced ==> fault == Some(CallAuctionAmendError::QuantityNotReduced)
                &&& reduced && self.state_revision == u64::MAX ==> fault == Some(
                    CallAuctionAmendError::StateRevisionExhausted,
                )
            }),
    {
    }

    /// An amended order keeps everything but its quantity, its priority among the
    /// rest, and no other order changes.
    pub proof fn law_amendment_keeps_priority(
        &self,
        after: &Self,
        target: OrderId,
        quantity: Quantity,
        id: OrderId,
    )
        requires
            self.wf(),
            self.active().dom().contains(target),
            after.amends_from(self, target, quantity),
        ensures
            ({
                let before = self.active()[target];
                let order = after.active()[target];
                &&& after.active().dom().contains(target)
                &&& order.quantity == quantity
                &&& order.order_id == target
                &&& order.account_id == before.account_id
                &&& order.side == before.side
                &&& order.constraint == before.constraint
                &&& order.priority_class == before.priority_class
                &&& order.priority_sequence == before.priority_sequence
            }),
            id != target ==> {
                &&& after.active().dom().contains(id) <==> self.active().dom().contains(id)
                &&& self.active().dom().contains(id) ==> after.active()[id] == self.active()[id]
            },
            after.accepted().contains(id) <==> self.accepted().contains(id),
            after.next_priority_sequence == self.next_priority_sequence,
            after.state_revision == self.state_revision + 1,
            after.next_trade_id == self.next_trade_id,
    {
        assert(self.order_ok(target));
    }

    /// A replacement is refused unless the account owns the active target and the
    /// replacement, the replacement passes the instrument rules, its identity is
    /// new, identities are left to consume and both counters can move.
    pub proof fn law_replacement_needs_owner(
        &self,
        account: AccountId,
        target: OrderId,
        replacement: CallAuctionOrder,
    )
        ensures
            ({
                let fault = self.replace_fault(account, target, replacement);
                let active = self.active().dom().contains(target);
                let owned = active && self.active()[target].account_id == account;
                let own = owned && replacement.account_id == account;
                let ruled = own && self.command_fault(replacement) is None;
                let fresh = ruled && !self.accepted().contains(replacement.order_id);
                let roomy = fresh && self.accepted().len() < self.limits.accepted_order_ids;
                &&& fault is None ==> roomy && self.next_priority_sequence < u64::MAX
                    && self.state_revision < u64::MAX
                &&& !active ==> fault == Some(
                    CallAuctionReplaceError::Target(CallAuctionCancelError::UnknownOrder),
                )
                &&& active && !owned ==> fault == Some(
                    CallAuctionReplaceError::Target(CallAuctionCancelError::AccountMismatch),
                )
                &&& owned && !own ==> fault == Some(
                    CallAuctionReplaceError::ReplacementAccountMismatch,
                )
                &&& own && !ruled ==> fault == Some(
                    CallAuctionReplaceError::Replacement(self.command_fault(replacement)->0),
                )
                &&& ruled && !fresh ==> fault == Some(
                    CallAuctionReplaceError::Replacement(
                        CallAuctionAdmissionError::DuplicateOrderId,
                    ),
                )
                &&& fresh && !roomy ==> fault == Some(
                    CallAuctionReplaceError::Replacement(
                        CallAuctionAdmissionError::CapacityExceeded(
                            CallAuctionCapacity::AcceptedOrderIds,
                        ),
                    ),
                )
                &&& roomy && replacement.constraint is Market && self.next_priority_sequence
                    == u64::MAX ==> fault == Some(
                    CallAuctionReplaceError::Replacement(
                        CallAuctionAdmissionError::PrioritySequenceExhausted,
                    ),
                )
                &&& roomy && replacement.constraint is Market && self.next_priority_sequence
                    < u64::MAX && self.state_revision == u64::MAX ==> fault == Some(
                    CallAuctionReplaceError::Replacement(
                        CallAuctionAdmissionError::StateRevisionExhausted,
                    ),
                )
            }),
    {
    }

    /// A replacement removes its target and appends a new order behind every order
    /// that was active before; both identities stay consumed, and no other order
    /// changes.
    pub proof fn law_replacement_loses_priority(
        &self,
        after: &Self,
        target: OrderId,
        replacement: CallAuctionOrder,
        id: OrderId,
    )
        requires
            self.wf(),
            self.active().dom().contains(target),
            !self.accepted().contains(replacement.order_id),
            after.replaces_from(self, target, replacement),
        ensures
            ({
                let order = after.active()[replacement.order_id];
                &&& after.active().dom().contains(replacement.order_id)
                &&& order.order_id == replacement.order_id
                &&& order.account_id == replacement.account_id
                &&& order.side == replacement.side
                &&& order.constraint == replacement.constraint
                &&& order.quantity == replacement.quantity
                &&& order.priority_class == replacement.priority_class
                &&& order.priority_sequence == self.next_priority_sequence
                &&& self.active().dom().contains(id) ==> self.active()[id].priority_sequence
                    < order.priority_sequence
            }),
            !after.active().dom().contains(target),
            after.accepted().contains(target),
            after.accepted().contains(replacement.order_id),
            id != target && id != replacement.order_id ==> {
                &&& after.active().dom().contains(id) <==> self.active().dom().contains(id)
                &&& self.active().dom().contains(id) ==> after.active()[id] == self.active()[id]
                &&& after.accepted().contains(id) <==> self.accepted().contains(id)
            },
            after.next_priority_sequence == self.next_priority_sequence + 1,
            after.state_revision == self.state_revision + 1,
            after.next_trade_id == self.next_trade_id,
    {
        assert(self.order_ok(target));
        if self.active().dom().contains(id) {
            assert(self.order_ok(id));
        }
    }

    /// A mass cancel of one side removes exactly the active orders of the account
    /// on that side, and leaves every order of the other side and every order of
    /// another account as it was; one of all sides removes exactly the active
    /// orders of the account. Identities stay consumed.
    pub proof fn law_mass_cancel_removes_scope(
        &self,
        after: &Self,
        account: AccountId,
        scope: MassCancelScope,
        id: OrderId,
    )
        requires
            self.wf(),
            after.mass_cancels_from(self, account, scope),
            self.active().dom().contains(id),
        ensures
            ({
                let order = self.active()[id];
                let gone = !after.active().dom().contains(id);
                &&& scope == MassCancelScope::All ==> (gone <==> order.account_id == account)
                &&& scope == MassCancelScope::Side(Side::Buy) ==> (gone <==> order.account_id
                    == account && order.side == Side::Buy)
                &&& scope == MassCancelScope::Side(Side::Sell) ==> (gone <==> order.account_id
                    == account && order.side == Side::Sell)
                &&& !gone ==> after.active()[id] == order
            }),
            forall|other: OrderId| #[trigger]
                after.active().dom().contains(other) ==> self.active().dom().contains(other),
            after.accepted() == self.accepted(),
            after.next_priority_sequence == self.next_priority_sequence,
            after.next_trade_id == self.next_trade_id,
    {
    }

    /// The number of orders and the lots that a scope selects are those of the
    /// account's active orders on the selected side, or on both.
    pub proof fn law_scope_counts_orders(
        &self,
        account: AccountId,
        scope: MassCancelScope,
        list: Seq<CallAuctionOrderSnapshot>,
    )
        requires
            self.wf(),
            lists_orders(
                list,
                self.active(),
                Set::new(
                    |id: OrderId|
                        self.active().dom().contains(id) && self.active()[id].account_id == account
                            && (scope == MassCancelScope::All || scope == MassCancelScope::Side(
                            self.active()[id].side,
                        )),
                ),
            ),
        ensures
            self.selected_count(account, scope) == list.len(),
            self.selected_lots(account, scope) == listed_lots(list, list.len()),
            ({
                let result = self.mass_cancel_result(account, scope);
                &&& result.cancelled_order_count == list.len()
                &&& result.cancelled_quantity_lots == listed_lots(list, list.len())
                &&& list.len() == 0 ==> result.state_revision == self.state_revision
                &&& list.len() > 0 && self.state_revision < u64::MAX ==> result.state_revision
                    == self.state_revision + 1
            }),
            self.mass_cancel_exhausted(account, scope) <==> list.len() > 0 && self.state_revision
                == u64::MAX,
    {
        let picked = Set::new(
            |id: OrderId|
                self.active().dom().contains(id) && self.active()[id].account_id == account && (
                scope == MassCancelScope::All || scope == MassCancelScope::Side(
                    self.active()[id].side,
                )),
        );
        assert(self.selected(account, scope) =~= picked);
        lemma_selection(self, account, scope);
        self.law_selection_totals(account, scope, list);
        self.orders.lemma_view();
    }

    /// What an account has active on both sides is what it has on each together.
    pub proof fn law_scopes_add_up(&self, account: AccountId)
        ensures
            self.selected_count(account, MassCancelScope::All) == self.selected_count(
                account,
                MassCancelScope::Side(Side::Buy),
            ) + self.selected_count(account, MassCancelScope::Side(Side::Sell)),
            self.selected_lots(account, MassCancelScope::All) == self.selected_lots(
                account,
                MassCancelScope::Side(Side::Buy),
            ) + self.selected_lots(account, MassCancelScope::Side(Side::Sell)),
    {
    }
}

impl CallAuctionBook {
    /// A replacement has a price level where a market order needs none, where
    /// another order of its side rests at its limit, where it takes the place of
    /// its target, or where the side has a level to spare.
    pub proof fn law_replacement_has_room(
        &self,
        target: OrderId,
        replacement: CallAuctionOrder,
        other: OrderId,
    )
        requires
            self.wf(),
            self.active().dom().contains(target),
            (replacement.constraint is Market || self.level_map(replacement.side).len()
                < self.limits.price_levels_per_side || (self.active()[target].side
                == replacement.side && self.active()[target].constraint
                == replacement.constraint) || (other != target && self.active().dom().contains(
                other,
            ) && self.active()[other].side == replacement.side && self.active()[other].constraint
                == replacement.constraint)),
        ensures
            self.replacement_room(target, replacement),
    {
        if let AuctionOrderConstraint::Limit(price) = replacement.constraint {
            let side = replacement.side;
            let order = self.orders@[target];
            let prices = self.level_map(side).dom();
            let left = self.levels_after_removal(target, side);
            self.bids.lemma_view();
            self.asks.lemma_view();
            self.law_levels_are_occupied(side, price);
            assert(prices.finite());
            assert(prices.len() == self.level_map(side).len());
            assert(self.active()[target] == order.visible());
            if self.active()[target].side == side {
                if let AuctionOrderConstraint::Limit(held) = order.constraint {
                    self.law_levels_are_occupied(side, held);
                    assert(self.active().dom().contains(target) && self.active()[target].side
                        == side && self.active()[target].constraint
                        == AuctionOrderConstraint::Limit(held));
                    assert(prices.contains(held));
                    assert(prices.remove(held).len() == prices.len() - 1);
                }
            }
            if other != target && self.active().dom().contains(other) && self.active()[other].side
                == side && self.active()[other].constraint == replacement.constraint {
                assert(prices.contains(price));
                if self.active()[target].side == side && order.constraint
                    == replacement.constraint {
                    let ids = self.lemma_queue_listed(side, replacement.constraint);
                    assert(ids.contains(target) && ids.contains(other));
                    let a = choose|a: int| 0 <= a < ids.len() && ids[a] == target;
                    let b = choose|b: int| 0 <= b < ids.len() && ids[b] == other;
                    assert(a != b);
                    assert(ids.len() >= 2);
                    assert(left == prices);
                }
            }
        }
    }

    /// A replacement by the owner of the target, in the account, on the instrument
    /// rules and with a new identity is granted exactly when identities are left,
    /// the level has room, both counters can move and the totals stay
    /// representable without the target.
    pub proof fn law_replacement_is_granted(
        &self,
        account: AccountId,
        target: OrderId,
        replacement: CallAuctionOrder,
    )
        requires
            self.wf(),
            self.active().dom().contains(target),
            self.active()[target].account_id == account,
            replacement.account_id == account,
            self.command_fault(replacement) is None,
            !self.accepted().contains(replacement.order_id),
        ensures
            ({
                let fault = self.replace_fault(account, target, replacement);
                let old = self.active()[target];
                let queue = self.queue_of(replacement.side, replacement.constraint);
                let held = self.account_side(account, replacement.side);
                let lots = replacement.quantity.lots;
                let same_queue = old.side == replacement.side && old.constraint
                    == replacement.constraint;
                let freed = if same_queue { old.quantity.lots as int } else { 0 };
                let released = if old.side == replacement.side {
                    old.quantity.lots as int
                } else {
                    0
                };
                &&& fault is None ==> {
                    &&& queue.total_quantity - freed + lots <= u128::MAX
                    &&& held.total_quantity - released + lots <= u128::MAX
                }
                &&& self.accepted().len() < self.limits.accepted_order_ids
                    && self.replacement_room(target, replacement) && self.next_priority_sequence
                    < u64::MAX && self.state_revision < u64::MAX && queue.total_quantity - freed
                    + lots <= u128::MAX && queue.order_count < u64::MAX && held.total_quantity
                    - released + lots <= u128::MAX && held.order_count < usize::MAX
                    ==> fault is None
            }),
    {
        let order = self.orders@[target];
        assert(self.active()[target] == order.visible());
        if order.side == replacement.side {
            self.lemma_lots_held(target);
        }
    }

    /// The lots of an active order are part of its queue's and its account side's.
    proof fn lemma_lots_held(&self, id: OrderId)
        requires
            self.wf(),
            self.active().dom().contains(id),
        ensures
            ({
                let order = self.active()[id];
                let queue = self.queue_of(order.side, order.constraint);
                let held = self.account_side(order.account_id, order.side);
                &&& order.quantity.lots <= queue.total_quantity
                &&& queue.order_count > 0
                &&& order.quantity.lots <= held.total_quantity
                &&& held.order_count > 0
            }),
    {
        let orders = self.orders@;
        let order = orders[id];
        let queue = self.queue_of(order.side, order.constraint);
        let held = self.account_side(order.account_id, order.side);
        assert(self.active()[id] == order.visible());
        assert(queue_ok(orders, queue, order.side, order.constraint));
        assert(account_ok(orders, held, order.account_id, order.side));
        lemma_queue_member(orders, queue, order.side, order.constraint, id);
        lemma_account_member(orders, held, order.account_id, order.side, id);
    }
}

impl CallAuctionBook {
    /// Cancelling an order right after its admission leaves the active orders as
    /// they were before it; only its identity, its sequence and two revisions are
    /// used up.
    pub proof fn law_cancellation_undoes_admission(
        &self,
        middle: &Self,
        after: &Self,
        command: CallAuctionOrder,
    )
        requires
            self.wf(),
            !self.accepted().contains(command.order_id),
            middle.admits_from(self, command),
            after.cancels_from(middle, command.order_id),
        ensures
            after.active() == self.active(),
            after.accepted() == self.accepted().insert(command.order_id),
            after.next_priority_sequence == self.next_priority_sequence + 1,
            after.state_revision == self.state_revision + 2,
    {
        if self.active().dom().contains(command.order_id) {
            assert(self.order_ok(command.order_id));
        }
        assert(after.active() =~= self.active());
    }

    /// A replacement does what cancelling the target and admitting the new order
    /// does, in one revision.
    pub proof fn law_replacement_is_cancel_and_admission(
        &self,
        replaced: &Self,
        cancelled: &Self,
        admitted: &Self,
        target: OrderId,
        replacement: CallAuctionOrder,
    )
        requires
            replaced.replaces_from(self, target, replacement),
            cancelled.cancels_from(self, target),
            admitted.admits_from(cancelled, replacement),
        ensures
            replaced.active() == admitted.active(),
            replaced.accepted() == admitted.accepted(),
            replaced.next_priority_sequence == admitted.next_priority_sequence,
            replaced.next_trade_id == admitted.next_trade_id,
            replaced.state_revision + 1 == admitted.state_revision,
    {
    }

    /// A mass cancel of both sides leaves the active orders that cancelling one
    /// side and then the other leaves.
    pub proof fn law_mass_cancel_splits_by_side(
        &self,
        whole: &Self,
        bought: &Self,
        both: &Self,
        account: AccountId,
    )
        requires
            whole.mass_cancels_from(self, account, MassCancelScope::All),
            bought.mass_cancels_from(self, account, MassCancelScope::Side(Side::Buy)),
            both.mass_cancels_from(bought, account, MassCancelScope::Side(Side::Sell)),
        ensures
            whole.active() == both.active(),
            whole.accepted() == both.accepted(),
    {
        assert(whole.active() =~= both.active());
    }

    /// Repeating a mass cancel finds nothing left: it changes neither orders nor
    /// revision.
    pub proof fn law_mass_cancel_is_idempotent(
        &self,
        once: &Self,
        twice: &Self,
        account: AccountId,
        scope: MassCancelScope,
    )
        requires
            once.wf(),
            once.mass_cancels_from(self, account, scope),
            twice.mass_cancels_from(once, account, scope),
        ensures
            twice.active() == once.active(),
            twice.state_revision == once.state_revision,
    {
        lemma_selection(once, account, scope);
        assert(once.selected(account, scope) =~= Set::<OrderId>::empty());
        assert(twice.active() =~= once.active());
    }
}

} // verus!
