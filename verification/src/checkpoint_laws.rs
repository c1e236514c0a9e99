//! What a checkpoint gives back: capture and restoration undo each other.

use vstd::prelude::*;

use crate::auction::AuctionOrderConstraint;
use crate::auction_engine::{CallAuctionEngine, PreparedCallAuctionAction};
use crate::book_queries::{lemma_listing_unique, lists_orders};
use crate::book_restore::{
    ids_distinct, occupied_prices, order_restorable, orders_by_id, queues_distinct, restorable,
};
use crate::book_state::{ascending, in_queue, queue_ids, queue_ok, CallAuctionBook};
use crate::domain::{OrderId, Price, Side};
use crate::engine_checkpoint::{
    checkpoint_fits, ids_ascending, lemma_ascending_unique, CallAuctionCheckpoint,
};
use crate::engine_projection::projected;
use crate::engine_replay::same_histories;
use crate::engine_types::{
    CallAuctionCommand, CallAuctionCommandReportCheckpoint, CallAuctionExecutionReport,
};
use crate::ordered_map::MapKey;

verus! {

impl CallAuctionBook {
    /// The active orders of a book are listed by identity.
    pub(crate) proof fn lemma_listed(&self)
        requires
            self.wf(),
        ensures
            lists_orders(self.active_list(), self.active(), self.active().dom()),
            self.active_list().len() <= self.limits.active_orders,
            self.accepted_list().len() <= self.limits.accepted_order_ids,
            self.accepted_list().no_duplicates(),
            forall|id: OrderId| #[trigger]
                self.accepted_list().contains(id) <==> self.accepted().contains(id),
    {
        let list = self.active_list();
        let entries = self.orders.entries@;
        self.orders.lemma_view();
        assert forall|i: int| 0 <= i < list.len() implies self.active().dom().contains(
            (#[trigger] list[i]).order_id,
        ) && list[i] == self.active()[list[i].order_id] && list[i].order_id == entries[i].0 by {
            assert(self.orders@.dom().contains(entries[i].0));
            assert(self.order_ok(entries[i].0));
        }
        assert forall|i: int, j: int| 0 <= i < j < list.len() implies (
        #[trigger] list[i]).order_id.value < (#[trigger] list[j]).order_id.value by {
            assert(entries[i].0.rank() < entries[j].0.rank());
        }
        assert forall|id: OrderId| #[trigger] self.active().dom().contains(id) implies exists|
            i: int,
        | 0 <= i < list.len() && (#[trigger] list[i]).order_id == id by {
            let e = choose|e: int| 0 <= e < entries.len() && (#[trigger] entries[e]).0 == id;
            assert(list[e].order_id == id);
        }
        let seen = self.seen_order_ids.entries@;
        let accepted = self.accepted_list();
        self.seen_order_ids.lemma_view();
        assert forall|i: int, j: int|
            0 <= i < accepted.len() && 0 <= j < accepted.len() && i != j implies accepted[i]
            != accepted[j] by {
            if i < j {
                assert(seen[i].0.rank() < seen[j].0.rank());
            } else {
                assert(seen[j].0.rank() < seen[i].0.rank());
            }
        }
        assert forall|id: OrderId| #[trigger] accepted.contains(id) <==> self.accepted().contains(
            id,
        ) by {
            if accepted.contains(id) {
                let i = choose|i: int| 0 <= i < accepted.len() && accepted[i] == id;
                assert(seen[i].0 == id);
            }
            if self.accepted().contains(id) {
                let e = choose|e: int| 0 <= e < seen.len() && (#[trigger] seen[e]).0 == id;
                assert(accepted[e] == id);
            }
        }
    }

    /// Two orders of one queue were admitted at different times.
    proof fn lemma_queue_times(&self, left: OrderId, right: OrderId)
        requires
            self.wf(),
            self.active().dom().contains(left),
            self.active().dom().contains(right),
            left != right,
            self.active()[left].side == self.active()[right].side,
            self.active()[left].constraint == self.active()[right].constraint,
        ensures
            self.active()[left].priority_sequence != self.active()[right].priority_sequence,
    {
        let side = self.active()[left].side;
        let constraint = self.active()[left].constraint;
        let queue = self.queue_of(side, constraint);
        assert(queue_ok(self.orders@, queue, side, constraint));
        reveal(queue_ok);
        reveal(ascending);
        let ids = queue_ids(self.orders@, queue);
        assert(in_queue(self.orders@, left, side, constraint));
        assert(in_queue(self.orders@, right, side, constraint));
        let i = choose|i: int| 0 <= i < ids.len() && ids[i] == left;
        let j = choose|j: int| 0 <= j < ids.len() && ids[j] == right;
        if i < j {
            assert(self.orders@[ids[i]].priority_sequence < self.orders@[ids[j]].priority_sequence);
        } else {
            assert(self.orders@[ids[j]].priority_sequence < self.orders@[ids[i]].priority_sequence);
        }
    }

    /// The listed orders of a side occupy the prices of its queues.
    proof fn lemma_prices_listed(&self, side: Side)
        requires
            self.wf(),
        ensures
            occupied_prices(self.active_list(), side) == self.level_map(side).dom(),
            occupied_prices(self.active_list(), side).len() <= self.limits.price_levels_per_side,
    {
        let list = self.active_list();
        self.lemma_listed();
        assert forall|price: Price| occupied_prices(list, side).contains(price)
            <==> self.level_map(side).dom().contains(price) by {
            self.law_levels_are_occupied(side, price);
            if occupied_prices(list, side).contains(price) {
                let i = choose|i: int|
                    0 <= i < list.len() && (#[trigger] list[i]).side == side && list[i].constraint
                        == AuctionOrderConstraint::Limit(price);
                assert(self.active().dom().contains(list[i].order_id));
            }
            if self.level_map(side).dom().contains(price) {
                let id = choose|id: OrderId| #[trigger]
                    self.active().dom().contains(id) && self.active()[id].side == side
                        && self.active()[id].constraint == AuctionOrderConstraint::Limit(price);
                let i = choose|i: int| 0 <= i < list.len() && (#[trigger] list[i]).order_id == id;
                assert(list[i].side == side);
            }
        }
        assert(occupied_prices(list, side) =~= self.level_map(side).dom());
        match side {
            Side::Buy => {
                self.bids.lemma_view();
            },
            Side::Sell => {
                self.asks.lemma_view();
            },
        }
    }

    /// What a book lists of itself describes a book.
    pub proof fn law_listing_is_restorable(&self)
        requires
            self.wf(),
        ensures
            restorable(
                self.definition,
                self.limits,
                self.active_list(),
                self.accepted_list(),
                self.next_priority_sequence,
                self.next_trade_id,
            ),
            orders_by_id(self.active_list()) == self.active(),
            self.accepted_list().to_set() == self.accepted(),
    {
        let list = self.active_list();
        let accepted = self.accepted_list();
        self.lemma_listed();
        self.lemma_prices_listed(Side::Buy);
        self.lemma_prices_listed(Side::Sell);
        assert forall|i: int, j: int| 0 <= i < j < list.len() implies (
        #[trigger] list[i]).order_id != (#[trigger] list[j]).order_id by {
            assert(list[i].order_id.value < list[j].order_id.value);
        }
        assert forall|i: int, j: int|
            0 <= i < j < list.len() && (#[trigger] list[i]).side == (#[trigger] list[j]).side
                && list[i].constraint == list[j].constraint implies list[i].priority_sequence
            != list[j].priority_sequence by {
            assert(list[i].order_id.value < list[j].order_id.value);
            self.lemma_queue_times(list[i].order_id, list[j].order_id);
        }
        assert(ids_distinct(list) && queues_distinct(list));
        assert forall|i: int| 0 <= i < list.len() implies order_restorable(
            self.definition,
            accepted,
            self.next_priority_sequence,
            #[trigger] list[i],
        ) by {
            let id = list[i].order_id;
            assert(self.orders@.dom().contains(id));
            assert(self.order_ok(id));
            assert(accepted.contains(id) <==> self.accepted().contains(id));
        }
        let map = orders_by_id(list);
        assert forall|id: OrderId| map.dom().contains(id) <==> self.active().dom().contains(id) by {
            if self.active().dom().contains(id) {
                let i = choose|i: int| 0 <= i < list.len() && (#[trigger] list[i]).order_id == id;
                assert(list[i].order_id == id);
            }
        }
        assert forall|id: OrderId| map.dom().contains(id) implies map[id] == self.active()[id] by {
            let i = choose|i: int| 0 <= i < list.len() && (#[trigger] list[i]).order_id == id;
            assert(list[i] == self.active()[list[i].order_id]);
        }
        assert(map =~= self.active());
        assert forall|id: OrderId| accepted.to_set().contains(id) <==> self.accepted().contains(
            id,
        ) by {
            assert(accepted.to_set().contains(id) <==> accepted.contains(id));
        }
        assert(accepted.to_set() =~= self.accepted());
    }
}

impl CallAuctionEngine {
    /// An action emits no more events than its command plans.
    pub(crate) proof fn lemma_events_planned(
        &self,
        command: CallAuctionCommand,
        action: PreparedCallAuctionAction,
    )
        requires
            self.wf(),
            self.gate_matches(command, action),
        ensures
            self.action_kinds(action).len() <= self.planned_events(command),
    {
        if let PreparedCallAuctionAction::MassCancel { account_id, scope } = action {
            self.book.lemma_selected_listed(account_id, scope);
            self.book.law_selection_totals(
                account_id,
                scope,
                self.book.selected_orders(account_id, scope),
            );
        }
    }

    /// A reproducible report fits the event limit.
    proof fn lemma_report_fits(
        &self,
        after: &Self,
        history: Seq<CallAuctionCommandReportCheckpoint>,
        index: int,
    )
        requires
            self.makes_entry(after, history, index),
        ensures
            history[index].report.events@.len() <= self.limits.report_events,
    {
        let entry = history[index];
        let external = entry.report.outcome.external();
        let (action, report) = choose|
            action: PreparedCallAuctionAction,
            report: CallAuctionExecutionReport,
        |
            {
                &&& #[trigger] self.action_matches(entry.command, action)
                &&& #[trigger] after.settles_from(
                    self,
                    entry.command,
                    Self::gated(action, external),
                    report,
                )
                &&& report.same(&entry.report)
            };
        self.lemma_events_planned(entry.command, Self::gated(action, external));
    }

    /// Whatever a consistent engine captures restores under its own limits:
    /// a checkpoint that was taken can be read back.
    pub proof fn law_capture_is_restorable(&self, checkpoint: &CallAuctionCheckpoint)
        requires
            self.consistent(),
            Self::reproducible(self.book.definition, self.limits, self.history@),
            checkpoint.valid(),
            self.captured_by(checkpoint),
        ensures
            Self::restorable_under(checkpoint, self.limits),
    {
        self.book.law_listing_is_restorable();
        self.book.lemma_listed();
        assert forall|i: int| 0 <= i < checkpoint.history@.len() implies (
        #[trigger] checkpoint.history@[i]).report.events@.len() <= self.limits.report_events by {
            assert(Self::entry_reproducible(
                self.book.definition,
                self.limits,
                self.history@,
                i,
            ));
            let (before, after) = choose|before: CallAuctionEngine, after: CallAuctionEngine|
                before.book.definition == self.book.definition && before.limits == self.limits
                    && #[trigger] before.makes_entry(&after, self.history@, i);
            before.lemma_report_fits(&after, self.history@, i);
        }
        assert(checkpoint_fits(checkpoint, self.limits));
    }

    /// An engine that holds what a consistent checkpoint describes is consistent
    /// and lists what the checkpoint lists.
    pub proof fn law_restored_engine_is_consistent(&self, checkpoint: &CallAuctionCheckpoint)
        requires
            checkpoint.valid(),
            self.wf(),
            self.audited(),
            self.restores(checkpoint),
        ensures
            self.consistent(),
            self.captured_by(checkpoint),
    {
        let list = checkpoint.active_orders@;
        let accepted = checkpoint.accepted_order_ids@;
        let state = projected(
            checkpoint.history@,
            checkpoint.definition,
            checkpoint.history@.len(),
        )->0;
        let map = orders_by_id(list);
        assert forall|id: OrderId| map.dom().contains(id) <==> state.orders.dom().contains(id) by {
            if state.orders.dom().contains(id) {
                let i = choose|i: int| 0 <= i < list.len() && (#[trigger] list[i]).order_id == id;
                assert(list[i].order_id == id);
            }
            if map.dom().contains(id) {
                let i = choose|i: int| 0 <= i < list.len() && (#[trigger] list[i]).order_id == id;
                assert(state.orders.dom().contains(list[i].order_id));
            }
        }
        assert forall|id: OrderId| map.dom().contains(id) implies map[id] == state.orders[id] by {
            let i = choose|i: int| 0 <= i < list.len() && (#[trigger] list[i]).order_id == id;
            assert(list[i] == state.orders[list[i].order_id]);
        }
        assert(map =~= state.orders);
        assert(self.projection_ok());
        self.book.lemma_listed();
        lemma_listing_unique(
            self.book.active_list(),
            list,
            self.book.active(),
            self.book.active().dom(),
        );
        self.lemma_accepted_ascending();
        assert forall|id: OrderId| self.book.accepted_list().contains(id)
            <==> accepted.contains(id) by {
            assert(accepted.to_set().contains(id) <==> accepted.contains(id));
        }
        lemma_ascending_unique(self.book.accepted_list(), accepted);
    }

    proof fn lemma_accepted_ascending(&self)
        requires
            self.wf(),
        ensures
            ids_ascending(self.book.accepted_list()),
    {
        let seen = self.book.seen_order_ids.entries@;
        let list = self.book.accepted_list();
        assert forall|i: int, j: int| 0 <= i < j < list.len() implies (#[trigger] list[i]).value < (
        #[trigger] list[j]).value by {
            assert(seen[i].0.rank() < seen[j].0.rank());
        }
    }

    /// An engine restored from a checkpoint holds the state that was captured
    /// and continues like the captured engine.
    pub proof fn law_restored_engine_continues(
        &self,
        restored: &Self,
        checkpoint: &CallAuctionCheckpoint,
    )
        requires
            self.consistent(),
            self.captured_by(checkpoint),
            restored.wf(),
            restored.audited(),
            restored.limits == self.limits,
            restored.restores(checkpoint),
        ensures
            restored.shares_state(self),
            restored.shares_past(self),
            restored.consistent(),
    {
        self.book.law_listing_is_restorable();
        assert(restored.book.active() == self.book.active());
        assert(restored.book.accepted() == self.book.accepted());
        assert(restored.history@ == self.history@);
        assert(same_histories(restored.history@, self.history@)) by {
            assert forall|i: int| 0 <= i < restored.history@.len() implies (
            #[trigger] restored.history@[i]).same(&self.history@[i]) by {}
        }
    }
}

} // verus!
