//! Laws of the sequenced engine.

use vstd::prelude::*;

use crate::auction_engine::{
    bound_events, uncross_kinds, CallAuctionEngine, PreparedCallAuctionAction,
};
use crate::book_laws::listed_lots;
use crate::book_queries::lemma_selection;
use crate::book_types::CallAuctionOrderSnapshot;
use crate::book_uncross::{fill_pairs, pair_lots, AuctionPair};
use crate::engine_audit::{
    entry_audited, events_of, lemma_history_prefix, next_event_after, replayed_phase,
};
use crate::engine_grammar::{
    cancelled_lots, cancelled_number, mass_cancel_grammar, report_grammar, trade_lots, trade_number,
    traded_lots, uncross_grammar,
};
use crate::engine_types::{
    CallAuctionCommand, CallAuctionCommandReportCheckpoint, CallAuctionEngineCapacity,
    CallAuctionEngineError, CallAuctionEvent, CallAuctionEventKind, CallAuctionExecutionReport,
    CallAuctionMassCancel, CallAuctionPhase, CallAuctionRejectReason, CallAuctionUncrossCommand,
};

verus! {

/// Lots of the first `count` pairs.
spec fn paired_lots(pairs: Seq<AuctionPair>, count: nat) -> int
    decreases count,
{
    if count == 0 {
        0
    } else {
        paired_lots(pairs, (count - 1) as nat) + pairs[count - 1].lots
    }
}

proof fn lemma_paired_shift(pairs: Seq<AuctionPair>, count: nat)
    requires
        0 < count <= pairs.len(),
    ensures
        paired_lots(pairs, count) == pairs[0].lots + paired_lots(
            pairs.subrange(1, pairs.len() as int),
            (count - 1) as nat,
        ),
    decreases count,
{
    let tail = pairs.subrange(1, pairs.len() as int);
    if count > 1 {
        lemma_paired_shift(pairs, (count - 1) as nat);
        assert(tail[count - 2] == pairs[count - 1]);
        assert(paired_lots(tail, (count - 1) as nat) == paired_lots(tail, (count - 2) as nat)
            + tail[count - 2].lots);
    } else {
        assert(paired_lots(pairs, 1) == paired_lots(pairs, 0) + pairs[0].lots);
        assert(paired_lots(pairs, 0) == 0);
        assert(paired_lots(tail, 0) == 0);
    }
}

proof fn lemma_paired_total(pairs: Seq<AuctionPair>)
    ensures
        paired_lots(pairs, pairs.len()) == pair_lots(pairs),
    decreases pairs.len(),
{
    if pairs.len() > 0 {
        let tail = pairs.subrange(1, pairs.len() as int);
        lemma_paired_shift(pairs, pairs.len());
        lemma_paired_total(tail);
    }
}

/// Trade events add up to the lots of their pairs.
proof fn lemma_traded_pairs(events: Seq<CallAuctionEvent>, pairs: Seq<AuctionPair>, count: nat)
    requires
        count <= pairs.len() <= events.len(),
        forall|i: int| 0 <= i < pairs.len() ==> trade_lots(#[trigger] events[i]) == pairs[i].lots,
    ensures
        traded_lots(events, count) == paired_lots(pairs, count),
    decreases count,
{
    if count > 0 {
        lemma_traded_pairs(events, pairs, (count - 1) as nat);
        assert(trade_lots(events[count - 1]) == pairs[count - 1].lots);
    }
}

impl CallAuctionEngine {
    /// The trace of a prepared uncross is one that its command can have.
    proof fn lemma_uncross_trace(
        &self,
        command: CallAuctionUncrossCommand,
        action: PreparedCallAuctionAction,
        events: Seq<CallAuctionEvent>,
    )
        requires
            self.wf(),
            self.action_matches(CallAuctionCommand::Uncross(command), action),
            action is Uncross,
            events == bound_events(
                self.action_kinds(action),
                CallAuctionCommand::Uncross(command),
                self.next_event_sequence as int,
            ),
        ensures
            uncross_grammar(events, command),
    {
        let auction_id = action->Uncross_auction_id;
        let phase_revision = action->Uncross_phase_revision;
        let prepared = action->Uncross_prepared;
        let plan = prepared.buffers.plan;
        let clearing = plan.clearing;
        let trades = prepared.buffers.trades@;
        let cancellations = prepared.buffers.cancellations@;
        let pairs = fill_pairs(plan.buy_fills@, plan.sell_fills@);
        let kinds = uncross_kinds(auction_id, phase_revision, prepared);
        let count = trades.len();
        assert(prepared.buffers.trades.len() == count);
        assert(prepared.buffers.cancellations.len() == cancellations.len());
        assert(kinds.len() == count + cancellations.len() + 1);
        assert(self.book.prepared_valid(prepared));
        self.book.lemma_sides_listed();
        self.book.lemma_prepared_pairs(prepared);
        assert(count == pairs.len());
        assert forall|i: int| 0 <= i < count implies (#[trigger] events[i]).kind
            == CallAuctionEventKind::Trade(trades[i]) by {
            assert(kinds[i] == CallAuctionEventKind::Trade(trades[i]));
        }
        assert forall|i: int, j: int| 0 <= i < j < count implies #[trigger] trade_number(events[j])
            == #[trigger] trade_number(events[i]) + (j - i) by {
            assert(events[i].kind == CallAuctionEventKind::Trade(trades[i]));
            assert(events[j].kind == CallAuctionEventKind::Trade(trades[j]));
        }
        assert forall|i: int| 0 <= i < pairs.len() implies trade_lots(#[trigger] events[i])
            == pairs[i].lots by {
            assert(events[i].kind == CallAuctionEventKind::Trade(trades[i]));
        }
        lemma_traded_pairs(events, pairs, pairs.len());
        lemma_paired_total(pairs);
        assert forall|i: int| count <= i < events.len() - 1 implies (
        #[trigger] events[i]).kind is RemainderCancelled by {
            assert(kinds[i] == CallAuctionEventKind::RemainderCancelled(cancellations[i - count]));
        }
        assert(events.last().kind == kinds.last());
    }

    /// The trace of a mass cancel is one that its command can have.
    proof fn lemma_mass_cancel_trace(
        &self,
        command: CallAuctionMassCancel,
        events: Seq<CallAuctionEvent>,
    )
        requires
            self.wf(),
            events == bound_events(
                self.action_kinds(
                    PreparedCallAuctionAction::MassCancel {
                        account_id: command.account_id,
                        scope: command.scope,
                    },
                ),
                CallAuctionCommand::MassCancel(command),
                self.next_event_sequence as int,
            ),
        ensures
            mass_cancel_grammar(events, command),
    {
        let account = command.account_id;
        let scope = command.scope;
        let list = self.book.selected_orders(account, scope);
        let picked = self.book.selected(account, scope);
        self.book.lemma_selected_listed(account, scope);
        self.book.law_selection_totals(account, scope, list);
        lemma_selection(&self.book, account, scope);
        self.book.orders.lemma_view();
        let kinds = self.action_kinds(
            PreparedCallAuctionAction::MassCancel { account_id: account, scope },
        );
        assert(events.len() == list.len() + 1);
        assert forall|i: int| 0 <= i < list.len() implies (#[trigger] events[i]).kind
            == (CallAuctionEventKind::OrderCancelled {
            order: list[i],
            reason: crate::engine_types::CallAuctionCancellationReason::MassCancel,
        }) by {
            assert(kinds[i] == (CallAuctionEventKind::OrderCancelled {
                order: list[i],
                reason: crate::engine_types::CallAuctionCancellationReason::MassCancel,
            }));
        }
        assert forall|i: int| 0 <= i < list.len() implies list[i].account_id == account
            && scope.selects((#[trigger] list[i]).side) by {
            assert(picked.contains(list[i].order_id));
        }
        assert forall|i: int, j: int| 0 <= i < j < list.len() implies #[trigger] cancelled_number(
            events[i],
        ) < #[trigger] cancelled_number(events[j]) by {
            assert(events[i].kind->OrderCancelled_order == list[i]);
            assert(events[j].kind->OrderCancelled_order == list[j]);
            assert(list[i].order_id.value < list[j].order_id.value);
        }
        lemma_cancelled_listed(events, list, list.len());
        assert(events.last().kind == kinds.last());
    }

    /// Whether an action is one that a command can have, with or without an
    /// external risk gate.
    pub open spec fn gate_matches(
        &self,
        command: CallAuctionCommand,
        action: PreparedCallAuctionAction,
    ) -> bool {
        ||| self.action_matches(command, action)
        ||| {
            &&& self.decide(command) == Ok::<
                Option<CallAuctionRejectReason>,
                CallAuctionEngineError,
            >(None)
            &&& command is Submit || command is Replace
            &&& (action matches PreparedCallAuctionAction::Rejected(reason) && reason.is_risk())
        }
    }

    /// The trace of a sequenced command is one that the command can have.
    pub(crate) proof fn lemma_trace_grammar(
        &self,
        command: CallAuctionCommand,
        action: PreparedCallAuctionAction,
        entry: CallAuctionCommandReportCheckpoint,
    )
        requires
            self.wf(),
            self.gate_matches(command, action),
            entry.command == command,
            entry.report.outcome == action.outcome(),
            !entry.report.replayed,
            entry.report.events@ == bound_events(
                self.action_kinds(action),
                command,
                self.next_event_sequence as int,
            ),
        ensures
            report_grammar(entry),
    {
        let events = entry.report.events@;
        if !(action is Rejected) {
            match command {
                CallAuctionCommand::Uncross(uncross) => {
                    self.lemma_uncross_trace(uncross, action, events);
                },
                CallAuctionCommand::MassCancel(cancel) => {
                    self.lemma_mass_cancel_trace(cancel, events);
                },
                CallAuctionCommand::Cancel(cancel) => {
                    assert(self.book.order_ok(cancel.order_id));
                },
                CallAuctionCommand::Amend(amend) => {
                    assert(self.book.order_ok(amend.order_id));
                },
                CallAuctionCommand::Replace(replace) => {
                    assert(self.book.order_ok(replace.target_order_id));
                },
                _ => {},
            }
        }
    }

    /// A sequenced command is what the phase rules expect next.
    proof fn lemma_phase_observed(
        &self,
        exit: &Self,
        command: CallAuctionCommand,
        action: PreparedCallAuctionAction,
        entry: CallAuctionCommandReportCheckpoint,
    )
        requires
            self.wf(),
            self.gate_matches(command, action),
            exit.effects_from(self, action),
            entry.command == command,
            entry.report.outcome == action.outcome(),
            entry.report.events@ == bound_events(
                self.action_kinds(action),
                command,
                self.next_event_sequence as int,
            ),
        ensures
            self.phase_state().observed(
                entry,
                self.book.definition.instrument_id,
                self.book.definition.version,
            ) == Some(exit.phase_state()),
    {
        let events = entry.report.events@;
        if !(action is Rejected) {
            match command {
                CallAuctionCommand::Uncross(uncross) => {
                    let kinds = self.action_kinds(action);
                    assert(events.last().kind == kinds.last());
                },
                _ => {},
            }
        }
    }

    /// Whatever a command leads to, an engine that passes its audit passes it
    /// afterwards.
    pub proof fn law_command_keeps_audit(
        old: &Self,
        new: &Self,
        command: CallAuctionCommand,
        action: PreparedCallAuctionAction,
        report: CallAuctionExecutionReport,
    )
        requires
            old.wf(),
            old.audited(),
            new.wf(),
            old.gate_matches(command, action),
            new.settles_from(old, command, action, report),
        ensures
            new.audited(),
    {
        let before = old.history@;
        let after = new.history@;
        let id = old.book.definition.instrument_id;
        let version = old.book.definition.version;
        let entry = after.last();
        assert forall|i: int| 0 <= i < before.len() implies #[trigger] before[i] == after[i] by {
            assert(after.drop_last()[i] == after[i]);
        }
        lemma_history_prefix(before, after, id, version, before.len());
        old.lemma_trace_grammar(command, action, entry);
        old.lemma_phase_observed(new, command, action, entry);
        assert(after[before.len() as int] == entry);
        assert forall|i: int| 0 <= i < after.len() implies #[trigger] entry_audited(after, i) by {
            if i < before.len() {
                assert(entry_audited(before, i));
                lemma_history_prefix(before, after, id, version, i as nat);
                assert(before[i] == after[i]);
            } else {
                assert(events_of(
                    entry.report.events@,
                    entry,
                    next_event_after(after, before.len()),
                ));
            }
        }
        assert(next_event_after(after, after.len()) == next_event_after(after, before.len())
            + entry.report.events@.len());
        assert(replayed_phase(after, id, version, after.len()) == Some(new.phase_state()));
        match command {
            CallAuctionCommand::PhaseControl(control) => {
                old.phase_state().law_phase_coherent(control);
            },
            _ => {},
        }
        assert(new.phase_state().coherent());
    }

    /// Commands that empty the book and close the cycle at most: one
    /// cancellation for each active order, a freeze and a close.
    pub open spec fn closing_commands(&self) -> int {
        self.book.active().len() + match self.phase {
            CallAuctionPhase::Collecting => 2int,
            CallAuctionPhase::Frozen => 1int,
            CallAuctionPhase::Closed => 0int,
        }
    }

    /// Whether history has room for every closing command.
    pub open spec fn reserves_closing(&self) -> bool {
        self.history@.len() + self.closing_commands() <= self.limits.retained_commands
    }

    proof fn lemma_active_bounded(&self)
        requires
            self.wf(),
        ensures
            self.book.active().dom().finite(),
            self.book.active().len() <= self.limits.book.active_orders,
    {
        self.book.orders.lemma_view();
        assert(self.book.active().dom() =~= self.book.orders@.dom());
    }

    /// Whatever a command leads to, history keeps room to cancel every active
    /// order and to freeze and close the cycle.
    pub proof fn law_command_keeps_closing_room(
        old: &Self,
        new: &Self,
        command: CallAuctionCommand,
        action: PreparedCallAuctionAction,
        external: Option<CallAuctionRejectReason>,
        report: CallAuctionExecutionReport,
    )
        requires
            old.wf(),
            old.reserves_closing(),
            old.prepare_fault(command) is None,
            old.action_matches(command, action),
            external matches Some(reason) ==> reason.is_risk() && (command is Submit
                || command is Replace),
            new.wf(),
            new.settles_from(old, command, Self::gated(action, external), report),
        ensures
            new.reserves_closing(),
    {
        old.lemma_active_bounded();
        new.lemma_active_bounded();
        if old.history@.len() >= old.limits.retained_commands - old.limits.terminal_command_reserve {
            assert(old.terminal_lane(command));
            match command {
                CallAuctionCommand::Cancel(cancel) => {
                    assert(old.book.active().dom().contains(cancel.order_id));
                },
                CallAuctionCommand::Uncross(_) => {
                    vstd::set_lib::lemma_len_subset(
                        new.book.active().dom(),
                        old.book.active().dom(),
                    );
                },
                _ => {},
            }
        }
    }

    /// A fresh engine has room to close.
    pub proof fn law_new_engine_has_closing_room(&self)
        requires
            self.wf(),
            self.is_new(),
        ensures
            self.reserves_closing(),
    {
    }

    /// However full history is, it never refuses an acceptable cancellation,
    /// uncross, freeze or close.
    pub proof fn law_closing_command_fits(&self, command: CallAuctionCommand)
        requires
            self.wf(),
            self.reserves_closing(),
            self.terminal_lane(command),
        ensures
            self.prepare_fault(command) != Some(
                CallAuctionEngineError::CapacityExhausted(
                    CallAuctionEngineCapacity::CommandHistory,
                ),
            ),
            self.prepare_fault(command) != Some(
                CallAuctionEngineError::CapacityExhausted(
                    CallAuctionEngineCapacity::AdmissionCommandHistory,
                ),
            ),
    {
        self.lemma_active_bounded();
        match command {
            CallAuctionCommand::Cancel(cancel) => {
                assert(self.book.active().dom().contains(cancel.order_id));
                if self.book.active().len() == 0 {
                    self.book.active().dom().lemma_len0_is_empty();
                }
            },
            _ => {},
        }
    }

    /// Whatever a command leads to, accepted order identifiers stay accepted,
    /// command sequences are contiguous, every command emits events, and no
    /// priority, trade or revision counter turns back.
    pub proof fn law_command_advances_counters(
        old: &Self,
        new: &Self,
        command: CallAuctionCommand,
        action: PreparedCallAuctionAction,
        external: Option<CallAuctionRejectReason>,
        report: CallAuctionExecutionReport,
    )
        requires
            old.wf(),
            old.prepare_fault(command) is None,
            old.action_matches(command, action),
            external matches Some(reason) ==> reason.is_risk() && (command is Submit
                || command is Replace),
            new.settles_from(old, command, Self::gated(action, external), report),
        ensures
            old.book.accepted().subset_of(new.book.accepted()),
            report.command_sequence == old.next_command_sequence,
            new.next_command_sequence == old.next_command_sequence + 1,
            report.events@.len() > 0,
            new.next_event_sequence == old.next_event_sequence + report.events@.len(),
            forall|i: int|
                0 <= i < report.events@.len() ==> (#[trigger] report.events@[i]).sequence
                    == old.next_event_sequence + i,
            new.book.next_priority_sequence >= old.book.next_priority_sequence,
            new.book.next_trade_id >= old.book.next_trade_id,
            new.book.state_revision >= old.book.state_revision,
            new.phase_revision >= old.phase_revision,
    {
    }

    /// An order identifier that was once accepted is never accepted again.
    pub proof fn law_accepted_identity_is_refused(&self, command: CallAuctionCommand)
        requires
            self.wf(),
            match command {
                CallAuctionCommand::Submit(submit) => self.book.accepted().contains(
                    submit.order.order_id,
                ),
                CallAuctionCommand::Replace(replace) => self.book.accepted().contains(
                    replace.replacement.order_id,
                ),
                _ => false,
            },
        ensures
            self.decide(command) != Ok::<Option<CallAuctionRejectReason>, CallAuctionEngineError>(
                None,
            ),
    {
    }

    /// A fresh engine passes its audit.
    pub proof fn law_new_engine_is_audited(&self)
        requires
            self.wf(),
            self.is_new(),
            self.limits.retained_commands <= self.reports.reserved,
        ensures
            self.audited(),
    {
    }
}

/// Cancellation events add up to the lots of the listed orders.
proof fn lemma_cancelled_listed(
    events: Seq<CallAuctionEvent>,
    list: Seq<CallAuctionOrderSnapshot>,
    count: nat,
)
    requires
        count <= list.len() <= events.len(),
        forall|i: int|
            0 <= i < list.len() ==> ((
            #[trigger] events[i]).kind matches CallAuctionEventKind::OrderCancelled { order, .. }
                && order == list[i]),
    ensures
        cancelled_lots(events, count) == listed_lots(list, count),
    decreases count,
{
    if count > 0 {
        lemma_cancelled_listed(events, list, (count - 1) as nat);
        assert(events[count - 1].kind is OrderCancelled);
    }
}

} // verus!
