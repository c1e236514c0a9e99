//! What each sequenced command asks of an engine and does to it, over phases,
//! cycles, revisions and the orders' own fields.

use vstd::prelude::*;

use crate::auction::AuctionOrderConstraint;
use crate::auction_engine::{
    bound_events, uncross_kinds, CallAuctionEngine, PreparedCallAuctionAction,
    PreparedCallAuctionCommand,
};
use crate::book_queries::lemma_selection;
use crate::book_state::CallAuctionBook;
use crate::book_types::{
    CallAuctionAdmissionError, CallAuctionPrepareError, CallAuctionRemainderPolicy,
    CallAuctionReplaceError, CallAuctionSelfTradePolicy, CallAuctionTrade,
};
use crate::book_uncross::{uncrossed, PreparedCallAuctionUncross};
use crate::discovery::discovery_result;
use crate::domain::{AuctionId, MassCancelScope, OrderId, Side};
use crate::engine_types::{
    CallAuctionAction, CallAuctionAmendOrder, CallAuctionCancelOrder, CallAuctionCancellationReason,
    CallAuctionCommand, CallAuctionCommandOutcome, CallAuctionEngineError, CallAuctionEvent,
    CallAuctionEventKind, CallAuctionExecutionReport, CallAuctionMassCancel, CallAuctionPhase,
    CallAuctionPhaseControl, CallAuctionRejectReason, CallAuctionReplaceOrder,
    CallAuctionSubmitOrder, CallAuctionUncrossCommand,
};
use crate::phase_audit::late_rejection;
use crate::uncross_laws::{lemma_first_self_trade, traded_lots};

verus! {

impl CallAuctionEngine {
    /// A phase control that is routed to the engine and names its current revision
    /// is accepted exactly when it opens a closed engine for collection under the
    /// next cycle, or moves the active cycle of an open engine to another phase.
    /// The engine is then in the target phase, one revision later: closed without
    /// an active cycle, otherwise in the named one, which is also the last. A
    /// rejected control changes nothing.
    pub proof fn law_phase_controls(
        &self,
        after: &Self,
        control: CallAuctionPhaseControl,
        report: CallAuctionExecutionReport,
    )
        requires
            control.instrument_id == self.book.definition.instrument_id,
            control.instrument_version == self.book.definition.version,
            control.expected_phase_revision == self.phase_revision,
            after.submits_from(self, CallAuctionCommand::PhaseControl(control), report),
        ensures
            ({
                let next = match self.last_auction_id {
                    None => control.auction_id.value == 1,
                    Some(last) => control.auction_id.value == last.value + 1,
                };
                let opens = self.phase == CallAuctionPhase::Closed && control.target_phase
                    == CallAuctionPhase::Collecting;
                let moves = self.phase != CallAuctionPhase::Closed && control.target_phase
                    != self.phase;
                let named = self.active_auction_id == Some(control.auction_id);
                &&& report.outcome == CallAuctionCommandOutcome::Accepted <==> opens && next
                    || moves && named
                &&& !opens && !moves ==> report.outcome == CallAuctionCommandOutcome::Rejected(
                    CallAuctionRejectReason::InvalidPhaseTransition {
                        from: self.phase,
                        to: control.target_phase,
                    },
                )
                &&& opens && !next ==> match report.outcome {
                    CallAuctionCommandOutcome::Rejected(
                        CallAuctionRejectReason::AuctionIdNotNext { expected, observed },
                    ) => observed == control.auction_id && match self.last_auction_id {
                        None => expected.value == 1,
                        Some(last) => expected.value == last.value + 1,
                    },
                    _ => false,
                }
                &&& moves && !named ==> report.outcome == CallAuctionCommandOutcome::Rejected(
                    CallAuctionRejectReason::AuctionIdMismatch {
                        observed: control.auction_id,
                        current: self.active_auction_id,
                    },
                )
            }),
            report.outcome == CallAuctionCommandOutcome::Accepted ==> {
                &&& after.phase == control.target_phase
                &&& after.phase_revision == self.phase_revision + 1
                &&& control.target_phase == CallAuctionPhase::Closed
                    ==> after.active_auction_id is None && after.last_auction_id
                    == self.last_auction_id
                &&& control.target_phase != CallAuctionPhase::Closed ==> after.active_auction_id
                    == Some(control.auction_id)
                &&& self.phase == CallAuctionPhase::Closed ==> after.last_auction_id == Some(
                    control.auction_id,
                )
                &&& self.phase != CallAuctionPhase::Closed ==> after.last_auction_id
                    == self.last_auction_id
            },
            report.outcome != CallAuctionCommandOutcome::Accepted ==> {
                &&& after.phase == self.phase
                &&& after.phase_revision == self.phase_revision
                &&& after.active_auction_id == self.active_auction_id
                &&& after.last_auction_id == self.last_auction_id
            },
            after.book.active() == self.book.active(),
            after.book.accepted() == self.book.accepted(),
            after.book.next_priority_sequence == self.book.next_priority_sequence,
            after.book.next_trade_id == self.book.next_trade_id,
            after.book.state_revision == self.book.state_revision,
    {
    }

    /// A phase control that names the active cycle and the current revision of a
    /// frozen engine and targets collection is accepted whenever ordinary history
    /// and the sequences have room, and the engine then collects in the same cycle.
    pub proof fn law_frozen_engine_reopens(
        &self,
        after: &Self,
        control: CallAuctionPhaseControl,
        report: CallAuctionExecutionReport,
    )
        requires
            self.wf(),
            self.phase == CallAuctionPhase::Frozen,
            control.instrument_id == self.book.definition.instrument_id,
            control.instrument_version == self.book.definition.version,
            self.active_auction_id == Some(control.auction_id),
            control.expected_phase_revision == self.phase_revision,
            control.target_phase == CallAuctionPhase::Collecting,
            self.phase_revision < u64::MAX,
        ensures
            self.history@.len() < self.limits.retained_commands
                - self.limits.terminal_command_reserve && self.next_command_sequence < u64::MAX
                && self.next_event_sequence < u64::MAX ==> self.prepare_fault(
                CallAuctionCommand::PhaseControl(control),
            ) is None,
            after.submits_from(self, CallAuctionCommand::PhaseControl(control), report) ==> {
                &&& report.outcome == CallAuctionCommandOutcome::Accepted
                &&& after.phase == CallAuctionPhase::Collecting
                &&& after.active_auction_id == Some(control.auction_id)
                &&& after.phase_revision == self.phase_revision + 1
                &&& after.last_auction_id == self.last_auction_id
                &&& after.book.active() == self.book.active()
            },
    {
        assert(self.limits.wf());
    }

    /// A routed phase control, or a routed command that needs a phase, is rejected
    /// for a revision other than the current one whatever else it asks.
    pub proof fn law_stale_revision_is_rejected(
        &self,
        after: &Self,
        command: CallAuctionCommand,
        report: CallAuctionExecutionReport,
    )
        requires
            after.submits_from(self, command, report),
        ensures
            ({
                let (instrument, version, observed) = match command {
                    CallAuctionCommand::PhaseControl(control) => (
                        control.instrument_id,
                        control.instrument_version,
                        Some(control.expected_phase_revision),
                    ),
                    CallAuctionCommand::Submit(submit) => (
                        submit.order.instrument_id,
                        submit.order.instrument_version,
                        Some(submit.expected_phase_revision),
                    ),
                    CallAuctionCommand::Cancel(cancel) => (
                        cancel.instrument_id,
                        cancel.instrument_version,
                        None,
                    ),
                    CallAuctionCommand::MassCancel(cancel) => (
                        cancel.instrument_id,
                        cancel.instrument_version,
                        None,
                    ),
                    CallAuctionCommand::Amend(amend) => (
                        amend.instrument_id,
                        amend.instrument_version,
                        Some(amend.expected_phase_revision),
                    ),
                    CallAuctionCommand::Replace(replace) => (
                        replace.replacement.instrument_id,
                        replace.replacement.instrument_version,
                        Some(replace.expected_phase_revision),
                    ),
                    CallAuctionCommand::Uncross(uncross) => (
                        uncross.instrument_id,
                        uncross.instrument_version,
                        Some(uncross.expected_phase_revision),
                    ),
                };
                let routed = instrument == self.book.definition.instrument_id;
                let current = routed && version == self.book.definition.version;
                &&& !routed ==> report.outcome == CallAuctionCommandOutcome::Rejected(
                    CallAuctionRejectReason::WrongInstrument,
                )
                &&& routed && !current ==> report.outcome == CallAuctionCommandOutcome::Rejected(
                    CallAuctionRejectReason::WrongInstrumentVersion,
                )
                &&& current && (observed matches Some(revision) && revision
                    != self.phase_revision) ==> report.outcome
                    == CallAuctionCommandOutcome::Rejected(
                    CallAuctionRejectReason::PhaseRevisionMismatch {
                        observed: observed->0,
                        current: self.phase_revision,
                    },
                )
            }),
    {
    }

    /// At the current revision, submissions, amendments and replacements are
    /// accepted only while the engine collects, and an uncross only while it is
    /// frozen, each for the active cycle. Another phase is answered first, then
    /// another cycle.
    pub proof fn law_commands_need_phase(
        &self,
        after: &Self,
        command: CallAuctionCommand,
        report: CallAuctionExecutionReport,
    )
        requires
            after.submits_from(self, command, report),
        ensures
            ({
                let (instrument, version, observed, cycle, action, needed) = match command {
                    CallAuctionCommand::Submit(submit) => (
                        submit.order.instrument_id,
                        submit.order.instrument_version,
                        submit.expected_phase_revision,
                        submit.auction_id,
                        CallAuctionAction::Submit,
                        CallAuctionPhase::Collecting,
                    ),
                    CallAuctionCommand::Amend(amend) => (
                        amend.instrument_id,
                        amend.instrument_version,
                        amend.expected_phase_revision,
                        amend.auction_id,
                        CallAuctionAction::Amend,
                        CallAuctionPhase::Collecting,
                    ),
                    CallAuctionCommand::Replace(replace) => (
                        replace.replacement.instrument_id,
                        replace.replacement.instrument_version,
                        replace.expected_phase_revision,
                        replace.auction_id,
                        CallAuctionAction::Replace,
                        CallAuctionPhase::Collecting,
                    ),
                    CallAuctionCommand::Uncross(uncross) => (
                        uncross.instrument_id,
                        uncross.instrument_version,
                        uncross.expected_phase_revision,
                        uncross.auction_id,
                        CallAuctionAction::Uncross,
                        CallAuctionPhase::Frozen,
                    ),
                    _ => arbitrary(),
                };
                let current = instrument == self.book.definition.instrument_id && version
                    == self.book.definition.version && observed == self.phase_revision;
                command is Submit || command is Amend || command is Replace || command is Uncross
                    ==> {
                    &&& report.outcome == CallAuctionCommandOutcome::Accepted ==> current
                        && self.phase == needed && self.active_auction_id == Some(cycle)
                    &&& current && self.phase != needed ==> report.outcome
                        == CallAuctionCommandOutcome::Rejected(
                        CallAuctionRejectReason::ActionNotAllowed { action, phase: self.phase },
                    )
                    &&& current && self.phase == needed && self.active_auction_id != Some(cycle)
                        ==> report.outcome == CallAuctionCommandOutcome::Rejected(
                        CallAuctionRejectReason::AuctionIdMismatch {
                            observed: cycle,
                            current: self.active_auction_id,
                        },
                    )
                }
            }),
    {
    }

    /// A rejected command leaves orders, identities, counters, phase and cycle as
    /// they were, and its report holds one event, which names the reason.
    pub proof fn law_rejection_changes_nothing(
        &self,
        after: &Self,
        command: CallAuctionCommand,
        report: CallAuctionExecutionReport,
        reason: CallAuctionRejectReason,
    )
        requires
            after.submits_from(self, command, report),
            report.outcome == CallAuctionCommandOutcome::Rejected(reason),
        ensures
            after.book.active() == self.book.active(),
            after.book.accepted() == self.book.accepted(),
            after.book.next_priority_sequence == self.book.next_priority_sequence,
            after.book.next_trade_id == self.book.next_trade_id,
            after.book.state_revision == self.book.state_revision,
            after.phase == self.phase,
            after.phase_revision == self.phase_revision,
            after.active_auction_id == self.active_auction_id,
            after.last_auction_id == self.last_auction_id,
            report.events@.len() == 1,
            report.events@[0].kind == CallAuctionEventKind::CommandRejected(reason),
    {
    }

    /// A report carries its command's identity and sequence; its events carry the
    /// same identity, the command's receive time and consecutive sequences, after
    /// which the engine continues; and the command is retained with its report.
    pub proof fn law_report_is_bound_to_command(
        &self,
        after: &Self,
        command: CallAuctionCommand,
        report: CallAuctionExecutionReport,
        k: int,
    )
        requires
            self.wf(),
            self.prepare_fault(command) is None,
            after.submits_from(self, command, report),
        ensures
            ({
                let (id, time) = match command {
                    CallAuctionCommand::PhaseControl(control) => (
                        control.command_id,
                        control.received_at,
                    ),
                    CallAuctionCommand::Submit(submit) => (submit.command_id, submit.received_at),
                    CallAuctionCommand::Cancel(cancel) => (cancel.command_id, cancel.received_at),
                    CallAuctionCommand::MassCancel(cancel) => (
                        cancel.command_id,
                        cancel.received_at,
                    ),
                    CallAuctionCommand::Amend(amend) => (amend.command_id, amend.received_at),
                    CallAuctionCommand::Replace(replace) => (
                        replace.command_id,
                        replace.received_at,
                    ),
                    CallAuctionCommand::Uncross(uncross) => (
                        uncross.command_id,
                        uncross.received_at,
                    ),
                };
                &&& report.command_id == id
                &&& report.command_sequence == self.next_command_sequence
                &&& !report.replayed
                &&& report.events@.len() > 0
                &&& 0 <= k < report.events@.len() ==> {
                    &&& report.events@[k].command_id == id
                    &&& report.events@[k].occurred_at == time
                    &&& report.events@[k].sequence == self.next_event_sequence + k
                }
                &&& after.next_command_sequence == self.next_command_sequence + 1
                &&& after.next_event_sequence == self.next_event_sequence + report.events@.len()
                &&& after.history@.len() == self.history@.len() + 1
                &&& after.history@[self.history@.len() as int].command == command
                &&& after.history@[self.history@.len() as int].report == report
                &&& 0 <= k < self.history@.len() ==> after.history@[k] == self.history@[k]
                &&& after.reports@.dom().contains(id)
                &&& after.reports@[id] == self.history@.len()
            }),
    {
        let action = choose|action: PreparedCallAuctionAction| #[trigger]
            self.action_matches(command, action) && after.settles_from(
                self,
                command,
                action,
                report,
            );
        Self::law_command_advances_counters(self, after, command, action, None, report);
        if 0 <= k < self.history@.len() {
            assert(after.history@.drop_last()[k] == self.history@[k]);
        }
    }

    /// An accepted submission adds the order as requested, with the next priority
    /// sequence, and reports it; no other order changes.
    pub proof fn law_submission_adds_order(
        &self,
        after: &Self,
        submit: CallAuctionSubmitOrder,
        report: CallAuctionExecutionReport,
        id: OrderId,
    )
        requires
            after.submits_from(self, CallAuctionCommand::Submit(submit), report),
            report.outcome == CallAuctionCommandOutcome::Accepted,
        ensures
            ({
                let order = after.book.active()[submit.order.order_id];
                &&& after.book.active().dom().contains(submit.order.order_id)
                &&& order.order_id == submit.order.order_id
                &&& order.account_id == submit.order.account_id
                &&& order.side == submit.order.side
                &&& order.constraint == submit.order.constraint
                &&& order.quantity == submit.order.quantity
                &&& order.priority_class == submit.order.priority_class
                &&& order.priority_sequence == self.book.next_priority_sequence
                &&& report.events@.len() == 1
                &&& report.events@[0].kind == CallAuctionEventKind::OrderAccepted(order)
            }),
            !self.book.accepted().contains(submit.order.order_id),
            after.book.accepted().contains(submit.order.order_id),
            id != submit.order.order_id ==> {
                &&& after.book.active().dom().contains(id) <==> self.book.active().dom().contains(
                    id,
                )
                &&& self.book.active().dom().contains(id) ==> after.book.active()[id]
                    == self.book.active()[id]
                &&& after.book.accepted().contains(id) <==> self.book.accepted().contains(id)
            },
            after.book.next_priority_sequence == self.book.next_priority_sequence + 1,
            after.book.state_revision == self.book.state_revision + 1,
            after.phase == self.phase,
            after.phase_revision == self.phase_revision,
            after.active_auction_id == self.active_auction_id,
    {
    }

    /// In any phase, a routed cancellation is accepted exactly from the owner of an
    /// active order, which it removes and reports; a missing order and a foreign
    /// one are told apart, and no other order changes.
    pub proof fn law_cancellation_is_for_owner(
        &self,
        after: &Self,
        cancel: CallAuctionCancelOrder,
        report: CallAuctionExecutionReport,
        id: OrderId,
    )
        requires
            cancel.instrument_id == self.book.definition.instrument_id,
            cancel.instrument_version == self.book.definition.version,
            after.submits_from(self, CallAuctionCommand::Cancel(cancel), report),
        ensures
            ({
                let active = self.book.active();
                let found = active.dom().contains(cancel.order_id);
                let owned = found && active[cancel.order_id].account_id == cancel.account_id;
                &&& owned ==> {
                    &&& report.outcome == CallAuctionCommandOutcome::Accepted
                    &&& !after.book.active().dom().contains(cancel.order_id)
                    &&& report.events@.len() == 1
                    &&& report.events@[0].kind == CallAuctionEventKind::OrderCancelled {
                        order: active[cancel.order_id],
                        reason: CallAuctionCancellationReason::UserRequested,
                    }
                    &&& after.book.state_revision == self.book.state_revision + 1
                }
                &&& !found ==> report.outcome == CallAuctionCommandOutcome::Rejected(
                    CallAuctionRejectReason::UnknownOrder,
                )
                &&& found && !owned ==> report.outcome == CallAuctionCommandOutcome::Rejected(
                    CallAuctionRejectReason::NotOrderOwner,
                )
                &&& id != cancel.order_id || !owned ==> {
                    &&& after.book.active().dom().contains(id) <==> active.dom().contains(id)
                    &&& active.dom().contains(id) ==> after.book.active()[id] == active[id]
                }
            }),
            after.book.accepted() == self.book.accepted(),
            after.book.next_priority_sequence == self.book.next_priority_sequence,
            after.phase == self.phase,
            after.phase_revision == self.phase_revision,
            after.active_auction_id == self.active_auction_id,
    {
    }

    /// In any phase, a routed mass cancel is accepted and removes exactly the
    /// account's active orders on the named side, or on both, and no others.
    pub proof fn law_mass_cancel_is_scoped(
        &self,
        after: &Self,
        cancel: CallAuctionMassCancel,
        report: CallAuctionExecutionReport,
        id: OrderId,
    )
        requires
            cancel.instrument_id == self.book.definition.instrument_id,
            cancel.instrument_version == self.book.definition.version,
            after.submits_from(self, CallAuctionCommand::MassCancel(cancel), report),
        ensures
            report.outcome == CallAuctionCommandOutcome::Accepted,
            ({
                let active = self.book.active();
                let meant = active[id].account_id == cancel.account_id && match cancel.scope {
                    MassCancelScope::All => true,
                    MassCancelScope::Side(Side::Buy) => active[id].side == Side::Buy,
                    MassCancelScope::Side(Side::Sell) => active[id].side == Side::Sell,
                };
                &&& after.book.active().dom().contains(id) <==> active.dom().contains(id) && !meant
                &&& after.book.active().dom().contains(id) ==> after.book.active()[id]
                    == active[id]
            }),
            after.book.accepted() == self.book.accepted(),
            after.book.next_priority_sequence == self.book.next_priority_sequence,
            after.phase == self.phase,
            after.phase_revision == self.phase_revision,
            after.active_auction_id == self.active_auction_id,
            report.events@.len() > 0,
            ({
                let last = report.events@[report.events@.len() - 1].kind;
                &&& last is MassCancelCompleted
                &&& last->MassCancelCompleted_account_id == cancel.account_id
                &&& last->MassCancelCompleted_scope == cancel.scope
            }),
    {
    }

    /// An accepted uncross closes the cycle one revision later and keeps its
    /// identity as the last one.
    pub proof fn law_uncross_closes_cycle(
        &self,
        after: &Self,
        uncross: CallAuctionUncrossCommand,
        report: CallAuctionExecutionReport,
    )
        requires
            after.submits_from(self, CallAuctionCommand::Uncross(uncross), report),
            report.outcome == CallAuctionCommandOutcome::Accepted,
        ensures
            self.phase == CallAuctionPhase::Frozen,
            after.phase == CallAuctionPhase::Closed,
            after.active_auction_id is None,
            after.last_auction_id == self.last_auction_id,
            after.phase_revision == self.phase_revision + 1,
            after.book.state_revision == self.book.state_revision + 1,
            after.book.accepted() == self.book.accepted(),
            after.book.next_priority_sequence == self.book.next_priority_sequence,
            report.events@.len() > 0,
            ({
                let last = report.events@[report.events@.len() - 1].kind;
                &&& last is UncrossCompleted
                &&& last->UncrossCompleted_auction_id == uncross.auction_id
                &&& last->UncrossCompleted_policy == uncross.uncross_policy
                &&& last->UncrossCompleted_phase_revision == after.phase_revision
                &&& last->UncrossCompleted_book_revision == after.book.state_revision
            }),
    {
    }

    /// At the current revision of the collecting cycle, what becomes of a
    /// submission is what admission says of its order: an instrument violation and
    /// a repeated identity are rejections, and without a fault it is accepted.
    pub proof fn law_submission_outcome(
        &self,
        after: &Self,
        submit: CallAuctionSubmitOrder,
        report: CallAuctionExecutionReport,
    )
        requires
            submit.order.instrument_id == self.book.definition.instrument_id,
            submit.order.instrument_version == self.book.definition.version,
            submit.expected_phase_revision == self.phase_revision,
            self.phase == CallAuctionPhase::Collecting,
            self.active_auction_id == Some(submit.auction_id),
            after.submits_from(self, CallAuctionCommand::Submit(submit), report),
        ensures
            match self.book.admission_fault(submit.order) {
                None => report.outcome == CallAuctionCommandOutcome::Accepted,
                Some(CallAuctionAdmissionError::Instrument(error)) => report.outcome
                    == CallAuctionCommandOutcome::Rejected(
                    CallAuctionRejectReason::Instrument(error),
                ),
                Some(CallAuctionAdmissionError::DuplicateOrderId) => report.outcome
                    == CallAuctionCommandOutcome::Rejected(CallAuctionRejectReason::DuplicateOrder),
                Some(_) => false,
            },
    {
    }

    /// At the current revision of the collecting cycle, an amendment is accepted
    /// exactly from the owner of an active order who asks for a positive quantity
    /// on the increment, within the maximum and below what the order holds; the
    /// order then holds it at unchanged priority, and no other order changes.
    pub proof fn law_amendment_reduces_order(
        &self,
        after: &Self,
        amend: CallAuctionAmendOrder,
        report: CallAuctionExecutionReport,
        id: OrderId,
    )
        requires
            amend.instrument_id == self.book.definition.instrument_id,
            amend.instrument_version == self.book.definition.version,
            amend.expected_phase_revision == self.phase_revision,
            self.phase == CallAuctionPhase::Collecting,
            self.active_auction_id == Some(amend.auction_id),
            after.submits_from(self, CallAuctionCommand::Amend(amend), report),
        ensures
            ({
                let active = self.book.active();
                let rules = self.book.definition.quantity;
                let lots = amend.new_quantity.lots;
                let before = active[amend.order_id];
                let found = active.dom().contains(amend.order_id);
                let owned = found && before.account_id == amend.account_id;
                let ruled = owned && 0 < lots && lots <= rules.maximum && lots as int
                    % rules.increment as int == 0;
                &&& report.outcome == CallAuctionCommandOutcome::Accepted <==> ruled && lots
                    < before.quantity.lots
                &&& !found ==> report.outcome == CallAuctionCommandOutcome::Rejected(
                    CallAuctionRejectReason::UnknownOrder,
                )
                &&& found && !owned ==> report.outcome == CallAuctionCommandOutcome::Rejected(
                    CallAuctionRejectReason::NotOrderOwner,
                )
                &&& owned && !ruled ==> match report.outcome {
                    CallAuctionCommandOutcome::Rejected(
                        CallAuctionRejectReason::Instrument(_),
                    ) => true,
                    _ => false,
                }
                &&& ruled && lots >= before.quantity.lots ==> report.outcome
                    == CallAuctionCommandOutcome::Rejected(
                    CallAuctionRejectReason::QuantityNotReduced,
                )
                &&& report.outcome == CallAuctionCommandOutcome::Accepted ==> {
                    let order = after.book.active()[amend.order_id];
                    &&& after.book.active().dom().contains(amend.order_id)
                    &&& order.quantity == amend.new_quantity
                    &&& order.order_id == before.order_id
                    &&& order.account_id == before.account_id
                    &&& order.side == before.side
                    &&& order.constraint == before.constraint
                    &&& order.priority_class == before.priority_class
                    &&& order.priority_sequence == before.priority_sequence
                    &&& after.book.state_revision == self.book.state_revision + 1
                    &&& report.events@.len() == 1
                    &&& report.events@[0].kind == CallAuctionEventKind::OrderAmended {
                        order,
                        previous_quantity: before.quantity,
                        book_revision: after.book.state_revision,
                    }
                }
                &&& id != amend.order_id ==> {
                    &&& after.book.active().dom().contains(id) <==> active.dom().contains(id)
                    &&& active.dom().contains(id) ==> after.book.active()[id] == active[id]
                }
            }),
            after.book.accepted() == self.book.accepted(),
            after.book.next_priority_sequence == self.book.next_priority_sequence,
    {
    }

    /// An accepted replacement comes from the owner of the active target, stays in
    /// the account, removes the target and adds the new order with the next
    /// priority sequence; it reports both, and no other order changes. Refusals
    /// for a missing or foreign target and for a foreign replacement are told
    /// apart.
    pub proof fn law_replacement_swaps_orders(
        &self,
        after: &Self,
        replace: CallAuctionReplaceOrder,
        report: CallAuctionExecutionReport,
        id: OrderId,
    )
        requires
            self.wf(),
            replace.replacement.instrument_id == self.book.definition.instrument_id,
            replace.replacement.instrument_version == self.book.definition.version,
            replace.expected_phase_revision == self.phase_revision,
            self.phase == CallAuctionPhase::Collecting,
            self.active_auction_id == Some(replace.auction_id),
            after.submits_from(self, CallAuctionCommand::Replace(replace), report),
        ensures
            ({
                let active = self.book.active();
                let new = replace.replacement;
                let found = active.dom().contains(replace.target_order_id);
                let owned = found && active[replace.target_order_id].account_id
                    == replace.account_id;
                let own = owned && new.account_id == replace.account_id;
                &&& !found ==> report.outcome == CallAuctionCommandOutcome::Rejected(
                    CallAuctionRejectReason::UnknownOrder,
                )
                &&& found && !owned ==> report.outcome == CallAuctionCommandOutcome::Rejected(
                    CallAuctionRejectReason::NotOrderOwner,
                )
                &&& owned && !own ==> report.outcome == CallAuctionCommandOutcome::Rejected(
                    CallAuctionRejectReason::ReplacementAccountMismatch,
                )
                &&& report.outcome == CallAuctionCommandOutcome::Accepted ==> {
                    let order = after.book.active()[new.order_id];
                    &&& own
                    &&& !self.book.accepted().contains(new.order_id)
                    &&& !after.book.active().dom().contains(replace.target_order_id)
                    &&& after.book.active().dom().contains(new.order_id)
                    &&& order.order_id == new.order_id
                    &&& order.account_id == new.account_id
                    &&& order.side == new.side
                    &&& order.constraint == new.constraint
                    &&& order.quantity == new.quantity
                    &&& order.priority_class == new.priority_class
                    &&& order.priority_sequence == self.book.next_priority_sequence
                    &&& after.book.accepted().contains(new.order_id)
                    &&& after.book.next_priority_sequence == self.book.next_priority_sequence + 1
                    &&& after.book.state_revision == self.book.state_revision + 1
                    &&& report.events@.len() == 2
                    &&& report.events@[0].kind == CallAuctionEventKind::OrderCancelled {
                        order: active[replace.target_order_id],
                        reason: CallAuctionCancellationReason::Replaced,
                    }
                    &&& report.events@[1].kind == CallAuctionEventKind::OrderAccepted(order)
                }
                &&& id != replace.target_order_id && id != new.order_id ==> {
                    &&& after.book.active().dom().contains(id) <==> active.dom().contains(id)
                    &&& active.dom().contains(id) ==> after.book.active()[id] == active[id]
                }
            }),
    {
        if self.book.active().dom().contains(replace.target_order_id) {
            assert(self.book.order_ok(replace.target_order_id));
        }
    }

    /// At the current revision of the collecting cycle, a replacement that its own
    /// book refuses for the new order is rejected for the same reason.
    pub proof fn law_replacement_outcome(
        &self,
        after: &Self,
        replace: CallAuctionReplaceOrder,
        report: CallAuctionExecutionReport,
    )
        requires
            replace.replacement.instrument_id == self.book.definition.instrument_id,
            replace.replacement.instrument_version == self.book.definition.version,
            replace.expected_phase_revision == self.phase_revision,
            self.phase == CallAuctionPhase::Collecting,
            self.active_auction_id == Some(replace.auction_id),
            after.submits_from(self, CallAuctionCommand::Replace(replace), report),
        ensures
            match self.book.replace_fault(
                replace.account_id,
                replace.target_order_id,
                replace.replacement,
            ) {
                None => report.outcome == CallAuctionCommandOutcome::Accepted,
                Some(CallAuctionReplaceError::Replacement(
                    CallAuctionAdmissionError::Instrument(error),
                )) => report.outcome == CallAuctionCommandOutcome::Rejected(
                    CallAuctionRejectReason::Instrument(error),
                ),
                Some(CallAuctionReplaceError::Replacement(
                    CallAuctionAdmissionError::DuplicateOrderId,
                )) => report.outcome == CallAuctionCommandOutcome::Rejected(
                    CallAuctionRejectReason::DuplicateOrder,
                ),
                _ => report.outcome is Rejected,
            },
    {
    }

    /// What the engine uncrosses is what its own preparation plans.
    proof fn lemma_uncross_planned(
        &self,
        after: &Self,
        uncross: CallAuctionUncrossCommand,
        report: CallAuctionExecutionReport,
    ) -> (prepared: PreparedCallAuctionUncross)
        requires
            self.wf(),
            after.submits_from(self, CallAuctionCommand::Uncross(uncross), report),
            report.outcome == CallAuctionCommandOutcome::Accepted,
        ensures
            ({
                let clearing = prepared.buffers.plan.clearing;
                &&& clearing.wf()
                &&& self.book.clearing_discovered(
                    uncross.price_band,
                    uncross.reference_price,
                    uncross.price_policy,
                    Ok(Some(clearing)),
                )
                &&& self.book.planned_for(
                    prepared,
                    self.book.observed(clearing),
                    uncross.uncross_policy,
                )
                &&& after.book.active() == uncrossed(
                    self.book.active(),
                    prepared.buffers.plan,
                    uncross.uncross_policy.remainder,
                )
                &&& after.book.next_trade_id == prepared.next_trade_id
                &&& report.events@ == bound_events(
                    uncross_kinds(
                        uncross.auction_id,
                        (self.phase_revision + 1) as u64,
                        prepared,
                    ),
                    CallAuctionCommand::Uncross(uncross),
                    self.next_event_sequence as int,
                )
            }),
    {
        let command = CallAuctionCommand::Uncross(uncross);
        let action = choose|action: PreparedCallAuctionAction| #[trigger]
            self.action_matches(command, action) && after.settles_from(
                self,
                command,
                action,
                report,
            );
        action->Uncross_prepared
    }

    /// An accepted uncross settles every order by the trades that its report shows
    /// and by the remainder policy of the command: a completely traded order
    /// leaves; of the others, retaining everything keeps them all, cancelling
    /// market remainders removes the market orders and keeps the limit orders, and
    /// cancelling everything removes them all. A kept order holds its unfilled
    /// lots and is otherwise as it was.
    pub proof fn law_uncross_settles_by_report(
        &self,
        after: &Self,
        uncross: CallAuctionUncrossCommand,
        report: CallAuctionExecutionReport,
        id: OrderId,
    )
        requires
            self.wf(),
            after.submits_from(self, CallAuctionCommand::Uncross(uncross), report),
            report.outcome == CallAuctionCommandOutcome::Accepted,
        ensures
            ({
                let active = self.book.active();
                let traded = reported_lots(report.events@, id);
                let kept = match (uncross.uncross_policy.remainder, active[id].constraint) {
                    (CallAuctionRemainderPolicy::RetainAll, _) => true,
                    (
                        CallAuctionRemainderPolicy::CancelMarket,
                        AuctionOrderConstraint::Limit(_),
                    ) => true,
                    (
                        CallAuctionRemainderPolicy::CancelMarket,
                        AuctionOrderConstraint::Market,
                    ) => false,
                    (CallAuctionRemainderPolicy::CancelAll, _) => false,
                };
                &&& active.dom().contains(id) ==> 0 <= traded <= active[id].quantity.lots
                &&& after.book.active().dom().contains(id) <==> active.dom().contains(id) && traded
                    < active[id].quantity.lots && kept
                &&& after.book.active().dom().contains(id) ==> {
                    let left = after.book.active()[id];
                    &&& left.quantity.lots == active[id].quantity.lots - traded
                    &&& left.order_id == active[id].order_id
                    &&& left.account_id == active[id].account_id
                    &&& left.side == active[id].side
                    &&& left.constraint == active[id].constraint
                    &&& left.priority_class == active[id].priority_class
                    &&& left.priority_sequence == active[id].priority_sequence
                }
            }),
    {
        let prepared = self.lemma_uncross_planned(after, uncross, report);
        self.book.lemma_prepared_trades(prepared, id);
        lemma_reported_lots(
            uncross.auction_id,
            (self.phase_revision + 1) as u64,
            prepared,
            CallAuctionCommand::Uncross(uncross),
            self.next_event_sequence as int,
            id,
        );
    }

    /// Every trade that an accepted uncross reports is at the reported clearing
    /// price, within the limits of its active buy and sell orders, for a positive
    /// quantity and, where self trades abort, between two accounts.
    pub proof fn law_reported_trades_are_fair(
        &self,
        after: &Self,
        uncross: CallAuctionUncrossCommand,
        report: CallAuctionExecutionReport,
        k: int,
    )
        requires
            self.wf(),
            after.submits_from(self, CallAuctionCommand::Uncross(uncross), report),
            report.outcome == CallAuctionCommandOutcome::Accepted,
            0 <= k < report.events@.len(),
            report.events@[k].kind is Trade,
        ensures
            ({
                let trade = report.events@[k].kind->Trade_0;
                let last = report.events@[report.events@.len() - 1].kind;
                let active = self.book.active();
                &&& trade.price == last->UncrossCompleted_clearing.price
                &&& trade.quantity.lots > 0
                &&& active.dom().contains(trade.buy_order_id)
                &&& active[trade.buy_order_id].side == Side::Buy
                &&& active[trade.buy_order_id].account_id == trade.buy_account_id
                &&& active.dom().contains(trade.sell_order_id)
                &&& active[trade.sell_order_id].side == Side::Sell
                &&& active[trade.sell_order_id].account_id == trade.sell_account_id
                &&& match active[trade.buy_order_id].constraint {
                    AuctionOrderConstraint::Market => true,
                    AuctionOrderConstraint::Limit(limit) => trade.price.raw <= limit.raw,
                }
                &&& match active[trade.sell_order_id].constraint {
                    AuctionOrderConstraint::Market => true,
                    AuctionOrderConstraint::Limit(limit) => trade.price.raw >= limit.raw,
                }
                &&& trade.trade_id.value == self.book.next_trade_id + k
                &&& uncross.uncross_policy.self_trade == CallAuctionSelfTradePolicy::Abort
                    ==> trade.buy_account_id != trade.sell_account_id
                &&& uncross.price_band.minimum.raw <= trade.price.raw
                &&& trade.price.raw <= uncross.price_band.maximum.raw
            }),
    {
        let prepared = self.lemma_uncross_planned(after, uncross, report);
        let indicative = self.book.observed(prepared.buffers.plan.clearing);
        let policy = uncross.uncross_policy;
        assert(k < prepared.buffers.trades@.len());
        self.book.lemma_pair_sides(prepared, k);
        self.book.law_trades_respect_limits(prepared, indicative, policy, k);
        self.book.law_self_trades_abort(prepared, indicative, policy, k);
    }

    /// The clearing that an accepted uncross reports is what discovery finds in the
    /// book's interest for the band, reference and price policy of the command.
    pub proof fn law_uncross_reports_discovery(
        &self,
        after: &Self,
        uncross: CallAuctionUncrossCommand,
        report: CallAuctionExecutionReport,
    )
        requires
            self.wf(),
            after.submits_from(self, CallAuctionCommand::Uncross(uncross), report),
            report.outcome == CallAuctionCommandOutcome::Accepted,
        ensures
            discovery_result(
                self.book.level_list(Side::Buy),
                self.book.level_list(Side::Sell),
                self.book.market_interest(),
                self.book.grid,
                uncross.price_band,
                uncross.reference_price,
                uncross.price_policy,
                Ok(
                    Some(
                        report.events@[report.events@.len()
                            - 1].kind->UncrossCompleted_clearing,
                    ),
                ),
            ),
    {
        let prepared = self.lemma_uncross_planned(after, uncross, report);
    }
}

/// Lots that the trades of an event list buy or sell for one order.
pub open spec fn reported_lots(events: Seq<CallAuctionEvent>, id: OrderId) -> int
    decreases events.len(),
{
    if events.len() == 0 {
        0
    } else {
        reported_lots(events.drop_last(), id) + match events.last().kind {
            CallAuctionEventKind::Trade(trade) => (if trade.buy_order_id == id {
                trade.quantity.lots as int
            } else {
                0
            }) + (if trade.sell_order_id == id {
                trade.quantity.lots as int
            } else {
                0
            }),
            _ => 0,
        }
    }
}

/// The trades of an uncross are the trades of its events.
proof fn lemma_reported_lots(
    auction_id: AuctionId,
    phase_revision: u64,
    prepared: PreparedCallAuctionUncross,
    command: CallAuctionCommand,
    first: int,
    id: OrderId,
)
    ensures
        reported_lots(
            bound_events(uncross_kinds(auction_id, phase_revision, prepared), command, first),
            id,
        ) == traded_lots(prepared.buffers.trades@, id),
{
    let events = bound_events(
        uncross_kinds(auction_id, phase_revision, prepared),
        command,
        first,
    );
    lemma_reported_prefix(events, prepared.buffers.trades@, id, events.len());
    assert(events.take(events.len() as int) =~= events);
}

proof fn lemma_reported_prefix(
    events: Seq<CallAuctionEvent>,
    trades: Seq<CallAuctionTrade>,
    id: OrderId,
    count: nat,
)
    requires
        trades.len() <= events.len(),
        count <= events.len(),
        forall|k: int|
            0 <= k < trades.len() ==> (#[trigger] events[k]).kind == CallAuctionEventKind::Trade(
                trades[k],
            ),
        forall|k: int| trades.len() <= k < events.len() ==> !((#[trigger] events[k]).kind is Trade),
    ensures
        reported_lots(events.take(count as int), id) == traded_lots(
            trades.take(
                if count < trades.len() {
                    count as int
                } else {
                    trades.len() as int
                },
            ),
            id,
        ),
        count >= trades.len() ==> reported_lots(events.take(count as int), id) == traded_lots(
            trades,
            id,
        ),
    decreases count,
{
    assert(trades.take(trades.len() as int) =~= trades);
    if count > 0 {
        lemma_reported_prefix(events, trades, id, (count - 1) as nat);
        assert(events.take(count as int).drop_last() =~= events.take(count - 1));
        assert(events.take(count as int).last() == events[count - 1]);
        if count <= trades.len() {
            assert(trades.take(count as int).drop_last() =~= trades.take(count - 1));
            assert(events[count - 1].kind == CallAuctionEventKind::Trade(trades[count - 1]));
        }
    }
}

impl CallAuctionEngine {
    /// A preparation is committed only by the engine that made it and before it
    /// sequences another command, and an outside rejection is taken only of a
    /// submission or a replacement and only for a reason of risk.
    pub proof fn law_preparation_is_bound(
        &self,
        prepared: PreparedCallAuctionCommand,
        external: Option<CallAuctionRejectReason>,
    )
        ensures
            ({
                let fault = self.commit_fault(prepared, external);
                let own = prepared.engine_instance_id == self.instance_id;
                let new = !self.reports@.dom().contains(prepared.command.key());
                let fresh = prepared.expected_retained_commands == self.history@.len();
                let admission = prepared.command is Submit || prepared.command is Replace;
                &&& !own ==> fault == Some(CallAuctionEngineError::ForeignPreparation)
                &&& own && new && !fresh ==> fault == Some(
                    CallAuctionEngineError::StalePreparation,
                )
                &&& own && new && external is Some && !admission ==> fault is Some
                &&& own && new && external is Some && !names_risk(external->0) ==> fault is Some
            }),
    {
    }

    /// An engine alone never rejects for a reason of risk.
    pub proof fn law_engine_gives_no_risk_reason(
        &self,
        after: &Self,
        command: CallAuctionCommand,
        report: CallAuctionExecutionReport,
        reason: CallAuctionRejectReason,
    )
        requires
            after.submits_from(self, command, report),
            report.outcome == CallAuctionCommandOutcome::Rejected(reason),
        ensures
            !names_risk(reason),
    {
    }

    /// What the collection book rejects of a command that the phase rules let pass,
    /// an audit of the history takes as such a rejection.
    pub proof fn law_book_rejections_are_late(
        &self,
        command: CallAuctionCommand,
        reason: CallAuctionRejectReason,
    )
        requires
            self.phase_state().decision(
                command,
                self.book.definition.instrument_id,
                self.book.definition.version,
            ) == Ok::<Option<CallAuctionRejectReason>, CallAuctionEngineError>(None),
            self.decide(command) == Ok::<Option<CallAuctionRejectReason>, CallAuctionEngineError>(
                Some(reason),
            ),
        ensures
            late_rejection(command, reason),
    {
    }
}

/// Whether a reason is one of risk.
pub open spec fn names_risk(reason: CallAuctionRejectReason) -> bool {
    match reason {
        CallAuctionRejectReason::RiskProfileMissing => true,
        CallAuctionRejectReason::RiskAccountBlocked => true,
        CallAuctionRejectReason::RiskReduceOnly => true,
        CallAuctionRejectReason::RiskOrderQuantityLimit => true,
        CallAuctionRejectReason::RiskOrderNotionalLimit => true,
        CallAuctionRejectReason::RiskOpenOrderCountLimit => true,
        CallAuctionRejectReason::RiskOpenQuantityLimit => true,
        CallAuctionRejectReason::RiskOpenNotionalLimit => true,
        CallAuctionRejectReason::RiskPositionLimit => true,
        CallAuctionRejectReason::RiskArithmeticOverflow => true,
        _ => false,
    }
}

/// A reason that only book or risk can give is none of routing, revision, phase or
/// cycle, and a reason of risk comes with admissions only.
pub proof fn law_late_rejections_are_not_of_phase(
    command: CallAuctionCommand,
    reason: CallAuctionRejectReason,
)
    requires
        late_rejection(command, reason),
    ensures
        !(reason is WrongInstrument),
        !(reason is WrongInstrumentVersion),
        !(reason is PhaseRevisionMismatch),
        !(reason is InvalidPhaseTransition),
        !(reason is ActionNotAllowed),
        !(reason is AuctionIdMismatch),
        !(reason is AuctionIdNotNext),
        !(command is PhaseControl),
        !(command is MassCancel),
        names_risk(reason) ==> command is Submit || command is Replace,
        reason is QuantityNotReduced ==> command is Amend,
        reason is NoExecutableInterest ==> command is Uncross,
        reason is DuplicateOrder ==> command is Submit || command is Replace,
        reason is ReplacementAccountMismatch ==> command is Replace,
        reason is UnknownOrder || reason is NotOrderOwner ==> command is Cancel || command is Amend
            || command is Replace,
{
}

impl CallAuctionEngine {
    /// A routed uncross at the current revision of the frozen cycle is rejected for
    /// want of interest exactly when discovery finds no clearing, and is accepted
    /// where it finds one.
    pub proof fn law_uncross_outcome(
        &self,
        after: &Self,
        uncross: CallAuctionUncrossCommand,
        report: CallAuctionExecutionReport,
    )
        requires
            uncross.instrument_id == self.book.definition.instrument_id,
            uncross.instrument_version == self.book.definition.version,
            uncross.expected_phase_revision == self.phase_revision,
            self.phase == CallAuctionPhase::Frozen,
            self.active_auction_id == Some(uncross.auction_id),
            after.submits_from(self, CallAuctionCommand::Uncross(uncross), report),
        ensures
            match self.book.discovered_clearing(
                uncross.price_band,
                uncross.reference_price,
                uncross.price_policy,
            ) {
                Ok(None) => report.outcome == CallAuctionCommandOutcome::Rejected(
                    CallAuctionRejectReason::NoExecutableInterest,
                ),
                Ok(Some(_)) => report.outcome == CallAuctionCommandOutcome::Accepted,
                Err(_) => false,
            },
    {
    }

    /// The report of a mass cancel names each order that it removed, as it was, by
    /// rising identity, and then counts them.
    pub proof fn law_mass_cancel_reports_orders(
        &self,
        after: &Self,
        cancel: CallAuctionMassCancel,
        report: CallAuctionExecutionReport,
        i: int,
        j: int,
        id: OrderId,
    )
        requires
            self.wf(),
            cancel.instrument_id == self.book.definition.instrument_id,
            cancel.instrument_version == self.book.definition.version,
            after.submits_from(self, CallAuctionCommand::MassCancel(cancel), report),
        ensures
            ({
                let events = report.events@;
                let count = events.len() - 1;
                &&& 0 <= i < count ==> {
                    let order = events[i].kind->OrderCancelled_order;
                    &&& events[i].kind is OrderCancelled
                    &&& events[i].kind->OrderCancelled_reason
                        == CallAuctionCancellationReason::MassCancel
                    &&& self.book.active().dom().contains(order.order_id)
                    &&& order == self.book.active()[order.order_id]
                    &&& !after.book.active().dom().contains(order.order_id)
                }
                &&& 0 <= i < j < count ==> events[i].kind->OrderCancelled_order.order_id.value
                    < events[j].kind->OrderCancelled_order.order_id.value
                &&& self.book.active().dom().contains(id) && !after.book.active().dom().contains(id)
                    ==> exists|k: int|
                    0 <= k < count && (#[trigger] events[k]).kind is OrderCancelled
                        && events[k].kind->OrderCancelled_order.order_id == id
                &&& events[count].kind->MassCancelCompleted_cancelled_order_count == count
            }),
    {
        let events = report.events@;
        let count = events.len() - 1;
        let account = cancel.account_id;
        let list = self.book.selected_orders(account, cancel.scope);
        self.book.lemma_selected_listed(account, cancel.scope);
        self.book.law_selection_totals(account, cancel.scope, list);
        lemma_selection(&self.book, account, cancel.scope);
        self.book.orders.lemma_view();
        assert(count == list.len());
        if 0 <= i < count {
            assert(self.book.selected(account, cancel.scope).contains(list[i].order_id));
        }
        if 0 <= i < j < count {
            assert(list[i].order_id.value < list[j].order_id.value);
        }
        if self.book.active().dom().contains(id) && !after.book.active().dom().contains(id) {
            assert(self.book.selected(account, cancel.scope).contains(id));
            let k = choose|k: int| 0 <= k < list.len() && (#[trigger] list[k]).order_id == id;
            assert(events[k].kind is OrderCancelled);
        }
    }
}

impl CallAuctionEngine {
    /// A command reports as many events as the engine planned for it, so that room
    /// for the plan is room for the report.
    pub proof fn law_report_has_planned_events(
        &self,
        after: &Self,
        command: CallAuctionCommand,
        report: CallAuctionExecutionReport,
    )
        requires
            self.wf(),
            after.submits_from(self, command, report),
            self.prepare_fault(command) is None,
        ensures
            report.events@.len() == self.planned_events(command),
            report.events@.len() <= self.limits.report_events,
    {
        if let CallAuctionCommand::MassCancel(cancel) = command {
            let list = self.book.selected_orders(cancel.account_id, cancel.scope);
            self.book.lemma_selected_listed(cancel.account_id, cancel.scope);
            self.book.law_selection_totals(cancel.account_id, cancel.scope, list);
        }
    }
}

/// The reason of an outside gate is that of a rejection for risk.
pub proof fn law_outside_reasons_are_of_risk(outcome: CallAuctionCommandOutcome)
    ensures
        match outcome {
            CallAuctionCommandOutcome::Accepted => outcome.external() is None,
            CallAuctionCommandOutcome::Rejected(reason) => if names_risk(reason) {
                outcome.external() == Some(reason)
            } else {
                outcome.external() is None
            },
        },
{
}

impl CallAuctionEngine {
    /// A command is left undecided only where something is used up: revisions or
    /// cycle identities for a phase control, the book revision for cancellations
    /// and amendments, and room, counters or totals of the book for admissions.
    pub proof fn law_undecided_commands_are_exhausted(&self, command: CallAuctionCommand)
        requires
            self.wf(),
            self.decide(command) is Err,
        ensures
            match command {
                CallAuctionCommand::PhaseControl(_) => {
                    ||| self.phase_revision == u64::MAX
                    ||| self.last_auction_id == Some(AuctionId { value: u64::MAX })
                },
                CallAuctionCommand::Cancel(_) => self.book.state_revision == u64::MAX,
                CallAuctionCommand::MassCancel(_) => self.book.state_revision == u64::MAX,
                CallAuctionCommand::Amend(_) => self.book.state_revision == u64::MAX,
                CallAuctionCommand::Submit(submit) => {
                    let order = submit.order;
                    let queue = self.book.queue_of(order.side, order.constraint);
                    let held = self.book.account_side(order.account_id, order.side);
                    ||| self.book.active().len() >= self.book.limits.active_orders
                    ||| self.book.accepted().len() >= self.book.limits.accepted_order_ids
                    ||| order.constraint is Limit && self.book.level_map(order.side).len()
                        >= self.book.limits.price_levels_per_side
                    ||| self.book.next_priority_sequence == u64::MAX
                    ||| self.book.state_revision == u64::MAX
                    ||| queue.total_quantity + order.quantity.lots > u128::MAX
                    ||| queue.order_count == u64::MAX
                    ||| held.total_quantity + order.quantity.lots > u128::MAX
                    ||| held.order_count == usize::MAX
                },
                CallAuctionCommand::Replace(replace) => {
                    let target = replace.target_order_id;
                    let order = replace.replacement;
                    ||| self.book.accepted().len() >= self.book.limits.accepted_order_ids
                    ||| order.constraint is Limit && !self.book.replacement_room(target, order)
                    ||| self.book.next_priority_sequence == u64::MAX
                    ||| self.book.state_revision == u64::MAX
                    ||| !CallAuctionBook::aggregates_fit(
                        self.book.queue_after_removal(target, order.side, order.constraint),
                        self.book.side_after_removal(target, replace.account_id, order.side),
                        order.quantity,
                    )
                },
                CallAuctionCommand::Uncross(uncross) => match self.decide(command)->Err_0 {
                    CallAuctionEngineError::Discovery(_) => true,
                    CallAuctionEngineError::PhaseRevisionExhausted => self.phase_revision
                        == u64::MAX,
                    CallAuctionEngineError::UncrossPreparation(
                        CallAuctionPrepareError::StateRevisionExhausted,
                    ) => self.book.state_revision == u64::MAX,
                    CallAuctionEngineError::UncrossPreparation(
                        CallAuctionPrepareError::PreparationCapacityExhausted { .. },
                    ) => self.book.uncross_pool.available@.len() == 0,
                    CallAuctionEngineError::UncrossPreparation(
                        CallAuctionPrepareError::SelfTradeWouldOccur { .. },
                    ) => uncross.uncross_policy.self_trade == CallAuctionSelfTradePolicy::Abort,
                    CallAuctionEngineError::UncrossPreparation(_) => true,
                    _ => false,
                },
            },
    {
        if let CallAuctionCommand::Uncross(uncross) = command {
            if let Ok(Some(clearing)) = self.uncross_clearing(uncross) {
                let pairs = self.book.clearing_pairs(
                    clearing,
                    uncross.uncross_policy.allocation,
                );
                lemma_first_self_trade(self.book.active(), pairs, 0, 0);
            }
        }
    }

    /// An engine at rest is ready for its next step: closed it can open the next
    /// cycle, collecting it can freeze or close, frozen it can reopen or close, as
    /// long as revisions and cycle identities last.
    pub proof fn law_every_phase_has_a_way_on(
        &self,
        after: &Self,
        control: CallAuctionPhaseControl,
        report: CallAuctionExecutionReport,
    )
        requires
            self.wf(),
            control.instrument_id == self.book.definition.instrument_id,
            control.instrument_version == self.book.definition.version,
            control.expected_phase_revision == self.phase_revision,
            self.phase_revision < u64::MAX,
            match (self.phase, control.target_phase) {
                (CallAuctionPhase::Closed, CallAuctionPhase::Collecting) => {
                    match self.last_auction_id {
                        None => control.auction_id.value == 1,
                        Some(last) => control.auction_id.value == last.value + 1,
                    }
                },
                (CallAuctionPhase::Collecting, CallAuctionPhase::Frozen) => {
                    self.active_auction_id == Some(control.auction_id)
                },
                (CallAuctionPhase::Collecting, CallAuctionPhase::Closed) => {
                    self.active_auction_id == Some(control.auction_id)
                },
                (CallAuctionPhase::Frozen, CallAuctionPhase::Collecting) => {
                    self.active_auction_id == Some(control.auction_id)
                },
                (CallAuctionPhase::Frozen, CallAuctionPhase::Closed) => {
                    self.active_auction_id == Some(control.auction_id)
                },
                _ => false,
            },
        ensures
            self.history@.len() < self.limits.retained_commands
                - self.limits.terminal_command_reserve && self.next_command_sequence < u64::MAX
                && self.next_event_sequence < u64::MAX ==> self.prepare_fault(
                CallAuctionCommand::PhaseControl(control),
            ) is None,
            after.submits_from(self, CallAuctionCommand::PhaseControl(control), report) ==> {
                &&& report.outcome == CallAuctionCommandOutcome::Accepted
                &&& after.phase == control.target_phase
                &&& after.phase_revision == self.phase_revision + 1
                &&& report.events@.len() == 1
                &&& report.events@[0].kind == CallAuctionEventKind::PhaseChanged {
                    auction_id: control.auction_id,
                    previous: self.phase,
                    current: control.target_phase,
                    revision: after.phase_revision,
                }
            },
    {
        assert(self.limits.wf());
    }
}

} // verus!
