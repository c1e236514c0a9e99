//! Preparing, committing and releasing sequenced commands.

use vstd::prelude::*;

use crate::auction_engine::{
    bound_events, CallAuctionCommandPreparation, CallAuctionCommandRejection, CallAuctionEngine,
    PreparedCallAuctionAction, PreparedCallAuctionCommand,
};
use crate::book_types::{
    CallAuctionAdmissionError, CallAuctionAmendError, CallAuctionCancelError,
    CallAuctionOrderSnapshot, CallAuctionReplaceError,
};
use crate::book_uncross::{uncrossed, PreparedCallAuctionUncross};
use crate::domain::{AuctionId, CommandId};
use crate::engine_types::{
    is_external_risk_rejection, CallAuctionCancellationReason, CallAuctionCommand,
    CallAuctionCommandOutcome, CallAuctionCommandReportCheckpoint, CallAuctionEngineCapacity,
    CallAuctionEngineError, CallAuctionEvent, CallAuctionEventKind, CallAuctionEventTrace,
    CallAuctionExecutionReport, CallAuctionPhase, CallAuctionRejectReason,
    CallAuctionUncrossCommand,
};
use crate::storage::try_reserve;

verus! {

impl CallAuctionEngine {
    /// The replayed report of a retained command.
    pub open spec fn replays(&self, command: CallAuctionCommand, report: CallAuctionExecutionReport) -> bool {
        let cached = self.retained(command.key());
        &&& self.retains(command.key())
        &&& cached.command == command
        &&& report == (CallAuctionExecutionReport { replayed: true, ..cached.report })
    }

    /// Finds the retained report of an exact retry.
    fn find_replay(&self, command: CallAuctionCommand) -> (r: Option<
        Result<CallAuctionExecutionReport, CallAuctionEngineError>,
    >)
        requires
            self.wf(),
        ensures
            match r {
                None => !self.retains(command.key()),
                Some(Ok(report)) => self.replays(command, report),
                Some(Err(error)) => self.retains(command.key()) && self.retained(
                    command.key(),
                ).command != command && error == CallAuctionEngineError::CommandIdCollision(
                    command.key(),
                ),
            },
    {
        let command_id = command.command_id();
        match self.reports.get(command_id) {
            None => None,
            Some(position) => {
                let cached = &self.history[position];
                if cached.command != command {
                    return Some(Err(CallAuctionEngineError::CommandIdCollision(command_id)));
                }
                let mut report = cached.report.share();
                report.replayed = true;
                Some(Ok(report))
            },
        }
    }

    /// Buffer sets that no preparation or result holds.
    pub open spec fn free_buffers(&self) -> int {
        self.book.uncross_pool.available@.len() as int
    }

    /// Buffer sets that a prepared transition holds.
    pub open spec fn leases(
        action: Result<PreparedCallAuctionAction, CallAuctionEngineError>,
    ) -> int {
        if action is Ok && action->Ok_0 is Uncross {
            1
        } else {
            0
        }
    }

    /// Buffer sets that come back when a transition is applied or given up: the
    /// one that an uncross of this book holds, while the pool has room.
    pub open spec fn returned(&self, action: PreparedCallAuctionAction) -> int {
        match action {
            PreparedCallAuctionAction::Uncross { prepared, .. } => {
                if prepared.book_instance_id == self.book.instance_id && self.free_buffers()
                    < self.book.uncross_pool.capacity {
                    1
                } else {
                    0
                }
            },
            _ => 0,
        }
    }

    /// Checks the collection book for a command that the phase rules allow, and
    /// prepares its transition.
    fn prepare_book_action(&mut self, command: CallAuctionCommand) -> (r: Result<
        PreparedCallAuctionAction,
        CallAuctionEngineError,
    >)
        requires
            old(self).wf(),
            old(self).phase_state().decision(
                command,
                old(self).book.definition.instrument_id,
                old(self).book.definition.version,
            ) == Ok::<Option<CallAuctionRejectReason>, CallAuctionEngineError>(None),
        ensures
            final(self).wf(),
            final(self).same_but_leases(old(self)),
            final(self).free_buffers() == old(self).free_buffers() - Self::leases(r),
            match r {
                Ok(action) => old(self).action_matches(command, action),
                Err(error) => old(self).decide(command) == Err::<
                    Option<CallAuctionRejectReason>,
                    CallAuctionEngineError,
                >(error),
            },
    {
        match command {
            CallAuctionCommand::PhaseControl(control) => {
                let after = self.phase_snapshot().controlled(control);
                Ok(
                    PreparedCallAuctionAction::PhaseTransition {
                        auction_id: control.auction_id,
                        previous: self.phase,
                        current: control.target_phase,
                        revision: after.revision,
                        active_after: after.active_auction_id,
                        last_after: after.last_auction_id,
                    },
                )
            },
            CallAuctionCommand::Submit(submit) => match self.book.preflight_admission(
                submit.order,
            ) {
                Ok(_) => Ok(PreparedCallAuctionAction::Submit(submit.order)),
                Err(CallAuctionAdmissionError::Instrument(error)) => Ok(
                    PreparedCallAuctionAction::Rejected(CallAuctionRejectReason::Instrument(error)),
                ),
                Err(CallAuctionAdmissionError::DuplicateOrderId) => Ok(
                    PreparedCallAuctionAction::Rejected(CallAuctionRejectReason::DuplicateOrder),
                ),
                Err(error) => Err(CallAuctionEngineError::BookAdmission(error)),
            },
            CallAuctionCommand::Cancel(cancel) => match self.book.preflight_cancel(
                cancel.account_id,
                cancel.order_id,
            ) {
                Ok(_) => Ok(
                    PreparedCallAuctionAction::Cancel {
                        account_id: cancel.account_id,
                        order_id: cancel.order_id,
                    },
                ),
                Err(CallAuctionCancelError::UnknownOrder) => Ok(
                    PreparedCallAuctionAction::Rejected(CallAuctionRejectReason::UnknownOrder),
                ),
                Err(CallAuctionCancelError::AccountMismatch) => Ok(
                    PreparedCallAuctionAction::Rejected(CallAuctionRejectReason::NotOrderOwner),
                ),
                Err(error) => Err(CallAuctionEngineError::BookCancellation(error)),
            },
            CallAuctionCommand::MassCancel(cancel) => match self.book.preflight_mass_cancel(
                cancel.account_id,
                cancel.scope,
            ) {
                Ok(_) => Ok(
                    PreparedCallAuctionAction::MassCancel {
                        account_id: cancel.account_id,
                        scope: cancel.scope,
                    },
                ),
                Err(error) => Err(CallAuctionEngineError::BookMassCancellation(error)),
            },
            CallAuctionCommand::Amend(amend) => match self.book.preflight_amend(
                amend.account_id,
                amend.order_id,
                amend.new_quantity,
            ) {
                Ok(_) => Ok(
                    PreparedCallAuctionAction::Amend {
                        account_id: amend.account_id,
                        order_id: amend.order_id,
                        new_quantity: amend.new_quantity,
                    },
                ),
                Err(CallAuctionAmendError::UnknownOrder) => Ok(
                    PreparedCallAuctionAction::Rejected(CallAuctionRejectReason::UnknownOrder),
                ),
                Err(CallAuctionAmendError::AccountMismatch) => Ok(
                    PreparedCallAuctionAction::Rejected(CallAuctionRejectReason::NotOrderOwner),
                ),
                Err(CallAuctionAmendError::Instrument(error)) => Ok(
                    PreparedCallAuctionAction::Rejected(CallAuctionRejectReason::Instrument(error)),
                ),
                Err(CallAuctionAmendError::QuantityNotReduced) => Ok(
                    PreparedCallAuctionAction::Rejected(CallAuctionRejectReason::QuantityNotReduced),
                ),
                Err(error) => Err(CallAuctionEngineError::BookAmendment(error)),
            },
            CallAuctionCommand::Replace(replace) => match self.book.preflight_replace(
                replace.account_id,
                replace.target_order_id,
                replace.replacement,
            ) {
                Ok(_) => Ok(
                    PreparedCallAuctionAction::Replace {
                        account_id: replace.account_id,
                        target_order_id: replace.target_order_id,
                        replacement: replace.replacement,
                    },
                ),
                Err(CallAuctionReplaceError::Target(CallAuctionCancelError::UnknownOrder)) => Ok(
                    PreparedCallAuctionAction::Rejected(CallAuctionRejectReason::UnknownOrder),
                ),
                Err(CallAuctionReplaceError::Target(CallAuctionCancelError::AccountMismatch)) => Ok(
                    PreparedCallAuctionAction::Rejected(CallAuctionRejectReason::NotOrderOwner),
                ),
                Err(CallAuctionReplaceError::ReplacementAccountMismatch) => Ok(
                    PreparedCallAuctionAction::Rejected(
                        CallAuctionRejectReason::ReplacementAccountMismatch,
                    ),
                ),
                Err(CallAuctionReplaceError::Replacement(
                    CallAuctionAdmissionError::Instrument(error),
                )) => Ok(
                    PreparedCallAuctionAction::Rejected(CallAuctionRejectReason::Instrument(error)),
                ),
                Err(CallAuctionReplaceError::Replacement(
                    CallAuctionAdmissionError::DuplicateOrderId,
                )) => Ok(
                    PreparedCallAuctionAction::Rejected(CallAuctionRejectReason::DuplicateOrder),
                ),
                Err(error) => Err(CallAuctionEngineError::BookReplacement(error)),
            },
            CallAuctionCommand::Uncross(uncross) => self.prepare_uncross_command(uncross),
        }
    }

    /// Prepares the final uncross of the frozen cycle.
    fn prepare_uncross_command(&mut self, uncross: CallAuctionUncrossCommand) -> (r: Result<
        PreparedCallAuctionAction,
        CallAuctionEngineError,
    >)
        requires
            old(self).wf(),
            old(self).phase_state().decision(
                CallAuctionCommand::Uncross(uncross),
                old(self).book.definition.instrument_id,
                old(self).book.definition.version,
            ) == Ok::<Option<CallAuctionRejectReason>, CallAuctionEngineError>(None),
        ensures
            final(self).wf(),
            final(self).same_but_leases(old(self)),
            final(self).free_buffers() == old(self).free_buffers() - Self::leases(r),
            match r {
                Ok(action) => old(self).action_matches(CallAuctionCommand::Uncross(uncross), action),
                Err(error) => old(self).decide(CallAuctionCommand::Uncross(uncross)) == Err::<
                    Option<CallAuctionRejectReason>,
                    CallAuctionEngineError,
                >(error),
            },
    {
        let found = match self.book.indicative_clearing(
            uncross.price_band,
            uncross.reference_price,
            uncross.price_policy,
        ) {
            Ok(found) => found,
            Err(error) => {
                return Err(CallAuctionEngineError::Discovery(error));
            },
        };
        let indicative = match found {
            Some(indicative) => indicative,
            None => {
                return Ok(
                    PreparedCallAuctionAction::Rejected(
                        CallAuctionRejectReason::NoExecutableInterest,
                    ),
                );
            },
        };
        let phase_revision: u64 = match self.phase_revision.checked_add(1) {
            Some(value) => value,
            None => {
                return Err(CallAuctionEngineError::PhaseRevisionExhausted);
            },
        };
        match self.book.prepare_uncross(indicative, uncross.uncross_policy) {
            Ok(prepared) => Ok(
                PreparedCallAuctionAction::Uncross {
                    auction_id: uncross.auction_id,
                    phase_revision,
                    prepared,
                },
            ),
            Err(error) => Err(CallAuctionEngineError::UncrossPreparation(error)),
        }
    }

    /// Decides a command and prepares its transition.
    fn prepare_action(&mut self, command: CallAuctionCommand) -> (r: Result<
        PreparedCallAuctionAction,
        CallAuctionEngineError,
    >)
        requires
            old(self).wf(),
        ensures
            final(self).wf(),
            final(self).same_but_leases(old(self)),
            final(self).free_buffers() == old(self).free_buffers() - Self::leases(r),
            match r {
                Ok(action) => old(self).action_matches(command, action),
                Err(error) => old(self).decide(command) == Err::<
                    Option<CallAuctionRejectReason>,
                    CallAuctionEngineError,
                >(error),
            },
    {
        let decision = self.phase_snapshot().preflight(
            command,
            self.book.definition.instrument_id,
            self.book.definition.version,
        );
        match decision {
            Err(error) => Err(error),
            Ok(Some(reason)) => Ok(PreparedCallAuctionAction::Rejected(reason)),
            Ok(None) => self.prepare_book_action(command),
        }
    }

    /// Returns the buffer set that an unused action leased.
    fn discard(&mut self, action: PreparedCallAuctionAction)
        requires
            old(self).wf(),
        ensures
            final(self).wf(),
            final(self).same_but_leases(old(self)),
            !(action is Uncross) ==> *final(self) == *old(self),
            final(self).free_buffers() == old(self).free_buffers() + old(self).returned(action),
    {
        match action {
            PreparedCallAuctionAction::Uncross { prepared, .. } => {
                let _ = self.book.release_prepared(prepared);
            },
            _ => {},
        }
    }

    /// Returns the leases of an unused preparation to this engine.
    ///
    /// A preparation of another engine is handed back.
    pub fn release(&mut self, prepared: PreparedCallAuctionCommand) -> (r: Result<
        (),
        PreparedCallAuctionCommand,
    >)
        requires
            old(self).wf(),
        ensures
            final(self).wf(),
            final(self).same_but_leases(old(self)),
            match r {
                Ok(_) => {
                    &&& prepared.engine_instance_id == old(self).instance_id
                    &&& final(self).free_buffers() == old(self).free_buffers() + old(self).returned(
                        prepared.action,
                    )
                },
                Err(returned) => returned == prepared && prepared.engine_instance_id != old(
                    self,
                ).instance_id && *final(self) == *old(self),
            },
    {
        if prepared.engine_instance_id != self.instance_id {
            return Err(prepared);
        }
        self.discard(prepared.action);
        Ok(())
    }

    /// How many events an action emits.
    fn count_events(&self, action: &PreparedCallAuctionAction) -> (r: Option<usize>)
        requires
            self.wf(),
        ensures
            match r {
                Some(count) => count == self.event_bound(*action),
                None => self.event_bound(*action) > usize::MAX,
            },
    {
        match action {
            PreparedCallAuctionAction::MassCancel { account_id, scope } => {
                let count: usize = self.book.account_active_order_count(*account_id, *scope);
                count.checked_add(1)
            },
            PreparedCallAuctionAction::Replace { .. } => Some(2),
            PreparedCallAuctionAction::Uncross { prepared, .. } => {
                match prepared.buffers.trades.len().checked_add(
                    prepared.buffers.cancellations.len(),
                ) {
                    Some(body) => body.checked_add(1),
                    None => None,
                }
            },
            _ => Some(1),
        }
    }

    /// Fully preflights one command without semantic state mutation.
    ///
    /// Exact retries precede every capacity gate. The returned move-only token
    /// owns complete report storage and, for an uncross, all allocation and
    /// pairing storage.
    pub fn prepare(&mut self, command: CallAuctionCommand) -> (r: Result<
        CallAuctionCommandPreparation,
        CallAuctionEngineError,
    >)
        requires
            old(self).wf(),
        ensures
            final(self).wf(),
            final(self).same_but_leases(old(self)),
            match r {
                Ok(CallAuctionCommandPreparation::Replay(report)) => {
                    &&& old(self).replays(command, report)
                    &&& *final(self) == *old(self)
                },
                Ok(CallAuctionCommandPreparation::Ready(prepared)) => {
                    &&& !old(self).retains(command.key())
                    &&& old(self).prepare_fault(command) is None
                    &&& prepared.command == command
                    &&& prepared.engine_instance_id == old(self).instance_id
                    &&& prepared.expected_retained_commands == old(self).history@.len()
                    &&& old(self).action_matches(command, prepared.action)
                    &&& final(self).commit_fault(prepared, None) is None
                    &&& final(self).free_buffers() == old(self).free_buffers() - Self::leases(
                        Ok(prepared.action),
                    )
                },
                Err(error) => {
                    &&& final(self).free_buffers() == old(self).free_buffers()
                    &&& if old(self).retains(command.key()) {
                        &&& old(self).retained(command.key()).command != command
                        &&& error == CallAuctionEngineError::CommandIdCollision(command.key())
                    } else if old(self).prepare_fault(command) is Some {
                        old(self).prepare_fault(command) == Some(error)
                    } else {
                        error == CallAuctionEngineError::CapacityReservationFailed(
                            CallAuctionEngineCapacity::ReportEvents,
                        )
                    }
                },
            },
    {
        match self.find_replay(command) {
            Some(Ok(report)) => {
                return Ok(CallAuctionCommandPreparation::Replay(report));
            },
            Some(Err(error)) => {
                return Err(error);
            },
            None => {},
        }
        let ghost entry = *self;
        let action = match self.prepare_action(command) {
            Ok(action) => action,
            Err(error) => {
                return Err(error);
            },
        };
        proof {
            entry.lemma_planned(command, action);
            self.lemma_lease_frame(&entry, action);
        }
        let retained: usize = self.history.len();
        if retained >= self.limits.retained_commands {
            self.discard(action);
            return Err(
                CallAuctionEngineError::CapacityExhausted(
                    CallAuctionEngineCapacity::CommandHistory,
                ),
            );
        }
        if retained >= self.limits.ordinary_command_capacity()
            && !action.is_terminal_lane_eligible() {
            self.discard(action);
            return Err(
                CallAuctionEngineError::CapacityExhausted(
                    CallAuctionEngineCapacity::AdmissionCommandHistory,
                ),
            );
        }
        let maximum_events: usize = match self.count_events(&action) {
            Some(count) => count,
            None => {
                self.discard(action);
                return Err(
                    CallAuctionEngineError::CapacityExhausted(
                        CallAuctionEngineCapacity::ReportEvents,
                    ),
                );
            },
        };
        if maximum_events > self.limits.report_events {
            self.discard(action);
            return Err(
                CallAuctionEngineError::CapacityExhausted(CallAuctionEngineCapacity::ReportEvents),
            );
        }
        if self.next_command_sequence == u64::MAX || self.next_event_sequence.checked_add(
            maximum_events as u64,
        ).is_none() {
            self.discard(action);
            return Err(CallAuctionEngineError::SequenceExhausted);
        }
        let mut events: Vec<CallAuctionEvent> = Vec::new();
        if !try_reserve(&mut events, maximum_events) {
            self.discard(action);
            return Err(
                CallAuctionEngineError::CapacityReservationFailed(
                    CallAuctionEngineCapacity::ReportEvents,
                ),
            );
        }
        Ok(
            CallAuctionCommandPreparation::Ready(
                PreparedCallAuctionCommand {
                    command,
                    engine_instance_id: self.instance_id,
                    expected_retained_commands: retained,
                    action,
                    events,
                },
            ),
        )
    }

    /// The action of a matching command emits the planned number of events, is
    /// eligible as planned and can be applied.
    proof fn lemma_planned(&self, command: CallAuctionCommand, action: PreparedCallAuctionAction)
        requires
            self.wf(),
            self.action_matches(command, action),
        ensures
            self.event_bound(action) == self.planned_events(command),
            action.terminal() == self.terminal_lane(command),
            self.action_fault(action) is None,
    {
    }

    /// What an action needs and emits does not depend on leases.
    pub(crate) proof fn lemma_lease_frame(&self, other: &Self, action: PreparedCallAuctionAction)
        requires
            self.same_but_leases(other),
        ensures
            self.event_bound(action) == other.event_bound(action),
            self.action_kinds(action) == other.action_kinds(action),
            self.action_fault(action) == other.action_fault(action),
    {
        match action {
            PreparedCallAuctionAction::MassCancel { account_id, scope } => {
                assert(self.book.selected(account_id, scope) =~= other.book.selected(
                    account_id,
                    scope,
                ));
                self.lemma_selection_frame(other, account_id, scope);
            },
            PreparedCallAuctionAction::Submit(order) => {
                assert(self.book.queue_of(order.side, order.constraint) == other.book.queue_of(
                    order.side,
                    order.constraint,
                ));
                assert(self.book.account_side(order.account_id, order.side)
                    == other.book.account_side(order.account_id, order.side));
                assert(self.book.level_map(order.side) == other.book.level_map(order.side));
            },
            PreparedCallAuctionAction::Replace { account_id, target_order_id, replacement } => {
                assert(self.book.queue_of(replacement.side, replacement.constraint)
                    == other.book.queue_of(replacement.side, replacement.constraint));
                assert(self.book.account_side(account_id, replacement.side)
                    == other.book.account_side(account_id, replacement.side));
                assert(self.book.level_map(replacement.side) == other.book.level_map(
                    replacement.side,
                ));
            },
            _ => {},
        }
    }

    proof fn lemma_selection_frame(
        &self,
        other: &Self,
        account: crate::domain::AccountId,
        scope: crate::domain::MassCancelScope,
    )
        requires
            self.same_but_leases(other),
        ensures
            self.book.selected_count(account, scope) == other.book.selected_count(account, scope),
            self.book.selected_lots(account, scope) == other.book.selected_lots(account, scope),
            self.book.mass_cancel_result(account, scope) == other.book.mass_cancel_result(
                account,
                scope,
            ),
            self.book.selected_orders(account, scope) == other.book.selected_orders(account, scope),
    {
        assert(self.book.selected(account, scope) =~= other.book.selected(account, scope));
        assert(self.book.account_side(account, crate::domain::Side::Buy)
            == other.book.account_side(account, crate::domain::Side::Buy));
        assert(self.book.account_side(account, crate::domain::Side::Sell)
            == other.book.account_side(account, crate::domain::Side::Sell));
    }

    /// Why an action cannot be applied.
    pub open spec fn action_fault(&self, action: PreparedCallAuctionAction) -> Option<
        CallAuctionEngineError,
    > {
        match action {
            PreparedCallAuctionAction::Rejected(_) => None,
            PreparedCallAuctionAction::PhaseTransition { .. } => None,
            PreparedCallAuctionAction::Submit(order) => if self.book.admission_fault(
                order,
            ) is Some {
                Some(CallAuctionEngineError::InternalInvariantViolation)
            } else {
                None
            },
            PreparedCallAuctionAction::Cancel { account_id, order_id } => {
                if self.book.cancel_fault(account_id, order_id) is Some {
                    Some(CallAuctionEngineError::InternalInvariantViolation)
                } else {
                    None
                }
            },
            PreparedCallAuctionAction::MassCancel { account_id, scope } => {
                if self.book.mass_cancel_exhausted(account_id, scope) {
                    Some(CallAuctionEngineError::InternalInvariantViolation)
                } else {
                    None
                }
            },
            PreparedCallAuctionAction::Amend { account_id, order_id, new_quantity } => {
                if self.book.amend_fault(account_id, order_id, new_quantity) is Some {
                    Some(CallAuctionEngineError::InternalInvariantViolation)
                } else {
                    None
                }
            },
            PreparedCallAuctionAction::Replace { account_id, target_order_id, replacement } => {
                if self.book.replace_fault(account_id, target_order_id, replacement) is Some {
                    Some(CallAuctionEngineError::InternalInvariantViolation)
                } else {
                    None
                }
            },
            PreparedCallAuctionAction::Uncross { prepared, .. } => match self.book.commit_fault(
                prepared,
            ) {
                Some(error) => Some(CallAuctionEngineError::UncrossCommit(error)),
                None => None,
            },
        }
    }

    /// The action that a risk gate leaves of a prepared one.
    pub open spec fn gated(
        action: PreparedCallAuctionAction,
        external_rejection: Option<CallAuctionRejectReason>,
    ) -> PreparedCallAuctionAction {
        match external_rejection {
            Some(reason) => if action is Rejected {
                action
            } else {
                PreparedCallAuctionAction::Rejected(reason)
            },
            None => action,
        }
    }

    /// The first reason why a preparation is refused.
    ///
    /// A retained command is not applied again: its report is replayed.
    pub open spec fn commit_fault(
        &self,
        prepared: PreparedCallAuctionCommand,
        external_rejection: Option<CallAuctionRejectReason>,
    ) -> Option<CallAuctionEngineError> {
        let action = Self::gated(prepared.action, external_rejection);
        if prepared.engine_instance_id != self.instance_id {
            Some(CallAuctionEngineError::ForeignPreparation)
        } else if self.retains(prepared.command.key()) {
            if self.retained(prepared.command.key()).command != prepared.command {
                Some(CallAuctionEngineError::CommandIdCollision(prepared.command.key()))
            } else {
                None
            }
        } else if prepared.expected_retained_commands != self.history@.len() {
            Some(CallAuctionEngineError::StalePreparation)
        } else if self.history@.len() >= self.limits.retained_commands {
            Some(CallAuctionEngineError::InternalInvariantViolation)
        } else if external_rejection matches Some(reason) && !(reason.is_risk() && (
        prepared.command is Submit || prepared.command is Replace)) {
            Some(CallAuctionEngineError::InternalInvariantViolation)
        } else if self.next_command_sequence == u64::MAX || self.event_bound(action) > usize::MAX
            || self.next_event_sequence + self.event_bound(action) > u64::MAX {
            Some(CallAuctionEngineError::InternalInvariantViolation)
        } else {
            self.action_fault(action)
        }
    }
}

impl CallAuctionEngine {
    /// What an action changes in book and phase.
    pub open spec fn transitions_from(&self, old: &Self, action: PreparedCallAuctionAction) -> bool {
        match action {
            PreparedCallAuctionAction::Rejected(_) => {
                &&& self.book.same_but_leases(&old.book)
                &&& self.book.active() == old.book.active()
                &&& self.phase_state() == old.phase_state()
            },
            PreparedCallAuctionAction::PhaseTransition {
                current,
                revision,
                active_after,
                last_after,
                ..
            } => {
                &&& self.book == old.book
                &&& self.phase == current
                &&& self.phase_revision == revision
                &&& self.active_auction_id == active_after
                &&& self.last_auction_id == last_after
            },
            PreparedCallAuctionAction::Submit(order) => {
                &&& self.book.admits_from(&old.book, order)
                &&& self.phase_state() == old.phase_state()
            },
            PreparedCallAuctionAction::Cancel { order_id, .. } => {
                &&& self.book.cancels_from(&old.book, order_id)
                &&& self.phase_state() == old.phase_state()
            },
            PreparedCallAuctionAction::MassCancel { account_id, scope } => {
                &&& self.book.mass_cancels_from(&old.book, account_id, scope)
                &&& self.phase_state() == old.phase_state()
            },
            PreparedCallAuctionAction::Amend { order_id, new_quantity, .. } => {
                &&& self.book.amends_from(&old.book, order_id, new_quantity)
                &&& self.phase_state() == old.phase_state()
            },
            PreparedCallAuctionAction::Replace { target_order_id, replacement, .. } => {
                &&& self.book.replaces_from(&old.book, target_order_id, replacement)
                &&& self.phase_state() == old.phase_state()
            },
            PreparedCallAuctionAction::Uncross { phase_revision, prepared, .. } => {
                &&& self.book.same_frame(&old.book)
                &&& self.book.seen_order_ids == old.book.seen_order_ids
                &&& self.book.next_priority_sequence == old.book.next_priority_sequence
                &&& self.book.active() == uncrossed(
                    old.book.active(),
                    prepared.buffers.plan,
                    prepared.policy.remainder,
                )
                &&& self.book.next_trade_id == prepared.next_trade_id
                &&& self.book.state_revision == prepared.next_state_revision
                &&& self.book.uncross_pool.available@.len()
                    == old.book.uncross_pool.available@.len() + (if
                old.book.uncross_pool.available@.len() < old.book.uncross_pool.capacity {
                    1int
                } else {
                    0int
                })
                &&& self.phase == CallAuctionPhase::Closed
                &&& self.phase_revision == phase_revision
                &&& self.active_auction_id is None
                &&& self.last_auction_id == old.last_auction_id
            },
        }
    }

    /// Identity, limits, history and command sequence are unchanged.
    pub open spec fn same_history(&self, old: &Self) -> bool {
        &&& self.instance_id == old.instance_id
        &&& self.limits == old.limits
        &&& self.next_command_sequence == old.next_command_sequence
        &&& self.reports == old.reports
        &&& self.history == old.history
    }

    /// Binds one event to the next sequence.
    fn push_event(
        &mut self,
        command: CallAuctionCommand,
        kind: CallAuctionEventKind,
        events: &mut Vec<CallAuctionEvent>,
    )
        requires
            old(self).next_event_sequence < u64::MAX,
        ensures
            *final(self) == (CallAuctionEngine {
                next_event_sequence: (old(self).next_event_sequence + 1) as u64,
                ..*old(self)
            }),
            final(events)@ == old(events)@.push(
                CallAuctionEvent {
                    sequence: old(self).next_event_sequence,
                    command_id: command.key(),
                    occurred_at: command.time(),
                    kind,
                },
            ),
    {
        let sequence: u64 = self.next_event_sequence;
        self.next_event_sequence = sequence + 1;
        events.push(
            CallAuctionEvent {
                sequence,
                command_id: command.command_id(),
                occurred_at: command.received_at(),
                kind,
            },
        );
    }

    /// Commits the book preparation of an uncross and emits its events.
    fn apply_prepared_uncross(
        &mut self,
        command: CallAuctionCommand,
        auction_id: AuctionId,
        phase_revision: u64,
        prepared: PreparedCallAuctionUncross,
        events: &mut Vec<CallAuctionEvent>,
    ) -> (r: Result<CallAuctionCommandOutcome, CallAuctionEngineError>)
        requires
            old(self).wf(),
            old(events)@.len() == 0,
            old(self).next_event_sequence + prepared.buffers.trades@.len()
                + prepared.buffers.cancellations@.len() + 1 <= u64::MAX,
        ensures
            final(self).wf(),
            final(self).same_history(old(self)),
            final(self).free_buffers() == old(self).free_buffers() + old(self).returned(
                PreparedCallAuctionAction::Uncross { auction_id, phase_revision, prepared },
            ),
            ({
                let action = PreparedCallAuctionAction::Uncross {
                    auction_id,
                    phase_revision,
                    prepared,
                };
                let kinds = old(self).action_kinds(action);
                match r {
                    Ok(outcome) => {
                        &&& old(self).action_fault(action) is None
                        &&& outcome == CallAuctionCommandOutcome::Accepted
                        &&& final(self).transitions_from(old(self), action)
                        &&& final(self).next_event_sequence == old(self).next_event_sequence
                            + kinds.len()
                        &&& final(events)@ == bound_events(
                            kinds,
                            command,
                            old(self).next_event_sequence as int,
                        )
                    },
                    Err(error) => {
                        &&& old(self).action_fault(action) == Some(error)
                        &&& final(self).same_but_leases(old(self))
                    },
                }
            }),
    {
        let ghost entry = *self;
        let ghost action = PreparedCallAuctionAction::Uncross {
            auction_id,
            phase_revision,
            prepared,
        };
        let ghost kinds = self.action_kinds(action);
        let trade_count: u64 = prepared.buffers.trades.len() as u64;
        let cancellation_count: u64 = prepared.buffers.cancellations.len() as u64;
        let uncross = match self.book.commit_uncross(prepared) {
            Ok(uncross) => uncross,
            Err(rejection) => {
                let error = rejection.error;
                let _ = self.book.release_prepared(rejection.prepared);
                return Err(CallAuctionEngineError::UncrossCommit(error));
            },
        };
        let ghost committed = self.book;
        let mut index: usize = 0;
        while index < uncross.buffers.trades.len()
            invariant
                uncross.buffers == prepared.buffers,
                kinds == crate::auction_engine::uncross_kinds(auction_id, phase_revision, prepared),
                index <= uncross.buffers.trades@.len(),
                events@ == bound_events(
                    kinds.take(index as int),
                    command,
                    entry.next_event_sequence as int,
                ),
                self.next_event_sequence == entry.next_event_sequence + index,
                entry.next_event_sequence + prepared.buffers.trades@.len()
                    + prepared.buffers.cancellations@.len() + 1 <= u64::MAX,
                *self == (CallAuctionEngine {
                    book: committed,
                    next_event_sequence: self.next_event_sequence,
                    ..entry
                }),
            decreases uncross.buffers.trades@.len() - index,
        {
            let trade = uncross.buffers.trades[index];
            self.push_event(command, CallAuctionEventKind::Trade(trade), events);
            index += 1;
            proof {
                assert(kinds[index - 1] == CallAuctionEventKind::Trade(trade));
                assert(events@ =~= bound_events(
                    kinds.take(index as int),
                    command,
                    entry.next_event_sequence as int,
                ));
            }
        }
        let ghost trades = uncross.buffers.trades@.len() as int;
        let mut position: usize = 0;
        while position < uncross.buffers.cancellations.len()
            invariant
                uncross.buffers == prepared.buffers,
                kinds == crate::auction_engine::uncross_kinds(auction_id, phase_revision, prepared),
                trades == uncross.buffers.trades@.len(),
                position <= uncross.buffers.cancellations@.len(),
                events@ == bound_events(
                    kinds.take(trades + position),
                    command,
                    entry.next_event_sequence as int,
                ),
                self.next_event_sequence == entry.next_event_sequence + trades + position,
                entry.next_event_sequence + prepared.buffers.trades@.len()
                    + prepared.buffers.cancellations@.len() + 1 <= u64::MAX,
                *self == (CallAuctionEngine {
                    book: committed,
                    next_event_sequence: self.next_event_sequence,
                    ..entry
                }),
            decreases uncross.buffers.cancellations@.len() - position,
        {
            let cancellation = uncross.buffers.cancellations[position];
            self.push_event(
                command,
                CallAuctionEventKind::RemainderCancelled(cancellation),
                events,
            );
            position += 1;
            proof {
                assert(kinds[trades + position - 1] == CallAuctionEventKind::RemainderCancelled(
                    cancellation,
                ));
                assert(events@ =~= bound_events(
                    kinds.take(trades + position),
                    command,
                    entry.next_event_sequence as int,
                ));
            }
        }
        self.phase = CallAuctionPhase::Closed;
        self.phase_revision = phase_revision;
        self.active_auction_id = None;
        self.push_event(
            command,
            CallAuctionEventKind::UncrossCompleted {
                auction_id,
                clearing: uncross.buffers.plan.clearing,
                policy: uncross.policy,
                trade_count,
                cancellation_count,
                book_revision: uncross.state_revision,
                phase_revision,
            },
            events,
        );
        proof {
            assert(kinds.last() == events@.last().kind);
            assert(events@ =~= bound_events(
                kinds,
                command,
                entry.next_event_sequence as int,
            ));
        }
        let _ = self.book.release_uncross(uncross);
        Ok(CallAuctionCommandOutcome::Accepted)
    }

    /// Cancels the selected orders of one account and emits their events.
    fn apply_mass_cancel(
        &mut self,
        command: CallAuctionCommand,
        account_id: crate::domain::AccountId,
        scope: crate::domain::MassCancelScope,
        events: &mut Vec<CallAuctionEvent>,
    ) -> (r: Result<CallAuctionCommandOutcome, CallAuctionEngineError>)
        requires
            old(self).wf(),
            old(events)@.len() == 0,
            old(self).next_event_sequence + old(self).book.selected_count(account_id, scope) + 1
                <= u64::MAX,
        ensures
            final(self).wf(),
            final(self).same_history(old(self)),
            final(self).free_buffers() == old(self).free_buffers(),
            ({
                let action = PreparedCallAuctionAction::MassCancel { account_id, scope };
                let kinds = old(self).action_kinds(action);
                match r {
                    Ok(outcome) => {
                        &&& old(self).action_fault(action) is None
                        &&& outcome == CallAuctionCommandOutcome::Accepted
                        &&& final(self).transitions_from(old(self), action)
                        &&& final(self).next_event_sequence == old(self).next_event_sequence
                            + kinds.len()
                        &&& final(events)@ == bound_events(
                            kinds,
                            command,
                            old(self).next_event_sequence as int,
                        )
                    },
                    Err(error) => {
                        &&& old(self).action_fault(action) == Some(error)
                        &&& *final(self) == *old(self)
                    },
                }
            }),
    {
        let ghost entry = *self;
        let ghost kinds = self.action_kinds(
            PreparedCallAuctionAction::MassCancel { account_id, scope },
        );
        let result = match self.book.preflight_mass_cancel(account_id, scope) {
            Ok(result) => result,
            Err(_) => {
                return Err(CallAuctionEngineError::InternalInvariantViolation);
            },
        };
        let mut cancelled: Vec<CallAuctionOrderSnapshot> = Vec::new();
        self.book.cancel_selected(account_id, scope, &mut cancelled);
        let ghost committed = self.book;
        let mut index: usize = 0;
        while index < cancelled.len()
            invariant
                cancelled@ == entry.book.selected_orders(account_id, scope),
                cancelled@.len() == entry.book.selected_count(account_id, scope),
                kinds == entry.action_kinds(
                    PreparedCallAuctionAction::MassCancel { account_id, scope },
                ),
                index <= cancelled@.len(),
                events@ == bound_events(
                    kinds.take(index as int),
                    command,
                    entry.next_event_sequence as int,
                ),
                self.next_event_sequence == entry.next_event_sequence + index,
                entry.next_event_sequence + entry.book.selected_count(account_id, scope) + 1
                    <= u64::MAX,
                *self == (CallAuctionEngine {
                    book: committed,
                    next_event_sequence: self.next_event_sequence,
                    ..entry
                }),
            decreases cancelled@.len() - index,
        {
            let order = cancelled[index];
            self.push_event(
                command,
                CallAuctionEventKind::OrderCancelled {
                    order,
                    reason: CallAuctionCancellationReason::MassCancel,
                },
                events,
            );
            index += 1;
            proof {
                assert(events@ =~= bound_events(
                    kinds.take(index as int),
                    command,
                    entry.next_event_sequence as int,
                ));
            }
        }
        self.push_event(
            command,
            CallAuctionEventKind::MassCancelCompleted {
                account_id,
                scope,
                cancelled_order_count: result.cancelled_order_count,
                cancelled_quantity_lots: result.cancelled_quantity_lots,
                book_revision: result.state_revision,
            },
            events,
        );
        proof {
            assert(kinds.last() == events@.last().kind);
            assert(events@ =~= bound_events(
                kinds,
                command,
                entry.next_event_sequence as int,
            ));
        }
        Ok(CallAuctionCommandOutcome::Accepted)
    }

    /// Applies one prepared transition and emits its events.
    fn apply_prepared_action(
        &mut self,
        command: CallAuctionCommand,
        action: PreparedCallAuctionAction,
        events: &mut Vec<CallAuctionEvent>,
    ) -> (r: Result<CallAuctionCommandOutcome, CallAuctionEngineError>)
        requires
            old(self).wf(),
            old(events)@.len() == 0,
            old(self).next_event_sequence + old(self).event_bound(action) <= u64::MAX,
        ensures
            final(self).wf(),
            final(self).same_history(old(self)),
            final(self).free_buffers() == old(self).free_buffers() + old(self).returned(action),
            ({
                let kinds = old(self).action_kinds(action);
                match r {
                    Ok(outcome) => {
                        &&& old(self).action_fault(action) is None
                        &&& outcome == action.outcome()
                        &&& final(self).transitions_from(old(self), action)
                        &&& final(self).next_event_sequence == old(self).next_event_sequence
                            + kinds.len()
                        &&& final(events)@ == bound_events(
                            kinds,
                            command,
                            old(self).next_event_sequence as int,
                        )
                    },
                    Err(error) => {
                        &&& old(self).action_fault(action) == Some(error)
                        &&& final(self).same_but_leases(old(self))
                    },
                }
            }),
    {
        let ghost entry = *self;
        let ghost first = self.next_event_sequence as int;
        match action {
            PreparedCallAuctionAction::Rejected(reason) => {
                self.push_event(command, CallAuctionEventKind::CommandRejected(reason), events);
                proof {
                    assert(events@ =~= bound_events(entry.action_kinds(action), command, first));
                }
                Ok(CallAuctionCommandOutcome::Rejected(reason))
            },
            PreparedCallAuctionAction::PhaseTransition {
                auction_id,
                previous,
                current,
                revision,
                active_after,
                last_after,
            } => {
                self.phase = current;
                self.phase_revision = revision;
                self.active_auction_id = active_after;
                self.last_auction_id = last_after;
                self.push_event(
                    command,
                    CallAuctionEventKind::PhaseChanged { auction_id, previous, current, revision },
                    events,
                );
                proof {
                    assert(events@ =~= bound_events(entry.action_kinds(action), command, first));
                }
                Ok(CallAuctionCommandOutcome::Accepted)
            },
            PreparedCallAuctionAction::Submit(order) => {
                let snapshot = match self.book.admit_order(order) {
                    Ok(snapshot) => snapshot,
                    Err(_) => {
                        return Err(CallAuctionEngineError::InternalInvariantViolation);
                    },
                };
                self.push_event(command, CallAuctionEventKind::OrderAccepted(snapshot), events);
                proof {
                    assert(events@ =~= bound_events(entry.action_kinds(action), command, first));
                }
                Ok(CallAuctionCommandOutcome::Accepted)
            },
            PreparedCallAuctionAction::Cancel { account_id, order_id } => {
                let snapshot = match self.book.cancel(account_id, order_id) {
                    Ok(snapshot) => snapshot,
                    Err(_) => {
                        return Err(CallAuctionEngineError::InternalInvariantViolation);
                    },
                };
                self.push_event(
                    command,
                    CallAuctionEventKind::OrderCancelled {
                        order: snapshot,
                        reason: CallAuctionCancellationReason::UserRequested,
                    },
                    events,
                );
                proof {
                    assert(events@ =~= bound_events(entry.action_kinds(action), command, first));
                }
                Ok(CallAuctionCommandOutcome::Accepted)
            },
            PreparedCallAuctionAction::MassCancel { account_id, scope } => {
                self.apply_mass_cancel(command, account_id, scope, events)
            },
            PreparedCallAuctionAction::Amend { account_id, order_id, new_quantity } => {
                let amendment = match self.book.amend(account_id, order_id, new_quantity) {
                    Ok(amendment) => amendment,
                    Err(_) => {
                        return Err(CallAuctionEngineError::InternalInvariantViolation);
                    },
                };
                self.push_event(
                    command,
                    CallAuctionEventKind::OrderAmended {
                        order: amendment.current,
                        previous_quantity: amendment.previous.quantity,
                        book_revision: amendment.state_revision,
                    },
                    events,
                );
                proof {
                    assert(events@ =~= bound_events(entry.action_kinds(action), command, first));
                }
                Ok(CallAuctionCommandOutcome::Accepted)
            },
            PreparedCallAuctionAction::Replace { account_id, target_order_id, replacement } => {
                let replaced = match self.book.replace(account_id, target_order_id, replacement) {
                    Ok(replaced) => replaced,
                    Err(_) => {
                        return Err(CallAuctionEngineError::InternalInvariantViolation);
                    },
                };
                self.push_event(
                    command,
                    CallAuctionEventKind::OrderCancelled {
                        order: replaced.cancelled,
                        reason: CallAuctionCancellationReason::Replaced,
                    },
                    events,
                );
                self.push_event(
                    command,
                    CallAuctionEventKind::OrderAccepted(replaced.accepted),
                    events,
                );
                proof {
                    assert(events@ =~= bound_events(entry.action_kinds(action), command, first));
                }
                Ok(CallAuctionCommandOutcome::Accepted)
            },
            PreparedCallAuctionAction::Uncross { auction_id, phase_revision, prepared } => {
                self.apply_prepared_uncross(command, auction_id, phase_revision, prepared, events)
            },
        }
    }

    /// What committing a new command changes.
    pub open spec fn commits_from(
        &self,
        old: &Self,
        command: CallAuctionCommand,
        action: PreparedCallAuctionAction,
        report: CallAuctionExecutionReport,
    ) -> bool {
        let kinds = old.action_kinds(action);
        &&& self.transitions_from(old, action)
        &&& self.instance_id == old.instance_id
        &&& self.limits == old.limits
        &&& self.next_command_sequence == old.next_command_sequence + 1
        &&& self.next_event_sequence == old.next_event_sequence + kinds.len()
        &&& self.reports@ == old.reports@.insert(command.key(), old.history@.len() as usize)
        &&& self.reports.reserved == old.reports.reserved
        &&& self.history@.len() == old.history@.len() + 1
        &&& self.history@.drop_last() == old.history@
        &&& self.history@.last().command == command
        &&& self.history@.last().report == report
        &&& report.command_id == command.key()
        &&& report.command_sequence == old.next_command_sequence
        &&& report.outcome == action.outcome()
        &&& report.events@ == bound_events(kinds, command, old.next_event_sequence as int)
        &&& !report.replayed
    }

    /// Commits one same-instance, same-generation preparation.
    ///
    /// A retained command is replayed and not applied again. A refused
    /// preparation changes nothing but leases.
    pub fn commit(&mut self, prepared: PreparedCallAuctionCommand) -> (r: Result<
        CallAuctionExecutionReport,
        CallAuctionCommandRejection,
    >)
        requires
            old(self).wf(),
        ensures
            final(self).wf(),
            final(self).free_buffers() == old(self).free_buffers() + (
            if prepared.engine_instance_id == old(self).instance_id {
                old(self).returned(prepared.action)
            } else {
                0
            }),
            match r {
                Ok(report) => {
                    &&& old(self).commit_fault(prepared, None) is None
                    &&& if old(self).retains(prepared.command.key()) {
                        &&& old(self).replays(prepared.command, report)
                        &&& final(self).same_but_leases(old(self))
                    } else {
                        final(self).commits_from(
                            old(self),
                            prepared.command,
                            prepared.action,
                            report,
                        )
                    }
                },
                Err(rejection) => {
                    &&& old(self).commit_fault(prepared, None) == Some(rejection.error)
                    &&& final(self).same_but_leases(old(self))
                    &&& rejection.foreign == (if prepared.engine_instance_id != old(
                        self,
                    ).instance_id {
                        Some(prepared)
                    } else {
                        None
                    })
                },
            },
    {
        self.commit_with_gate(prepared, None)
    }

    /// Commits a preparation that an external risk gate has seen.
    pub fn commit_with_gate(
        &mut self,
        prepared: PreparedCallAuctionCommand,
        external_rejection: Option<CallAuctionRejectReason>,
    ) -> (r: Result<CallAuctionExecutionReport, CallAuctionCommandRejection>)
        requires
            old(self).wf(),
        ensures
            final(self).wf(),
            final(self).free_buffers() == old(self).free_buffers() + (
            if prepared.engine_instance_id == old(self).instance_id {
                old(self).returned(prepared.action)
            } else {
                0
            }),
            match r {
                Ok(report) => {
                    &&& old(self).commit_fault(prepared, external_rejection) is None
                    &&& if old(self).retains(prepared.command.key()) {
                        &&& old(self).replays(prepared.command, report)
                        &&& final(self).same_but_leases(old(self))
                    } else {
                        final(self).commits_from(
                            old(self),
                            prepared.command,
                            Self::gated(prepared.action, external_rejection),
                            report,
                        )
                    }
                },
                Err(rejection) => {
                    &&& old(self).commit_fault(prepared, external_rejection) == Some(
                        rejection.error,
                    )
                    &&& final(self).same_but_leases(old(self))
                    &&& rejection.foreign == (if prepared.engine_instance_id != old(
                        self,
                    ).instance_id {
                        Some(prepared)
                    } else {
                        None
                    })
                },
            },
    {
        if prepared.engine_instance_id != self.instance_id {
            return Err(
                CallAuctionCommandRejection {
                    error: CallAuctionEngineError::ForeignPreparation,
                    foreign: Some(prepared),
                },
            );
        }
        let command = prepared.command;
        match self.find_replay(command) {
            Some(Ok(report)) => {
                self.discard(prepared.action);
                return Ok(report);
            },
            Some(Err(error)) => {
                self.discard(prepared.action);
                return Err(CallAuctionCommandRejection { error, foreign: None });
            },
            None => {},
        }
        if prepared.expected_retained_commands != self.history.len() {
            self.discard(prepared.action);
            return Err(
                CallAuctionCommandRejection {
                    error: CallAuctionEngineError::StalePreparation,
                    foreign: None,
                },
            );
        }
        let ghost entry = *self;
        let internal = CallAuctionEngineError::InternalInvariantViolation;
        if self.history.len() >= self.limits.retained_commands {
            self.discard(prepared.action);
            return Err(CallAuctionCommandRejection { error: internal, foreign: None });
        }
        let mut action = prepared.action;
        if let Some(reason) = external_rejection {
            let gated_command = match command {
                CallAuctionCommand::Submit(_) => true,
                CallAuctionCommand::Replace(_) => true,
                _ => false,
            };
            if !gated_command || !is_external_risk_rejection(reason) {
                self.discard(action);
                return Err(CallAuctionCommandRejection { error: internal, foreign: None });
            }
            let rejected = match &action {
                PreparedCallAuctionAction::Rejected(_) => true,
                _ => false,
            };
            if !rejected {
                self.discard(action);
                action = PreparedCallAuctionAction::Rejected(reason);
            }
        }
        let ghost gated = action;
        proof {
            self.lemma_lease_frame(&entry, action);
        }
        let fits = match self.count_events(&action) {
            Some(count) => self.next_event_sequence.checked_add(count as u64).is_some(),
            None => false,
        };
        if self.next_command_sequence == u64::MAX || !fits {
            self.discard(action);
            return Err(CallAuctionCommandRejection { error: internal, foreign: None });
        }
        let ghost ready = *self;
        let mut events: Vec<CallAuctionEvent> = prepared.events;
        events.clear();
        let outcome = match self.apply_prepared_action(command, action, &mut events) {
            Ok(outcome) => outcome,
            Err(error) => {
                return Err(CallAuctionCommandRejection { error, foreign: None });
            },
        };
        let command_sequence: u64 = self.next_command_sequence;
        self.next_command_sequence = command_sequence + 1;
        let report = CallAuctionExecutionReport {
            command_id: command.command_id(),
            command_sequence,
            outcome,
            events: CallAuctionEventTrace::from_decoded(events),
            replayed: false,
        };
        let position: usize = self.history.len();
        proof {
            self.reports.lemma_view();
        }
        let ghost unindexed = *self;
        let _ = self.reports.insert(command.command_id(), position);
        self.history.push(CallAuctionCommandReportCheckpoint { command, report: report.share() });
        proof {
            assert(self.history@.drop_last() =~= entry.history@);
            self.lemma_indexed(&unindexed, command.key());
            ready.lemma_transition_frame(&entry, self, gated);
        }
        Ok(report)
    }

    /// Appending one command keeps the index.
    proof fn lemma_indexed(&self, old: &Self, id: CommandId)
        requires
            old.index_ok(),
            self.limits == old.limits,
            !old.reports@.dom().contains(id),
            old.history@.len() < old.limits.retained_commands,
            self.reports.wf(),
            self.reports.maximum == old.reports.maximum,
            self.reports@ == old.reports@.insert(id, old.history@.len() as usize),
            self.reports.entries@.len() == old.reports.entries@.len() + 1,
            self.history@.len() == old.history@.len() + 1,
            self.history@.drop_last() == old.history@,
            self.history@.last().command.key() == id,
        ensures
            self.index_ok(),
    {
        assert forall|other: CommandId| #[trigger]
            self.reports@.dom().contains(other) implies self.reports@[other] < self.history@.len()
            && self.history@[self.reports@[other] as int].command.key() == other by {
            if other != id {
                assert(old.reports@.dom().contains(other));
                let position = old.reports@[other] as int;
                assert(self.history@.drop_last()[position] == old.history@[position]);
            }
        }
        assert forall|i: int| 0 <= i < self.history@.len() implies self.reports@.dom().contains(
            (#[trigger] self.history@[i]).command.key(),
        ) && self.reports@[self.history@[i].command.key()] == i by {
            if i < old.history@.len() {
                assert(self.history@.drop_last()[i] == old.history@[i]);
                assert(old.reports@.dom().contains(old.history@[i].command.key()));
            }
        }
    }

    /// A transition from a state that differs in leases only is a transition.
    proof fn lemma_transition_frame(
        &self,
        entry: &Self,
        exit: &Self,
        action: PreparedCallAuctionAction,
    )
        requires
            self.same_but_leases(entry),
            !(action is Rejected) ==> *self == *entry,
            exit.transitions_from(self, action),
        ensures
            exit.transitions_from(entry, action),
    {
    }

    /// Prepares and commits one command.
    ///
    /// Errors are unsequenced operational failures. Deterministic business
    /// failures are rejected reports.
    pub fn submit(&mut self, command: CallAuctionCommand) -> (r: Result<
        CallAuctionExecutionReport,
        CallAuctionEngineError,
    >)
        requires
            old(self).wf(),
        ensures
            final(self).wf(),
            final(self).free_buffers() == old(self).free_buffers(),
            match r {
                Ok(report) => if old(self).retains(command.key()) {
                    &&& old(self).replays(command, report)
                    &&& *final(self) == *old(self)
                } else {
                    &&& old(self).prepare_fault(command) is None
                    &&& final(self).submits_from(old(self), command, report)
                    &&& old(self).audited() ==> final(self).audited()
                    &&& old(self).projection_ok() ==> final(self).projection_ok()
                    &&& old(self).consistent() && Self::reproducible(
                        old(self).book.definition,
                        old(self).limits,
                        old(self).history@,
                    ) ==> Self::reproducible(
                        final(self).book.definition,
                        final(self).limits,
                        final(self).history@,
                    )
                },
                Err(error) => {
                    &&& final(self).same_but_leases(old(self))
                    &&& if old(self).retains(command.key()) {
                        &&& old(self).retained(command.key()).command != command
                        &&& error == CallAuctionEngineError::CommandIdCollision(command.key())
                    } else if old(self).prepare_fault(command) is Some {
                        old(self).prepare_fault(command) == Some(error)
                    } else {
                        error == CallAuctionEngineError::CapacityReservationFailed(
                            CallAuctionEngineCapacity::ReportEvents,
                        )
                    }
                },
            },
    {
        let ghost entry = *self;
        match self.prepare(command) {
            Err(error) => Err(error),
            Ok(CallAuctionCommandPreparation::Replay(report)) => Ok(report),
            Ok(CallAuctionCommandPreparation::Ready(prepared)) => {
                let ghost middle = *self;
                let ghost action = prepared.action;
                match self.commit(prepared) {
                    Ok(report) => {
                        proof {
                            middle.lemma_lease_frame(&entry, action);
                            self.lemma_submitted(&middle, &entry, command, action, report);
                            if entry.audited() {
                                Self::law_command_keeps_audit(
                                    &entry,
                                    self,
                                    command,
                                    action,
                                    report,
                                );
                            }
                            if entry.projection_ok() {
                                Self::law_command_keeps_projection(
                                    &entry,
                                    self,
                                    command,
                                    action,
                                    report,
                                );
                            }
                            if entry.consistent() && Self::reproducible(
                                entry.book.definition,
                                entry.limits,
                                entry.history@,
                            ) {
                                Self::law_command_keeps_reproducible(
                                    &entry,
                                    self,
                                    command,
                                    action,
                                    None,
                                    report,
                                );
                            }
                        }
                        Ok(report)
                    },
                    Err(rejection) => Err(rejection.error),
                }
            },
        }
    }

    /// What an accepted or rejected new command changes.
    pub open spec fn submits_from(
        &self,
        old: &Self,
        command: CallAuctionCommand,
        report: CallAuctionExecutionReport,
    ) -> bool {
        exists|action: PreparedCallAuctionAction| #[trigger]
            old.action_matches(command, action) && self.settles_from(old, command, action, report)
    }

    /// What a new command with a known transition changes, leases aside.
    pub open spec fn settles_from(
        &self,
        old: &Self,
        command: CallAuctionCommand,
        action: PreparedCallAuctionAction,
        report: CallAuctionExecutionReport,
    ) -> bool {
        let kinds = old.action_kinds(action);
        &&& self.effects_from(old, action)
        &&& self.instance_id == old.instance_id
        &&& self.limits == old.limits
        &&& self.next_command_sequence == old.next_command_sequence + 1
        &&& self.next_event_sequence == old.next_event_sequence + kinds.len()
        &&& self.reports@ == old.reports@.insert(command.key(), old.history@.len() as usize)
        &&& self.reports.reserved == old.reports.reserved
        &&& self.history@.len() == old.history@.len() + 1
        &&& self.history@.drop_last() == old.history@
        &&& self.history@.last().command == command
        &&& self.history@.last().report == report
        &&& report.command_id == command.key()
        &&& report.command_sequence == old.next_command_sequence
        &&& report.outcome == action.outcome()
        &&& report.events@ == bound_events(kinds, command, old.next_event_sequence as int)
        &&& !report.replayed
    }

    /// What a transition changes in book and phase, leases aside.
    pub open spec fn effects_from(&self, old: &Self, action: PreparedCallAuctionAction) -> bool {
        &&& self.book.same_frame(&old.book)
        &&& match action {
            PreparedCallAuctionAction::Rejected(_) => {
                &&& self.book.active() == old.book.active()
                &&& self.book.accepted() == old.book.accepted()
                &&& self.book.next_priority_sequence == old.book.next_priority_sequence
                &&& self.book.next_trade_id == old.book.next_trade_id
                &&& self.book.state_revision == old.book.state_revision
                &&& self.phase_state() == old.phase_state()
            },
            PreparedCallAuctionAction::PhaseTransition {
                current,
                revision,
                active_after,
                last_after,
                ..
            } => {
                &&& self.book.active() == old.book.active()
                &&& self.book.accepted() == old.book.accepted()
                &&& self.book.next_priority_sequence == old.book.next_priority_sequence
                &&& self.book.next_trade_id == old.book.next_trade_id
                &&& self.book.state_revision == old.book.state_revision
                &&& self.phase == current
                &&& self.phase_revision == revision
                &&& self.active_auction_id == active_after
                &&& self.last_auction_id == last_after
            },
            PreparedCallAuctionAction::Submit(order) => {
                &&& self.book.active() == old.book.active().insert(
                    order.order_id,
                    old.book.admitted(order),
                )
                &&& self.book.accepted() == old.book.accepted().insert(order.order_id)
                &&& self.book.next_priority_sequence == old.book.next_priority_sequence + 1
                &&& self.book.next_trade_id == old.book.next_trade_id
                &&& self.book.state_revision == old.book.state_revision + 1
                &&& self.phase_state() == old.phase_state()
            },
            PreparedCallAuctionAction::Cancel { order_id, .. } => {
                &&& self.book.active() == old.book.active().remove(order_id)
                &&& self.book.accepted() == old.book.accepted()
                &&& self.book.next_priority_sequence == old.book.next_priority_sequence
                &&& self.book.next_trade_id == old.book.next_trade_id
                &&& self.book.state_revision == old.book.state_revision + 1
                &&& self.phase_state() == old.phase_state()
            },
            PreparedCallAuctionAction::MassCancel { account_id, scope } => {
                &&& self.book.active() == old.book.active().remove_keys(
                    old.book.selected(account_id, scope),
                )
                &&& self.book.accepted() == old.book.accepted()
                &&& self.book.next_priority_sequence == old.book.next_priority_sequence
                &&& self.book.next_trade_id == old.book.next_trade_id
                &&& self.book.state_revision == old.book.mass_cancel_result(
                    account_id,
                    scope,
                ).state_revision
                &&& self.phase_state() == old.phase_state()
            },
            PreparedCallAuctionAction::Amend { order_id, new_quantity, .. } => {
                &&& self.book.active() == old.book.active().insert(
                    order_id,
                    old.book.with_leaves(order_id, new_quantity),
                )
                &&& self.book.accepted() == old.book.accepted()
                &&& self.book.next_priority_sequence == old.book.next_priority_sequence
                &&& self.book.next_trade_id == old.book.next_trade_id
                &&& self.book.state_revision == old.book.state_revision + 1
                &&& self.phase_state() == old.phase_state()
            },
            PreparedCallAuctionAction::Replace { target_order_id, replacement, .. } => {
                &&& self.book.active() == old.book.active().remove(target_order_id).insert(
                    replacement.order_id,
                    old.book.admitted(replacement),
                )
                &&& self.book.accepted() == old.book.accepted().insert(replacement.order_id)
                &&& self.book.next_priority_sequence == old.book.next_priority_sequence + 1
                &&& self.book.next_trade_id == old.book.next_trade_id
                &&& self.book.state_revision == old.book.state_revision + 1
                &&& self.phase_state() == old.phase_state()
            },
            PreparedCallAuctionAction::Uncross { phase_revision, prepared, .. } => {
                &&& self.book.active() == uncrossed(
                    old.book.active(),
                    prepared.buffers.plan,
                    prepared.policy.remainder,
                )
                &&& self.book.accepted() == old.book.accepted()
                &&& self.book.next_priority_sequence == old.book.next_priority_sequence
                &&& self.book.next_trade_id == prepared.next_trade_id
                &&& self.book.state_revision == prepared.next_state_revision
                &&& self.phase == CallAuctionPhase::Closed
                &&& self.phase_revision == phase_revision
                &&& self.active_auction_id is None
                &&& self.last_auction_id == old.last_auction_id
            },
        }
    }

    proof fn lemma_submitted(
        &self,
        middle: &Self,
        entry: &Self,
        command: CallAuctionCommand,
        action: PreparedCallAuctionAction,
        report: CallAuctionExecutionReport,
    )
        requires
            entry.action_matches(command, action),
            middle.same_but_leases(entry),
            middle.action_kinds(action) == entry.action_kinds(action),
            self.commits_from(middle, command, action, report),
        ensures
            self.submits_from(entry, command, report),
            self.settles_from(entry, command, action, report),
    {
        self.lemma_settled(middle, entry, command, action, report);
    }

    /// Leases aside, what a commit changes is what the transition changes.
    pub(crate) proof fn lemma_settled(
        &self,
        middle: &Self,
        entry: &Self,
        command: CallAuctionCommand,
        action: PreparedCallAuctionAction,
        report: CallAuctionExecutionReport,
    )
        requires
            middle.same_but_leases(entry),
            middle.action_kinds(action) == entry.action_kinds(action),
            self.commits_from(middle, command, action, report),
        ensures
            self.settles_from(entry, command, action, report),
    {
        match action {
            PreparedCallAuctionAction::MassCancel { account_id, scope } => {
                middle.lemma_selection_frame(entry, account_id, scope);
                assert(middle.book.selected(account_id, scope) =~= entry.book.selected(
                    account_id,
                    scope,
                ));
            },
            _ => {},
        }
    }
}

} // verus!
