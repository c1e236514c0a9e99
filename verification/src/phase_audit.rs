//! Phase rules of a call-auction cycle, shared by the live engine and its audit.

use vstd::prelude::*;

use crate::domain::{AuctionId, InstrumentId, InstrumentVersion};
use crate::engine_types::{
    is_external_risk_rejection, CallAuctionAction, CallAuctionCommand, CallAuctionCommandOutcome,
    CallAuctionCommandReportCheckpoint, CallAuctionEngineError, CallAuctionEvent,
    CallAuctionEventKind, CallAuctionPhase, CallAuctionPhaseControl, CallAuctionPhaseSnapshot,
    CallAuctionRejectReason,
};

verus! {

/// What the phase rules say of a command: an operational failure, a business
/// rejection, or that nothing stands against it.
pub type ControllerDecision = Result<Option<CallAuctionRejectReason>, CallAuctionEngineError>;

/// The identity that the next cycle must use.
pub open spec fn next_auction_id(last: Option<AuctionId>) -> Option<AuctionId> {
    match last {
        None => Some(AuctionId { value: 1 }),
        Some(id) => if id.value < u64::MAX {
            Some(AuctionId { value: (id.value + 1) as u64 })
        } else {
            None
        },
    }
}

/// Whether the phase graph has an edge.
pub open spec fn transition_allowed(from: CallAuctionPhase, to: CallAuctionPhase) -> bool {
    match from {
        CallAuctionPhase::Closed => to == CallAuctionPhase::Collecting,
        CallAuctionPhase::Collecting => to != CallAuctionPhase::Collecting,
        CallAuctionPhase::Frozen => to != CallAuctionPhase::Frozen,
    }
}

/// Returns whether the phase graph has an edge.
pub(crate) fn phase_transition_is_valid(from: CallAuctionPhase, to: CallAuctionPhase) -> (r: bool)
    ensures
        r == transition_allowed(from, to),
{
    match (from, to) {
        (CallAuctionPhase::Closed, CallAuctionPhase::Collecting)
        | (CallAuctionPhase::Frozen, CallAuctionPhase::Collecting)
        | (CallAuctionPhase::Collecting, CallAuctionPhase::Frozen)
        | (CallAuctionPhase::Collecting, CallAuctionPhase::Closed)
        | (CallAuctionPhase::Frozen, CallAuctionPhase::Closed) => true,
        _ => false,
    }
}

impl CallAuctionPhaseSnapshot {
    /// The rejection of a cycle identity other than the active one.
    pub open spec fn wrong_cycle(self, observed: AuctionId) -> CallAuctionRejectReason {
        CallAuctionRejectReason::AuctionIdMismatch { observed, current: self.active_auction_id }
    }

    /// What the phase rules say of a transition.
    pub open spec fn control_decision(self, control: CallAuctionPhaseControl) -> ControllerDecision {
        if control.expected_phase_revision != self.revision {
            Ok(
                Some(
                    CallAuctionRejectReason::PhaseRevisionMismatch {
                        observed: control.expected_phase_revision,
                        current: self.revision,
                    },
                ),
            )
        } else if !transition_allowed(self.phase, control.target_phase) {
            Ok(
                Some(
                    CallAuctionRejectReason::InvalidPhaseTransition {
                        from: self.phase,
                        to: control.target_phase,
                    },
                ),
            )
        } else if self.phase == CallAuctionPhase::Closed && next_auction_id(
            self.last_auction_id,
        ) is None {
            Err(CallAuctionEngineError::AuctionIdExhausted)
        } else if self.phase == CallAuctionPhase::Closed && Some(control.auction_id)
            != next_auction_id(self.last_auction_id) {
            Ok(
                Some(
                    CallAuctionRejectReason::AuctionIdNotNext {
                        expected: next_auction_id(self.last_auction_id)->0,
                        observed: control.auction_id,
                    },
                ),
            )
        } else if self.phase != CallAuctionPhase::Closed && self.active_auction_id != Some(
            control.auction_id,
        ) {
            Ok(Some(self.wrong_cycle(control.auction_id)))
        } else if self.revision == u64::MAX {
            Err(CallAuctionEngineError::PhaseRevisionExhausted)
        } else {
            Ok(None)
        }
    }

    /// What the phase rules say of a command that needs one phase of one cycle.
    pub open spec fn cycle_decision(
        self,
        action: CallAuctionAction,
        phase: CallAuctionPhase,
        expected_revision: u64,
        auction_id: AuctionId,
    ) -> ControllerDecision {
        if expected_revision != self.revision {
            Ok(
                Some(
                    CallAuctionRejectReason::PhaseRevisionMismatch {
                        observed: expected_revision,
                        current: self.revision,
                    },
                ),
            )
        } else if self.phase != phase {
            Ok(Some(CallAuctionRejectReason::ActionNotAllowed { action, phase: self.phase }))
        } else if self.active_auction_id != Some(auction_id) {
            Ok(Some(self.wrong_cycle(auction_id)))
        } else {
            Ok(None)
        }
    }

    /// What routing and phase rules say of a command.
    pub open spec fn decision(
        self,
        command: CallAuctionCommand,
        instrument_id: InstrumentId,
        instrument_version: InstrumentVersion,
    ) -> ControllerDecision {
        if command.instrument() != instrument_id {
            Ok(Some(CallAuctionRejectReason::WrongInstrument))
        } else if command.version() != instrument_version {
            Ok(Some(CallAuctionRejectReason::WrongInstrumentVersion))
        } else {
            match command {
                CallAuctionCommand::PhaseControl(control) => self.control_decision(control),
                CallAuctionCommand::Submit(submit) => self.cycle_decision(
                    CallAuctionAction::Submit,
                    CallAuctionPhase::Collecting,
                    submit.expected_phase_revision,
                    submit.auction_id,
                ),
                CallAuctionCommand::Amend(amend) => self.cycle_decision(
                    CallAuctionAction::Amend,
                    CallAuctionPhase::Collecting,
                    amend.expected_phase_revision,
                    amend.auction_id,
                ),
                CallAuctionCommand::Replace(replace) => self.cycle_decision(
                    CallAuctionAction::Replace,
                    CallAuctionPhase::Collecting,
                    replace.expected_phase_revision,
                    replace.auction_id,
                ),
                CallAuctionCommand::Uncross(uncross) => self.cycle_decision(
                    CallAuctionAction::Uncross,
                    CallAuctionPhase::Frozen,
                    uncross.expected_phase_revision,
                    uncross.auction_id,
                ),
                CallAuctionCommand::Cancel(_) => Ok(None),
                CallAuctionCommand::MassCancel(_) => Ok(None),
            }
        }
    }

    /// State after an accepted transition.
    pub open spec fn after_control(self, control: CallAuctionPhaseControl) -> Self {
        CallAuctionPhaseSnapshot {
            phase: control.target_phase,
            revision: (self.revision + 1) as u64,
            active_auction_id: if self.phase == CallAuctionPhase::Closed {
                Some(control.auction_id)
            } else if control.target_phase == CallAuctionPhase::Closed {
                None
            } else {
                self.active_auction_id
            },
            last_auction_id: if self.phase == CallAuctionPhase::Closed {
                Some(control.auction_id)
            } else {
                self.last_auction_id
            },
        }
    }

    /// State after an accepted uncross.
    pub open spec fn after_uncross(self) -> Self {
        CallAuctionPhaseSnapshot {
            phase: CallAuctionPhase::Closed,
            revision: (self.revision + 1) as u64,
            active_auction_id: None,
            last_auction_id: self.last_auction_id,
        }
    }

    /// The event that an accepted transition emits.
    pub open spec fn control_event(self, control: CallAuctionPhaseControl) -> CallAuctionEventKind {
        CallAuctionEventKind::PhaseChanged {
            auction_id: control.auction_id,
            previous: self.phase,
            current: control.target_phase,
            revision: (self.revision + 1) as u64,
        }
    }

    /// State after an accepted command, when its events agree with this state.
    pub open spec fn applied(
        self,
        command: CallAuctionCommand,
        events: Seq<CallAuctionEvent>,
    ) -> Option<Self> {
        match command {
            CallAuctionCommand::PhaseControl(control) => if self.revision < u64::MAX && events.len()
                == 1 && events[0].kind == self.control_event(control) {
                Some(self.after_control(control))
            } else {
                None
            },
            CallAuctionCommand::Uncross(uncross) => if self.revision < u64::MAX && events.len() > 0
                && (events.last().kind matches CallAuctionEventKind::UncrossCompleted {
                auction_id,
                phase_revision,
                ..
            } && auction_id == uncross.auction_id && phase_revision == self.revision + 1) {
                Some(self.after_uncross())
            } else {
                None
            },
            _ => Some(self),
        }
    }

    /// State after one retained command, when its report agrees with this state.
    pub open spec fn observed(
        self,
        entry: CallAuctionCommandReportCheckpoint,
        instrument_id: InstrumentId,
        instrument_version: InstrumentVersion,
    ) -> Option<Self> {
        let decision = self.decision(entry.command, instrument_id, instrument_version);
        match entry.report.outcome {
            CallAuctionCommandOutcome::Rejected(reason) => match decision {
                Err(_) => None,
                Ok(Some(expected)) => if reason == expected {
                    Some(self)
                } else {
                    None
                },
                Ok(None) => if late_rejection(entry.command, reason) {
                    Some(self)
                } else {
                    None
                },
            },
            CallAuctionCommandOutcome::Accepted => if decision == Ok::<
                Option<CallAuctionRejectReason>,
                CallAuctionEngineError,
            >(None) {
                self.applied(entry.command, entry.report.events@)
            } else {
                None
            },
        }
    }

    /// Checks a transition against the phase rules.
    pub(crate) fn preflight_control(self, control: CallAuctionPhaseControl) -> (r:
        ControllerDecision)
        ensures
            r == self.control_decision(control),
    {
        if control.expected_phase_revision != self.revision {
            return Ok(
                Some(
                    CallAuctionRejectReason::PhaseRevisionMismatch {
                        observed: control.expected_phase_revision,
                        current: self.revision,
                    },
                ),
            );
        }
        if !phase_transition_is_valid(self.phase, control.target_phase) {
            return Ok(
                Some(
                    CallAuctionRejectReason::InvalidPhaseTransition {
                        from: self.phase,
                        to: control.target_phase,
                    },
                ),
            );
        }
        if self.phase == CallAuctionPhase::Closed {
            let next_raw: u64 = match self.last_auction_id {
                None => 1,
                Some(auction_id) => match auction_id.value.checked_add(1) {
                    Some(value) => value,
                    None => {
                        return Err(CallAuctionEngineError::AuctionIdExhausted);
                    },
                },
            };
            let next = AuctionId { value: next_raw };
            if control.auction_id != next {
                return Ok(
                    Some(
                        CallAuctionRejectReason::AuctionIdNotNext {
                            expected: next,
                            observed: control.auction_id,
                        },
                    ),
                );
            }
        } else if self.active_auction_id != Some(control.auction_id) {
            return Ok(
                Some(
                    CallAuctionRejectReason::AuctionIdMismatch {
                        observed: control.auction_id,
                        current: self.active_auction_id,
                    },
                ),
            );
        }
        if self.revision == u64::MAX {
            return Err(CallAuctionEngineError::PhaseRevisionExhausted);
        }
        Ok(None)
    }

    fn preflight_cycle(
        self,
        action: CallAuctionAction,
        phase: CallAuctionPhase,
        expected_revision: u64,
        auction_id: AuctionId,
    ) -> (r: ControllerDecision)
        ensures
            r == self.cycle_decision(action, phase, expected_revision, auction_id),
    {
        if expected_revision != self.revision {
            Ok(
                Some(
                    CallAuctionRejectReason::PhaseRevisionMismatch {
                        observed: expected_revision,
                        current: self.revision,
                    },
                ),
            )
        } else if self.phase != phase {
            Ok(Some(CallAuctionRejectReason::ActionNotAllowed { action, phase: self.phase }))
        } else if self.active_auction_id != Some(auction_id) {
            Ok(
                Some(
                    CallAuctionRejectReason::AuctionIdMismatch {
                        observed: auction_id,
                        current: self.active_auction_id,
                    },
                ),
            )
        } else {
            Ok(None)
        }
    }

    /// Checks a command against routing and phase rules.
    pub(crate) fn preflight(
        self,
        command: CallAuctionCommand,
        instrument_id: InstrumentId,
        instrument_version: InstrumentVersion,
    ) -> (r: ControllerDecision)
        ensures
            r == self.decision(command, instrument_id, instrument_version),
    {
        if command.instrument_id() != instrument_id {
            return Ok(Some(CallAuctionRejectReason::WrongInstrument));
        }
        if command.instrument_version() != instrument_version {
            return Ok(Some(CallAuctionRejectReason::WrongInstrumentVersion));
        }
        match command {
            CallAuctionCommand::PhaseControl(control) => self.preflight_control(control),
            CallAuctionCommand::Submit(submit) => self.preflight_cycle(
                CallAuctionAction::Submit,
                CallAuctionPhase::Collecting,
                submit.expected_phase_revision,
                submit.auction_id,
            ),
            CallAuctionCommand::Amend(amend) => self.preflight_cycle(
                CallAuctionAction::Amend,
                CallAuctionPhase::Collecting,
                amend.expected_phase_revision,
                amend.auction_id,
            ),
            CallAuctionCommand::Replace(replace) => self.preflight_cycle(
                CallAuctionAction::Replace,
                CallAuctionPhase::Collecting,
                replace.expected_phase_revision,
                replace.auction_id,
            ),
            CallAuctionCommand::Uncross(uncross) => self.preflight_cycle(
                CallAuctionAction::Uncross,
                CallAuctionPhase::Frozen,
                uncross.expected_phase_revision,
                uncross.auction_id,
            ),
            CallAuctionCommand::Cancel(_) => Ok(None),
            CallAuctionCommand::MassCancel(_) => Ok(None),
        }
    }

    /// Returns the state after an accepted transition.
    pub(crate) fn controlled(self, control: CallAuctionPhaseControl) -> (r: Self)
        requires
            self.revision < u64::MAX,
        ensures
            r == self.after_control(control),
    {
        let starts = self.phase == CallAuctionPhase::Closed;
        CallAuctionPhaseSnapshot {
            phase: control.target_phase,
            revision: self.revision + 1,
            active_auction_id: if starts {
                Some(control.auction_id)
            } else if control.target_phase == CallAuctionPhase::Closed {
                None
            } else {
                self.active_auction_id
            },
            last_auction_id: if starts {
                Some(control.auction_id)
            } else {
                self.last_auction_id
            },
        }
    }

    /// Advances over an accepted command whose events agree with this state.
    fn apply_accepted(&mut self, entry: &CallAuctionCommandReportCheckpoint) -> (r: bool)
        ensures
            match old(self).applied(entry.command, entry.report.events@) {
                Some(next) => r && *final(self) == next,
                None => !r && *final(self) == *old(self),
            },
    {
        let events = entry.report.events.as_slice();
        match entry.command {
            CallAuctionCommand::PhaseControl(control) => {
                if self.revision == u64::MAX || events.len() != 1 {
                    return false;
                }
                let expected = CallAuctionEventKind::PhaseChanged {
                    auction_id: control.auction_id,
                    previous: self.phase,
                    current: control.target_phase,
                    revision: self.revision + 1,
                };
                if events[0].kind != expected {
                    return false;
                }
                *self = self.controlled(control);
                true
            },
            CallAuctionCommand::Uncross(uncross) => {
                if self.revision == u64::MAX || events.len() == 0 {
                    return false;
                }
                match events[events.len() - 1].kind {
                    CallAuctionEventKind::UncrossCompleted {
                        auction_id,
                        phase_revision,
                        ..
                    } => {
                        if auction_id != uncross.auction_id || phase_revision != self.revision + 1 {
                            return false;
                        }
                    },
                    _ => {
                        return false;
                    },
                }
                *self = CallAuctionPhaseSnapshot {
                    phase: CallAuctionPhase::Closed,
                    revision: self.revision + 1,
                    active_auction_id: None,
                    last_auction_id: self.last_auction_id,
                };
                true
            },
            _ => true,
        }
    }

    /// Advances over one retained command whose report agrees with this state.
    pub(crate) fn observe(
        &mut self,
        entry: &CallAuctionCommandReportCheckpoint,
        instrument_id: InstrumentId,
        instrument_version: InstrumentVersion,
    ) -> (r: bool)
        ensures
            match old(self).observed(*entry, instrument_id, instrument_version) {
                Some(next) => r && *final(self) == next,
                None => !r && *final(self) == *old(self),
            },
    {
        let decision = self.preflight(entry.command, instrument_id, instrument_version);
        match entry.report.outcome {
            CallAuctionCommandOutcome::Rejected(reason) => match decision {
                Err(_) => false,
                Ok(Some(expected)) => reason == expected,
                Ok(None) => is_late_rejection(entry.command, reason),
            },
            CallAuctionCommandOutcome::Accepted => match decision {
                Ok(None) => self.apply_accepted(entry),
                _ => false,
            },
        }
    }

    /// Accepted transitions and uncrosses keep phase and cycle identity coherent.
    pub proof fn law_phase_coherent(self, control: CallAuctionPhaseControl)
        requires
            self.coherent(),
        ensures
            self.control_decision(control) == Ok::<
                Option<CallAuctionRejectReason>,
                CallAuctionEngineError,
            >(None) ==> self.after_control(control).coherent() && self.after_control(
                control,
            ).revision == self.revision + 1 && transition_allowed(
                self.phase,
                self.after_control(control).phase,
            ),
            self.after_uncross().coherent(),
    {
    }
}

/// Rejections that only the collection book or a risk gate can give.
pub open spec fn late_rejection(
    command: CallAuctionCommand,
    reason: CallAuctionRejectReason,
) -> bool {
    match command {
        CallAuctionCommand::PhaseControl(_) => false,
        CallAuctionCommand::Submit(_) => {
            ||| reason is Instrument
            ||| reason == CallAuctionRejectReason::DuplicateOrder
            ||| reason.is_risk()
        },
        CallAuctionCommand::Cancel(_) => {
            ||| reason == CallAuctionRejectReason::UnknownOrder
            ||| reason == CallAuctionRejectReason::NotOrderOwner
        },
        CallAuctionCommand::MassCancel(_) => false,
        CallAuctionCommand::Amend(_) => {
            ||| reason == CallAuctionRejectReason::UnknownOrder
            ||| reason == CallAuctionRejectReason::NotOrderOwner
            ||| reason is Instrument
            ||| reason == CallAuctionRejectReason::QuantityNotReduced
        },
        CallAuctionCommand::Replace(_) => {
            ||| reason == CallAuctionRejectReason::UnknownOrder
            ||| reason == CallAuctionRejectReason::NotOrderOwner
            ||| reason == CallAuctionRejectReason::ReplacementAccountMismatch
            ||| reason is Instrument
            ||| reason == CallAuctionRejectReason::DuplicateOrder
            ||| reason.is_risk()
        },
        CallAuctionCommand::Uncross(_) => reason == CallAuctionRejectReason::NoExecutableInterest,
    }
}

fn is_late_rejection(command: CallAuctionCommand, reason: CallAuctionRejectReason) -> (r: bool)
    ensures
        r == late_rejection(command, reason),
{
    let instrument = match reason {
        CallAuctionRejectReason::Instrument(_) => true,
        _ => false,
    };
    match command {
        CallAuctionCommand::PhaseControl(_) => false,
        CallAuctionCommand::Submit(_) => instrument || reason
            == CallAuctionRejectReason::DuplicateOrder || is_external_risk_rejection(reason),
        CallAuctionCommand::Cancel(_) => reason == CallAuctionRejectReason::UnknownOrder || reason
            == CallAuctionRejectReason::NotOrderOwner,
        CallAuctionCommand::MassCancel(_) => false,
        CallAuctionCommand::Amend(_) => reason == CallAuctionRejectReason::UnknownOrder || reason
            == CallAuctionRejectReason::NotOrderOwner || instrument || reason
            == CallAuctionRejectReason::QuantityNotReduced,
        CallAuctionCommand::Replace(_) => reason == CallAuctionRejectReason::UnknownOrder || reason
            == CallAuctionRejectReason::NotOrderOwner || reason
            == CallAuctionRejectReason::ReplacementAccountMismatch || instrument || reason
            == CallAuctionRejectReason::DuplicateOrder || is_external_risk_rejection(reason),
        CallAuctionCommand::Uncross(_) => reason == CallAuctionRejectReason::NoExecutableInterest,
    }
}

} // verus!
