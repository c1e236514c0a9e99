//! Sequenced, bounded phase authority for one call-auction collection book.
//!
//! The engine owns one collection book, an explicit phase and cycle state, a
//! never-evicted bounded idempotency cache, and contiguous command and event
//! sequences. Business rejections are sequenced; operational capacity,
//! allocator, and counter failures are returned before command commitment.

use vstd::prelude::*;

use crate::auction::{AuctionPriceBand, AuctionPricePolicy};
use crate::auction_book::price_configuration_fault;
use crate::book_state::CallAuctionBook;
use crate::book_types::{
    CallAuctionAdmissionError, CallAuctionAmendError, CallAuctionCancelError,
    CallAuctionConstructionError, CallAuctionIndicative, CallAuctionOrder, CallAuctionOrderSnapshot,
    CallAuctionReplaceError,
};
use crate::book_uncross::{remainder_cancellations, PreparedCallAuctionUncross};
use crate::domain::{
    AccountId, AuctionId, CommandId, MassCancelScope, OrderId, Price, Quantity, Side,
};
use crate::engine_types::{
    CallAuctionCancellationReason, CallAuctionCommand, CallAuctionCommandOutcome,
    CallAuctionCommandReportCheckpoint, CallAuctionEngineCapacity,
    CallAuctionEngineConstructionError, CallAuctionEngineError, CallAuctionEngineLimits,
    CallAuctionEngineResourceStatus, CallAuctionEvent, CallAuctionEventKind,
    CallAuctionExecutionReport, CallAuctionPhase, CallAuctionPhaseSnapshot, CallAuctionQueryError,
    CallAuctionRejectReason, CallAuctionUncrossCommand,
};
use crate::instrument::InstrumentDefinition;
use crate::ordered_map::{index_reserved, OrderedMap};
use crate::phase_audit::ControllerDecision;
use crate::storage::{try_vector, unrepresentable};

verus! {

/// State transition of one prepared command.
#[derive(Debug)]
pub enum PreparedCallAuctionAction {
    /// Deterministic business rejection.
    Rejected(CallAuctionRejectReason),
    /// Change of phase.
    PhaseTransition {
        /// Controlled cycle.
        auction_id: AuctionId,
        /// Phase before the change.
        previous: CallAuctionPhase,
        /// Phase after the change.
        current: CallAuctionPhase,
        /// Revision after the change.
        revision: u64,
        /// Active cycle after the change.
        active_after: Option<AuctionId>,
        /// Last started cycle after the change.
        last_after: Option<AuctionId>,
    },
    /// Admission of one order.
    Submit(CallAuctionOrder),
    /// Owner cancellation.
    Cancel {
        /// Authorizing owner account.
        account_id: AccountId,
        /// Active order to cancel.
        order_id: OrderId,
    },
    /// Account-scoped cancellation.
    MassCancel {
        /// Authorizing owner account.
        account_id: AccountId,
        /// Selected sides.
        scope: MassCancelScope,
    },
    /// Retained-priority reduction.
    Amend {
        /// Authorizing owner account.
        account_id: AccountId,
        /// Active order to reduce.
        order_id: OrderId,
        /// Leaves after the reduction.
        new_quantity: Quantity,
    },
    /// Atomic replacement.
    Replace {
        /// Authorizing owner account.
        account_id: AccountId,
        /// Active order to remove.
        target_order_id: OrderId,
        /// Order admitted in its place.
        replacement: CallAuctionOrder,
    },
    /// Final uncross.
    Uncross {
        /// Closed cycle.
        auction_id: AuctionId,
        /// Phase revision after the uncross.
        phase_revision: u64,
        /// Leased book preparation.
        prepared: PreparedCallAuctionUncross,
    },
}

impl PreparedCallAuctionAction {
    /// Whether the protected history tail is open to this action.
    pub open spec fn terminal(self) -> bool {
        match self {
            PreparedCallAuctionAction::Cancel { .. } => true,
            PreparedCallAuctionAction::Uncross { .. } => true,
            PreparedCallAuctionAction::PhaseTransition { current, .. } => current
                != CallAuctionPhase::Collecting,
            _ => false,
        }
    }

    /// The disposition that the action gives its command.
    pub open spec fn outcome(self) -> CallAuctionCommandOutcome {
        match self {
            PreparedCallAuctionAction::Rejected(reason) => CallAuctionCommandOutcome::Rejected(
                reason,
            ),
            _ => CallAuctionCommandOutcome::Accepted,
        }
    }

    /// Returns whether the protected history tail is open to this action.
    pub(crate) fn is_terminal_lane_eligible(&self) -> (r: bool)
        ensures
            r == self.terminal(),
    {
        match self {
            PreparedCallAuctionAction::Cancel { .. } => true,
            PreparedCallAuctionAction::Uncross { .. } => true,
            PreparedCallAuctionAction::PhaseTransition { current, .. } => *current
                != CallAuctionPhase::Collecting,
            _ => false,
        }
    }
}

/// Opaque single-use command preparation.
///
/// It owns its event storage and, for an uncross, one leased buffer set of the
/// book. Hand it to [`CallAuctionEngine::commit`] or back to
/// [`CallAuctionEngine::release`].
#[derive(Debug)]
pub struct PreparedCallAuctionCommand {
    /// Exact command represented by this preparation.
    pub command: CallAuctionCommand,
    /// Identity of the prepared engine.
    pub engine_instance_id: u64,
    /// Retained commands at the time of preparation.
    pub expected_retained_commands: usize,
    /// Prepared transition.
    pub action: PreparedCallAuctionAction,
    /// Reserved event storage.
    pub events: Vec<CallAuctionEvent>,
}

impl PreparedCallAuctionCommand {
    /// Returns the exact command represented by this preparation.
    pub fn command(&self) -> (r: CallAuctionCommand)
        ensures
            r == self.command,
    {
        self.command
    }

    /// The business rejection found by phase and book rules.
    pub open spec fn rejection(&self) -> Option<CallAuctionRejectReason> {
        match self.action {
            PreparedCallAuctionAction::Rejected(reason) => Some(reason),
            _ => None,
        }
    }

    /// Returns the business rejection found by phase and book rules.
    pub fn core_rejection(&self) -> (r: Option<CallAuctionRejectReason>)
        ensures
            r == self.rejection(),
    {
        match &self.action {
            PreparedCallAuctionAction::Rejected(reason) => Some(*reason),
            _ => None,
        }
    }
}

/// Result of preparing one sequenced auction command.
#[derive(Debug)]
pub enum CallAuctionCommandPreparation {
    /// Exact command is already retained.
    Replay(CallAuctionExecutionReport),
    /// Complete operational and business preflight succeeded.
    Ready(PreparedCallAuctionCommand),
}

/// A refused commit.
///
/// The preparation is handed back only when it belongs to another engine.
#[derive(Debug)]
pub struct CallAuctionCommandRejection {
    /// Why the preparation was refused.
    pub error: CallAuctionEngineError,
    /// Preparation of another engine.
    pub foreign: Option<PreparedCallAuctionCommand>,
}

/// Sequenced phase authority and idempotency owner for one call-auction book.
#[derive(Debug)]
pub struct CallAuctionEngine {
    /// Identity that binds preparations to this engine.
    pub instance_id: u64,
    /// Finite resource policy.
    pub limits: CallAuctionEngineLimits,
    /// Collection book.
    pub book: CallAuctionBook,
    /// Effective phase.
    pub phase: CallAuctionPhase,
    /// Last accepted phase-control revision.
    pub phase_revision: u64,
    /// Current cycle outside `Closed`.
    pub active_auction_id: Option<AuctionId>,
    /// Most recently started cycle.
    pub last_auction_id: Option<AuctionId>,
    /// Sequence of the next committed command.
    pub next_command_sequence: u64,
    /// Sequence of the next event.
    pub next_event_sequence: u64,
    /// Position in the history of every retained command.
    pub reports: OrderedMap<CommandId, usize>,
    /// Retained commands and reports in commit order.
    pub history: Vec<CallAuctionCommandReportCheckpoint>,
}

/// The kinds of a list of events, bound to a command and consecutive sequences.
pub open spec fn bound_events(
    kinds: Seq<CallAuctionEventKind>,
    command: CallAuctionCommand,
    first: int,
) -> Seq<CallAuctionEvent> {
    Seq::new(
        kinds.len(),
        |k: int|
            CallAuctionEvent {
                sequence: (first + k) as u64,
                command_id: command.key(),
                occurred_at: command.time(),
                kind: kinds[k],
            },
    )
}

/// Events of an account-scoped cancellation.
pub open spec fn mass_cancel_kinds(
    cancelled: Seq<CallAuctionOrderSnapshot>,
    completion: CallAuctionEventKind,
) -> Seq<CallAuctionEventKind> {
    Seq::new(
        cancelled.len(),
        |k: int|
            CallAuctionEventKind::OrderCancelled {
                order: cancelled[k],
                reason: CallAuctionCancellationReason::MassCancel,
            },
    ).push(completion)
}

/// Events of an uncross.
pub open spec fn uncross_kinds(
    auction_id: AuctionId,
    phase_revision: u64,
    prepared: PreparedCallAuctionUncross,
) -> Seq<CallAuctionEventKind> {
    let trades = prepared.buffers.trades@;
    let cancellations = prepared.buffers.cancellations@;
    Seq::new(trades.len(), |k: int| CallAuctionEventKind::Trade(trades[k])) + Seq::new(
        cancellations.len(),
        |k: int| CallAuctionEventKind::RemainderCancelled(cancellations[k]),
    ) + seq![
        CallAuctionEventKind::UncrossCompleted {
            auction_id,
            clearing: prepared.buffers.plan.clearing,
            policy: prepared.policy,
            trade_count: trades.len() as u64,
            cancellation_count: cancellations.len() as u64,
            book_revision: prepared.next_state_revision,
            phase_revision,
        },
    ]
}

impl CallAuctionEngine {
    /// Effective phase and cycle state.
    pub open spec fn phase_state(&self) -> CallAuctionPhaseSnapshot {
        CallAuctionPhaseSnapshot {
            phase: self.phase,
            revision: self.phase_revision,
            active_auction_id: self.active_auction_id,
            last_auction_id: self.last_auction_id,
        }
    }

    /// The identity index points to the retained history.
    pub open spec fn index_ok(&self) -> bool {
        &&& self.reports.wf()
        &&& self.reports.maximum == self.limits.retained_commands
        &&& self.reports.entries@.len() == self.history@.len()
        &&& self.history@.len() <= self.limits.retained_commands
        &&& forall|id: CommandId| #[trigger]
            self.reports@.dom().contains(id) ==> self.reports@[id] < self.history@.len()
                && self.history@[self.reports@[id] as int].command.key() == id
        &&& forall|i: int|
            0 <= i < self.history@.len() ==> self.reports@.dom().contains(
                (#[trigger] self.history@[i]).command.key(),
            ) && self.reports@[self.history@[i].command.key()] == i
    }

    /// The engine is in a state that its operations can work on.
    pub open spec fn wf(&self) -> bool {
        &&& self.limits.wf()
        &&& self.book.wf()
        &&& self.book.limits == self.limits.book
        &&& self.index_ok()
    }

    /// Whether a command identity is retained.
    pub open spec fn retains(&self, id: CommandId) -> bool {
        self.reports@.dom().contains(id)
    }

    /// The retained pair of a command identity.
    pub open spec fn retained(&self, id: CommandId) -> CallAuctionCommandReportCheckpoint {
        self.history@[self.reports@[id] as int]
    }

    /// Everything but the book's scratch and leases is unchanged.
    pub open spec fn same_but_leases(&self, other: &Self) -> bool {
        &&& self.instance_id == other.instance_id
        &&& self.limits == other.limits
        &&& self.book.same_but_leases(&other.book)
        &&& self.book.active() == other.book.active()
        &&& self.phase_state() == other.phase_state()
        &&& self.next_command_sequence == other.next_command_sequence
        &&& self.next_event_sequence == other.next_event_sequence
        &&& self.reports == other.reports
        &&& self.history == other.history
    }

    /// The engine has sequenced nothing.
    pub open spec fn is_new(&self) -> bool {
        &&& self.book.is_new()
        &&& self.phase_state() == CallAuctionPhaseSnapshot::genesis()
        &&& self.next_command_sequence == 1
        &&& self.next_event_sequence == 1
        &&& self.history@.len() == 0
    }

    /// Constructs an empty engine under default bounded limits.
    ///
    /// `instance_id` distinguishes the engine and its book from every other
    /// live one. A valid configuration fails only when storage cannot be
    /// reserved or the identity space is exhausted.
    pub fn try_new(definition: InstrumentDefinition, instance_id: u64) -> (r: Result<
        Self,
        CallAuctionEngineConstructionError,
    >)
        requires
            definition.wf(),
        ensures
            match r {
                Ok(engine) => {
                    &&& price_configuration_fault(definition) is None
                    &&& instance_id < u64::MAX
                    &&& engine.wf()
                    &&& engine.is_new()
                    &&& engine.book.definition == definition
                    &&& engine.limits == CallAuctionEngineLimits::standard()
                    &&& engine.limits.terminal_command_reserve == 4_098
                    &&& engine.limits.report_events == 8_193
                    &&& engine.instance_id == instance_id
                    &&& engine.book.instance_id == instance_id
                    &&& engine.reports.reserved >= engine.limits.retained_commands
                    &&& engine.book.uncross_pool.available@.len()
                        == engine.limits.book.prepared_uncrosses
                },
                Err(error) => construction_error(definition, instance_id, error),
            },
    {
        Self::try_with_limits(definition, CallAuctionEngineLimits::default(), instance_id)
    }

    /// Constructs an empty engine under explicit validated limits.
    ///
    /// `instance_id` distinguishes the engine and its book from every other
    /// live one. A valid configuration fails only when storage cannot be
    /// reserved or the identity space is exhausted.
    pub fn try_with_limits(
        definition: InstrumentDefinition,
        limits: CallAuctionEngineLimits,
        instance_id: u64,
    ) -> (r: Result<Self, CallAuctionEngineConstructionError>)
        requires
            definition.wf(),
            limits.wf(),
        ensures
            match r {
                Ok(engine) => {
                    &&& price_configuration_fault(definition) is None
                    &&& instance_id < u64::MAX
                    &&& engine.wf()
                    &&& engine.is_new()
                    &&& engine.book.definition == definition
                    &&& engine.limits == limits
                    &&& engine.instance_id == instance_id
                    &&& engine.book.instance_id == instance_id
                    &&& engine.reports.reserved >= limits.retained_commands
                    &&& engine.book.uncross_pool.available@.len() == limits.book.prepared_uncrosses
                },
                Err(error) => construction_error(definition, instance_id, error),
            },
            unrepresentable::<CallAuctionCommandReportCheckpoint>(
                limits.retained_commands as int,
            ) ==> r is Err,
    {
        let book = CallAuctionBook::try_with_limits(definition, limits.book, instance_id);
        let reports = OrderedMap::try_with_capacity(limits.retained_commands);
        let history = try_vector(limits.retained_commands);
        Self::from_components(limits, instance_id, book, reports, history)
    }

    /// Constructs an empty engine from a book and its command history, or
    /// names the first of them that could not be had.
    pub fn from_components(
        limits: CallAuctionEngineLimits,
        instance_id: u64,
        book: Result<CallAuctionBook, CallAuctionConstructionError>,
        reports: Option<OrderedMap<CommandId, usize>>,
        history: Option<Vec<CallAuctionCommandReportCheckpoint>>,
    ) -> (r: Result<Self, CallAuctionEngineConstructionError>)
        requires
            limits.wf(),
            book matches Ok(book) ==> book.wf() && book.is_new() && book.limits == limits.book,
            index_reserved(reports, limits.retained_commands),
            history matches Some(history) ==> history@.len() == 0,
        ensures
            match r {
                Ok(engine) => {
                    &&& book == Ok::<_, CallAuctionConstructionError>(engine.book)
                    &&& reports == Some(engine.reports)
                    &&& history == Some(engine.history)
                    &&& engine.wf()
                    &&& engine.is_new()
                    &&& engine.limits == limits
                    &&& engine.instance_id == instance_id < u64::MAX
                },
                Err(error) => error == (if book is Err {
                    CallAuctionEngineConstructionError::Book(book->Err_0)
                } else if reports is None || history is None {
                    CallAuctionEngineConstructionError::CommandHistoryReservationFailed
                } else {
                    CallAuctionEngineConstructionError::EngineInstanceIdExhausted
                }) && (book is Err || reports is None || history is None || instance_id
                    == u64::MAX),
            },
    {
        let book = match book {
            Ok(book) => book,
            Err(error) => {
                return Err(CallAuctionEngineConstructionError::Book(error));
            },
        };
        let (reports, history) = match (reports, history) {
            (Some(reports), Some(history)) => (reports, history),
            _ => {
                return Err(CallAuctionEngineConstructionError::CommandHistoryReservationFailed);
            },
        };
        if instance_id == u64::MAX {
            return Err(CallAuctionEngineConstructionError::EngineInstanceIdExhausted);
        }
        proof {
            reports.lemma_view();
        }
        Ok(
            CallAuctionEngine {
                instance_id,
                limits,
                book,
                phase: CallAuctionPhase::Closed,
                phase_revision: 0,
                active_auction_id: None,
                last_auction_id: None,
                next_command_sequence: 1,
                next_event_sequence: 1,
                reports,
                history,
            },
        )
    }

    /// Returns the immutable collection book.
    pub fn book(&self) -> (r: &CallAuctionBook)
        ensures
            *r == self.book,
    {
        &self.book
    }

    /// Returns the validated resource policy.
    pub fn limits(&self) -> (r: CallAuctionEngineLimits)
        ensures
            r == self.limits,
    {
        self.limits
    }

    /// Returns effective phase and cycle identity.
    pub fn phase_snapshot(&self) -> (r: CallAuctionPhaseSnapshot)
        ensures
            r == self.phase_state(),
    {
        CallAuctionPhaseSnapshot {
            phase: self.phase,
            revision: self.phase_revision,
            active_auction_id: self.active_auction_id,
            last_auction_id: self.last_auction_id,
        }
    }

    /// Returns the next committed-command sequence.
    pub fn next_command_sequence(&self) -> (r: u64)
        ensures
            r == self.next_command_sequence,
    {
        self.next_command_sequence
    }

    /// Returns the next event sequence.
    pub fn next_event_sequence(&self) -> (r: u64)
        ensures
            r == self.next_event_sequence,
    {
        self.next_event_sequence
    }

    /// Returns command-cache occupancy and capacity.
    pub fn resource_status(&self) -> (r: CallAuctionEngineResourceStatus)
        requires
            self.wf(),
        ensures
            r == (CallAuctionEngineResourceStatus {
                configured_retained_commands: self.limits.retained_commands,
                allocated_retained_commands: self.reports.reserved,
                retained_commands: self.history@.len() as usize,
                ordinary_command_capacity: (self.limits.retained_commands
                    - self.limits.terminal_command_reserve) as usize,
                terminal_command_reserve: self.limits.terminal_command_reserve,
                max_report_events: self.limits.report_events,
            }),
    {
        CallAuctionEngineResourceStatus {
            configured_retained_commands: self.limits.retained_commands,
            allocated_retained_commands: self.reports.allocation_capacity(),
            retained_commands: self.history.len(),
            ordinary_command_capacity: self.limits.ordinary_command_capacity(),
            terminal_command_reserve: self.limits.terminal_command_reserve,
            max_report_events: self.limits.report_events,
        }
    }

    /// Computes an unsequenced indicative state for the active cycle.
    pub fn indicative(
        &mut self,
        auction_id: AuctionId,
        price_band: AuctionPriceBand,
        reference_price: Price,
        policy: AuctionPricePolicy,
    ) -> (r: Result<Option<CallAuctionIndicative>, CallAuctionQueryError>)
        requires
            old(self).wf(),
        ensures
            final(self).wf(),
            final(self).same_but_leases(old(self)),
            r == (if old(self).active_auction_id != Some(auction_id) {
                Err(
                    CallAuctionQueryError::AuctionIdMismatch {
                        observed: auction_id,
                        current: old(self).active_auction_id,
                    },
                )
            } else {
                match old(self).book.discovered_clearing(price_band, reference_price, policy) {
                    Err(error) => Err(CallAuctionQueryError::Discovery(error)),
                    Ok(None) => Ok(None),
                    Ok(Some(clearing)) => Ok(Some(old(self).book.observed(clearing))),
                }
            }),
    {
        if self.active_auction_id != Some(auction_id) {
            return Err(
                CallAuctionQueryError::AuctionIdMismatch {
                    observed: auction_id,
                    current: self.active_auction_id,
                },
            );
        }
        match self.book.indicative_clearing(price_band, reference_price, policy) {
            Ok(found) => Ok(found),
            Err(error) => Err(CallAuctionQueryError::Discovery(error)),
        }
    }

    /// What the collection book says of a command that the phase rules allow.
    pub open spec fn book_decision(&self, command: CallAuctionCommand) -> ControllerDecision {
        match command {
            CallAuctionCommand::PhaseControl(_) => Ok(None),
            CallAuctionCommand::Submit(submit) => match self.book.admission_fault(submit.order) {
                None => Ok(None),
                Some(CallAuctionAdmissionError::Instrument(error)) => Ok(
                    Some(CallAuctionRejectReason::Instrument(error)),
                ),
                Some(CallAuctionAdmissionError::DuplicateOrderId) => Ok(
                    Some(CallAuctionRejectReason::DuplicateOrder),
                ),
                Some(error) => Err(CallAuctionEngineError::BookAdmission(error)),
            },
            CallAuctionCommand::Cancel(cancel) => match self.book.cancel_fault(
                cancel.account_id,
                cancel.order_id,
            ) {
                None => Ok(None),
                Some(CallAuctionCancelError::UnknownOrder) => Ok(
                    Some(CallAuctionRejectReason::UnknownOrder),
                ),
                Some(CallAuctionCancelError::AccountMismatch) => Ok(
                    Some(CallAuctionRejectReason::NotOrderOwner),
                ),
                Some(error) => Err(CallAuctionEngineError::BookCancellation(error)),
            },
            CallAuctionCommand::MassCancel(cancel) => if self.book.mass_cancel_exhausted(
                cancel.account_id,
                cancel.scope,
            ) {
                Err(
                    CallAuctionEngineError::BookMassCancellation(
                        crate::book_types::CallAuctionMassCancelError::StateRevisionExhausted,
                    ),
                )
            } else {
                Ok(None)
            },
            CallAuctionCommand::Amend(amend) => match self.book.amend_fault(
                amend.account_id,
                amend.order_id,
                amend.new_quantity,
            ) {
                None => Ok(None),
                Some(CallAuctionAmendError::UnknownOrder) => Ok(
                    Some(CallAuctionRejectReason::UnknownOrder),
                ),
                Some(CallAuctionAmendError::AccountMismatch) => Ok(
                    Some(CallAuctionRejectReason::NotOrderOwner),
                ),
                Some(CallAuctionAmendError::Instrument(error)) => Ok(
                    Some(CallAuctionRejectReason::Instrument(error)),
                ),
                Some(CallAuctionAmendError::QuantityNotReduced) => Ok(
                    Some(CallAuctionRejectReason::QuantityNotReduced),
                ),
                Some(error) => Err(CallAuctionEngineError::BookAmendment(error)),
            },
            CallAuctionCommand::Replace(replace) => match self.book.replace_fault(
                replace.account_id,
                replace.target_order_id,
                replace.replacement,
            ) {
                None => Ok(None),
                Some(CallAuctionReplaceError::Target(CallAuctionCancelError::UnknownOrder)) => Ok(
                    Some(CallAuctionRejectReason::UnknownOrder),
                ),
                Some(CallAuctionReplaceError::Target(CallAuctionCancelError::AccountMismatch)) => Ok(
                    Some(CallAuctionRejectReason::NotOrderOwner),
                ),
                Some(CallAuctionReplaceError::ReplacementAccountMismatch) => Ok(
                    Some(CallAuctionRejectReason::ReplacementAccountMismatch),
                ),
                Some(CallAuctionReplaceError::Replacement(
                    CallAuctionAdmissionError::Instrument(error),
                )) => Ok(Some(CallAuctionRejectReason::Instrument(error))),
                Some(CallAuctionReplaceError::Replacement(
                    CallAuctionAdmissionError::DuplicateOrderId,
                )) => Ok(Some(CallAuctionRejectReason::DuplicateOrder)),
                Some(error) => Err(CallAuctionEngineError::BookReplacement(error)),
            },
            CallAuctionCommand::Uncross(uncross) => match self.uncross_clearing(uncross) {
                Err(error) => Err(CallAuctionEngineError::Discovery(error)),
                Ok(None) => Ok(Some(CallAuctionRejectReason::NoExecutableInterest)),
                Ok(Some(clearing)) => if self.phase_revision == u64::MAX {
                    Err(CallAuctionEngineError::PhaseRevisionExhausted)
                } else {
                    match self.book.prepare_fault(
                        self.book.observed(clearing),
                        uncross.uncross_policy,
                    ) {
                        Some(error) => Err(CallAuctionEngineError::UncrossPreparation(error)),
                        None => Ok(None),
                    }
                },
            },
        }
    }

    /// The clearing that an uncross command would consume.
    pub open spec fn uncross_clearing(&self, uncross: CallAuctionUncrossCommand) -> Result<
        Option<crate::auction::AuctionClearing>,
        crate::auction::AuctionError,
    > {
        self.book.discovered_clearing(
            uncross.price_band,
            uncross.reference_price,
            uncross.price_policy,
        )
    }

    /// What phase rules and collection book say of a command: an operational
    /// failure, a business rejection, or acceptance.
    pub open spec fn decide(&self, command: CallAuctionCommand) -> ControllerDecision {
        match self.phase_state().decision(
            command,
            self.book.definition.instrument_id,
            self.book.definition.version,
        ) {
            Err(error) => Err(error),
            Ok(Some(reason)) => Ok(Some(reason)),
            Ok(None) => self.book_decision(command),
        }
    }

    /// Whether an action is the one that a command leads to.
    pub open spec fn action_matches(
        &self,
        command: CallAuctionCommand,
        action: PreparedCallAuctionAction,
    ) -> bool {
        match self.decide(command) {
            Err(_) => false,
            Ok(Some(reason)) => action == PreparedCallAuctionAction::Rejected(reason),
            Ok(None) => match command {
                CallAuctionCommand::PhaseControl(control) => {
                    let after = self.phase_state().after_control(control);
                    action == PreparedCallAuctionAction::PhaseTransition {
                        auction_id: control.auction_id,
                        previous: self.phase,
                        current: control.target_phase,
                        revision: after.revision,
                        active_after: after.active_auction_id,
                        last_after: after.last_auction_id,
                    }
                },
                CallAuctionCommand::Submit(submit) => action == PreparedCallAuctionAction::Submit(
                    submit.order,
                ),
                CallAuctionCommand::Cancel(cancel) => action == PreparedCallAuctionAction::Cancel {
                    account_id: cancel.account_id,
                    order_id: cancel.order_id,
                },
                CallAuctionCommand::MassCancel(cancel) => action
                    == PreparedCallAuctionAction::MassCancel {
                    account_id: cancel.account_id,
                    scope: cancel.scope,
                },
                CallAuctionCommand::Amend(amend) => action == PreparedCallAuctionAction::Amend {
                    account_id: amend.account_id,
                    order_id: amend.order_id,
                    new_quantity: amend.new_quantity,
                },
                CallAuctionCommand::Replace(replace) => action
                    == PreparedCallAuctionAction::Replace {
                    account_id: replace.account_id,
                    target_order_id: replace.target_order_id,
                    replacement: replace.replacement,
                },
                CallAuctionCommand::Uncross(uncross) => {
                    action matches PreparedCallAuctionAction::Uncross {
                        auction_id,
                        phase_revision,
                        prepared,
                    } && {
                        let clearing = self.uncross_clearing(uncross)->Ok_0->0;
                        let allocation = uncross.uncross_policy.allocation;
                        &&& auction_id == uncross.auction_id
                        &&& phase_revision == self.phase_revision + 1
                        &&& prepared.book_instance_id == self.book.instance_id
                        &&& prepared.state_revision == self.book.state_revision
                        &&& prepared.policy == uncross.uncross_policy
                        &&& clearing.wf()
                        &&& self.book.clearing_discovered(
                            uncross.price_band,
                            uncross.reference_price,
                            uncross.price_policy,
                            Ok(Some(clearing)),
                        )
                        &&& prepared.buffers.plan.clearing == clearing
                        &&& prepared.buffers.plan.buy_fills@ == self.book.side_fills(
                            Side::Buy,
                            clearing,
                            allocation,
                        )
                        &&& prepared.buffers.plan.sell_fills@ == self.book.side_fills(
                            Side::Sell,
                            clearing,
                            allocation,
                        )
                        &&& self.book.prepared_valid(prepared)
                    }
                },
            },
        }
    }

    /// Events that an action emits.
    pub open spec fn action_kinds(&self, action: PreparedCallAuctionAction) -> Seq<
        CallAuctionEventKind,
    > {
        match action {
            PreparedCallAuctionAction::Rejected(reason) => seq![
                CallAuctionEventKind::CommandRejected(reason),
            ],
            PreparedCallAuctionAction::PhaseTransition {
                auction_id,
                previous,
                current,
                revision,
                ..
            } => seq![
                CallAuctionEventKind::PhaseChanged { auction_id, previous, current, revision },
            ],
            PreparedCallAuctionAction::Submit(order) => seq![
                CallAuctionEventKind::OrderAccepted(self.book.admitted(order)),
            ],
            PreparedCallAuctionAction::Cancel { order_id, .. } => seq![
                CallAuctionEventKind::OrderCancelled {
                    order: self.book.active()[order_id],
                    reason: CallAuctionCancellationReason::UserRequested,
                },
            ],
            PreparedCallAuctionAction::MassCancel { account_id, scope } => {
                let result = self.book.mass_cancel_result(account_id, scope);
                mass_cancel_kinds(
                    self.book.selected_orders(account_id, scope),
                    CallAuctionEventKind::MassCancelCompleted {
                        account_id,
                        scope,
                        cancelled_order_count: result.cancelled_order_count,
                        cancelled_quantity_lots: result.cancelled_quantity_lots,
                        book_revision: result.state_revision,
                    },
                )
            },
            PreparedCallAuctionAction::Amend { order_id, new_quantity, .. } => seq![
                CallAuctionEventKind::OrderAmended {
                    order: self.book.with_leaves(order_id, new_quantity),
                    previous_quantity: self.book.active()[order_id].quantity,
                    book_revision: (self.book.state_revision + 1) as u64,
                },
            ],
            PreparedCallAuctionAction::Replace { target_order_id, replacement, .. } => seq![
                CallAuctionEventKind::OrderCancelled {
                    order: self.book.active()[target_order_id],
                    reason: CallAuctionCancellationReason::Replaced,
                },
                CallAuctionEventKind::OrderAccepted(self.book.admitted(replacement)),
            ],
            PreparedCallAuctionAction::Uncross { auction_id, phase_revision, prepared } => {
                uncross_kinds(auction_id, phase_revision, prepared)
            },
        }
    }

    /// How many events an action can emit.
    pub open spec fn event_bound(&self, action: PreparedCallAuctionAction) -> int {
        match action {
            PreparedCallAuctionAction::MassCancel { account_id, scope } => {
                self.book.selected_count(account_id, scope) + 1
            },
            PreparedCallAuctionAction::Replace { .. } => 2,
            PreparedCallAuctionAction::Uncross { prepared, .. } => {
                (prepared.buffers.trades@.len() + prepared.buffers.cancellations@.len() + 1) as int
            },
            _ => 1,
        }
    }

    /// How many events the action of a command can emit.
    pub open spec fn planned_events(&self, command: CallAuctionCommand) -> int {
        if self.decide(command) != Ok::<Option<CallAuctionRejectReason>, CallAuctionEngineError>(
            None,
        ) {
            1
        } else {
            match command {
                CallAuctionCommand::MassCancel(cancel) => self.book.selected_count(
                    cancel.account_id,
                    cancel.scope,
                ) + 1,
                CallAuctionCommand::Replace(_) => 2,
                CallAuctionCommand::Uncross(uncross) => {
                    let clearing = self.uncross_clearing(uncross)->Ok_0->0;
                    let allocation = uncross.uncross_policy.allocation;
                    let cancellations = remainder_cancellations(
                        self.book.active(),
                        self.book.side_fills(Side::Buy, clearing, allocation),
                        self.book.side_fills(Side::Sell, clearing, allocation),
                        uncross.uncross_policy.remainder,
                    );
                    (self.book.clearing_pairs(clearing, allocation).len() + cancellations.len()
                        + 1) as int
                },
                _ => 1,
            }
        }
    }

    /// Whether the protected history tail is open to a command.
    pub open spec fn terminal_lane(&self, command: CallAuctionCommand) -> bool {
        &&& self.decide(command) == Ok::<Option<CallAuctionRejectReason>, CallAuctionEngineError>(
            None,
        )
        &&& match command {
            CallAuctionCommand::Cancel(_) => true,
            CallAuctionCommand::Uncross(_) => true,
            CallAuctionCommand::PhaseControl(control) => control.target_phase
                != CallAuctionPhase::Collecting,
            _ => false,
        }
    }

    /// The first operational reason why a new command cannot be prepared.
    pub open spec fn prepare_fault(&self, command: CallAuctionCommand) -> Option<
        CallAuctionEngineError,
    > {
        if self.decide(command) is Err {
            Some(self.decide(command)->Err_0)
        } else if self.history@.len() >= self.limits.retained_commands {
            Some(
                CallAuctionEngineError::CapacityExhausted(
                    CallAuctionEngineCapacity::CommandHistory,
                ),
            )
        } else if self.history@.len() >= self.limits.retained_commands
            - self.limits.terminal_command_reserve && !self.terminal_lane(command) {
            Some(
                CallAuctionEngineError::CapacityExhausted(
                    CallAuctionEngineCapacity::AdmissionCommandHistory,
                ),
            )
        } else if self.planned_events(command) > self.limits.report_events {
            Some(
                CallAuctionEngineError::CapacityExhausted(CallAuctionEngineCapacity::ReportEvents),
            )
        } else if self.next_command_sequence == u64::MAX || self.next_event_sequence
            + self.planned_events(command) > u64::MAX {
            Some(CallAuctionEngineError::SequenceExhausted)
        } else {
            None
        }
    }
}

/// Why an engine could not be constructed.
pub open spec fn construction_error(
    definition: InstrumentDefinition,
    instance_id: u64,
    error: CallAuctionEngineConstructionError,
) -> bool {
    match error {
        CallAuctionEngineConstructionError::Book(fault) => match price_configuration_fault(
            definition,
        ) {
            Some(configuration) => fault
                == CallAuctionConstructionError::InvalidInstrumentPriceConfiguration(configuration),
            None => fault is CapacityReservationFailed || (instance_id == u64::MAX && fault
                == CallAuctionConstructionError::BookInstanceIdExhausted),
        },
        CallAuctionEngineConstructionError::CommandHistoryReservationFailed => {
            price_configuration_fault(definition) is None
        },
        CallAuctionEngineConstructionError::EngineInstanceIdExhausted => {
            &&& price_configuration_fault(definition) is None
            &&& instance_id == u64::MAX
        },
    }
}

} // verus!
