//! Commands, events, reports and limits of the sequenced call-auction engine.

use std::sync::Arc;
use vstd::prelude::*;

use crate::auction::{AuctionClearing, AuctionError, AuctionPriceBand, AuctionPricePolicy};
use crate::book_types::{
    CallAuctionAdmissionError, CallAuctionAmendError, CallAuctionBookLimits, CallAuctionCancelError,
    CallAuctionCancellation, CallAuctionCommitError, CallAuctionConstructionError,
    CallAuctionInvariantViolation, CallAuctionMassCancelError, CallAuctionOrder,
    CallAuctionOrderSnapshot, CallAuctionPrepareError, CallAuctionReplaceError, CallAuctionTrade,
    CallAuctionUncrossPolicy,
};
use crate::domain::{
    AccountId, AuctionId, CommandId, InstrumentId, InstrumentVersion, MassCancelScope, OrderId,
    Price, Quantity, TimestampNs,
};
use crate::instrument::AdmissionError;
use crate::storage::{share_owner, shares_owner};

verus! {

/// Raw finite resource policy for one sequenced call-auction engine.
#[derive(Clone, Copy, Debug, PartialEq, Eq, Structural)]
pub struct CallAuctionEngineLimitsSpec {
    /// Collection-book cardinality policy.
    pub book: CallAuctionBookLimits,
    /// Never-evicted exact-command reports retained in this engine generation.
    pub max_retained_commands: usize,
    /// Tail reserved for valid cancel, freeze/close, and uncross commands.
    pub terminal_command_reserve: usize,
    /// Maximum events in one command report.
    pub max_report_events: usize,
}

/// Invalid sequenced call-auction resource policy.
#[derive(Clone, Copy, Debug, PartialEq, Eq, Structural)]
pub enum CallAuctionEngineLimitsError {
    /// Retained-command maximum is zero.
    ZeroRetainedCommands,
    /// Terminal reserve leaves no ordinary command slot.
    TerminalReserveExhaustsHistory,
    /// Terminal reserve cannot cancel a maximum book and close/freeze it.
    TerminalReserveBelowRequired {
        /// Configured reserve.
        configured: usize,
        /// Minimum derived from the active-order bound.
        required: usize,
    },
    /// Report-event maximum cannot represent a maximum-cardinality uncross.
    ReportEventsBelowRequired {
        /// Configured report bound.
        configured: usize,
        /// Conservative minimum derived from the active-order bound.
        required: usize,
    },
    /// A derived finite bound cannot be represented by `usize`.
    DerivedBoundOverflow,
}

/// Validated finite resource policy for one sequenced call-auction engine.
#[derive(Clone, Copy, Debug, PartialEq, Eq, Structural)]
pub struct CallAuctionEngineLimits {
    /// Collection-book cardinality policy.
    pub book: CallAuctionBookLimits,
    /// Total never-evicted command/report capacity.
    pub retained_commands: usize,
    /// Tail reserved for currently valid terminal controls.
    pub terminal_command_reserve: usize,
    /// Maximum events in one report.
    pub report_events: usize,
}

/// The first reason why an engine policy is refused.
pub open spec fn engine_limits_fault(spec: CallAuctionEngineLimitsSpec) -> Option<
    CallAuctionEngineLimitsError,
> {
    let orders = spec.book.active_orders;
    if spec.max_retained_commands == 0 {
        Some(CallAuctionEngineLimitsError::ZeroRetainedCommands)
    } else if orders + 2 > usize::MAX {
        Some(CallAuctionEngineLimitsError::DerivedBoundOverflow)
    } else if spec.terminal_command_reserve < orders + 2 {
        Some(
            CallAuctionEngineLimitsError::TerminalReserveBelowRequired {
                configured: spec.terminal_command_reserve,
                required: (orders + 2) as usize,
            },
        )
    } else if spec.terminal_command_reserve >= spec.max_retained_commands {
        Some(CallAuctionEngineLimitsError::TerminalReserveExhaustsHistory)
    } else if orders * 2 + 1 > usize::MAX {
        Some(CallAuctionEngineLimitsError::DerivedBoundOverflow)
    } else if spec.max_report_events < orders * 2 + 1 {
        Some(
            CallAuctionEngineLimitsError::ReportEventsBelowRequired {
                configured: spec.max_report_events,
                required: (orders * 2 + 1) as usize,
            },
        )
    } else {
        None
    }
}

impl CallAuctionEngineLimits {
    /// Default retained exact-command history.
    pub const DEFAULT_MAX_RETAINED_COMMANDS: usize = 65_536;

    /// The bounds are coherent.
    pub open spec fn wf(self) -> bool {
        &&& self.book.wf()
        &&& self.book.active_orders + 2 <= self.terminal_command_reserve < self.retained_commands
        &&& self.book.active_orders * 2 + 1 <= self.report_events
    }

    /// Validates one complete engine policy.
    pub fn new(spec: CallAuctionEngineLimitsSpec) -> (r: Result<Self, CallAuctionEngineLimitsError>)
        requires
            spec.book.wf(),
        ensures
            match r {
                Ok(limits) => {
                    &&& engine_limits_fault(spec) is None
                    &&& limits.wf()
                    &&& limits == (CallAuctionEngineLimits {
                        book: spec.book,
                        retained_commands: spec.max_retained_commands,
                        terminal_command_reserve: spec.terminal_command_reserve,
                        report_events: spec.max_report_events,
                    })
                },
                Err(error) => engine_limits_fault(spec) == Some(error),
            },
    {
        if spec.max_retained_commands == 0 {
            return Err(CallAuctionEngineLimitsError::ZeroRetainedCommands);
        }
        let required_terminal: usize = match spec.book.active_orders.checked_add(2) {
            Some(value) => value,
            None => {
                return Err(CallAuctionEngineLimitsError::DerivedBoundOverflow);
            },
        };
        if spec.terminal_command_reserve < required_terminal {
            return Err(
                CallAuctionEngineLimitsError::TerminalReserveBelowRequired {
                    configured: spec.terminal_command_reserve,
                    required: required_terminal,
                },
            );
        }
        if spec.terminal_command_reserve >= spec.max_retained_commands {
            return Err(CallAuctionEngineLimitsError::TerminalReserveExhaustsHistory);
        }
        let doubled: usize = match spec.book.active_orders.checked_mul(2) {
            Some(value) => value,
            None => {
                return Err(CallAuctionEngineLimitsError::DerivedBoundOverflow);
            },
        };
        let required_events: usize = match doubled.checked_add(1) {
            Some(value) => value,
            None => {
                return Err(CallAuctionEngineLimitsError::DerivedBoundOverflow);
            },
        };
        if spec.max_report_events < required_events {
            return Err(
                CallAuctionEngineLimitsError::ReportEventsBelowRequired {
                    configured: spec.max_report_events,
                    required: required_events,
                },
            );
        }
        Ok(
            CallAuctionEngineLimits {
                book: spec.book,
                retained_commands: spec.max_retained_commands,
                terminal_command_reserve: spec.terminal_command_reserve,
                report_events: spec.max_report_events,
            },
        )
    }

    /// Collection-book cardinality policy.
    pub fn book(self) -> (r: CallAuctionBookLimits)
        ensures
            r == self.book,
    {
        self.book
    }

    /// Total never-evicted command/report capacity.
    pub fn max_retained_commands(self) -> (r: usize)
        ensures
            r == self.retained_commands,
    {
        self.retained_commands
    }

    /// Tail reserved for currently valid terminal controls.
    pub fn terminal_command_reserve(self) -> (r: usize)
        ensures
            r == self.terminal_command_reserve,
    {
        self.terminal_command_reserve
    }

    /// Ordinary command capacity before the terminal reserve.
    pub fn ordinary_command_capacity(self) -> (r: usize)
        requires
            self.wf(),
        ensures
            r == self.retained_commands - self.terminal_command_reserve,
    {
        self.retained_commands - self.terminal_command_reserve
    }

    /// Maximum events in one report.
    pub fn max_report_events(self) -> (r: usize)
        ensures
            r == self.report_events,
    {
        self.report_events
    }
}

impl CallAuctionEngineLimits {
    /// The default policy.
    pub open spec fn standard() -> Self {
        CallAuctionEngineLimits {
            book: CallAuctionBookLimits {
                active_orders: 4_096,
                price_levels_per_side: 4_096,
                accepted_order_ids: 65_536,
                prepared_uncrosses: 2,
            },
            retained_commands: 65_536,
            terminal_command_reserve: 4_098,
            report_events: 8_193,
        }
    }
}

impl Default for CallAuctionEngineLimits {
    fn default() -> (r: Self)
        ensures
            r.wf(),
            r == Self::standard(),
    {
        CallAuctionEngineLimits {
            book: CallAuctionBookLimits::default(),
            retained_commands: 65_536,
            terminal_command_reserve: 4_098,
            report_events: 8_193,
        }
    }
}

/// A constructor or preparation resource owned by the sequenced engine.
#[derive(Clone, Copy, Debug, PartialEq, Eq, Structural)]
pub enum CallAuctionEngineCapacity {
    /// Never-evicted exact-command report index.
    CommandHistory,
    /// Ordinary history prefix, excluding the protected terminal lane.
    AdmissionCommandHistory,
    /// One command's immutable shared event trace.
    ReportEvents,
}

/// Failure while constructing one sequenced call-auction engine.
#[derive(Clone, Copy, Debug, PartialEq, Eq, Structural)]
pub enum CallAuctionEngineConstructionError {
    /// Collection-book construction failed.
    Book(CallAuctionConstructionError),
    /// Retained exact-command cache reservation failed.
    CommandHistoryReservationFailed,
    /// Engine identity was exhausted.
    EngineInstanceIdExhausted,
}

/// Authoritative phase of one call-auction cycle.
#[derive(Clone, Copy, Debug, PartialEq, Eq, Structural)]
pub enum CallAuctionPhase {
    /// No cycle accepts new interest; retained interest remains cancelable.
    Closed,
    /// New interest and owner cancellations are admitted.
    Collecting,
    /// Entry is closed; owner cancellation and final uncross remain available.
    Frozen,
}

impl Default for CallAuctionPhase {
    fn default() -> (r: Self)
        ensures
            r == CallAuctionPhase::Closed,
    {
        CallAuctionPhase::Closed
    }
}

/// Read-only phase/cycle state.
#[derive(Clone, Copy, Debug, PartialEq, Eq, Structural)]
pub struct CallAuctionPhaseSnapshot {
    /// Effective phase.
    pub phase: CallAuctionPhase,
    /// Last accepted phase-control revision; genesis is zero.
    pub revision: u64,
    /// Current cycle identity outside `Closed`.
    pub active_auction_id: Option<AuctionId>,
    /// Most recently started cycle identity.
    pub last_auction_id: Option<AuctionId>,
}

impl Default for CallAuctionPhaseSnapshot {
    fn default() -> (r: Self)
        ensures
            r == CallAuctionPhaseSnapshot::genesis(),
    {
        CallAuctionPhaseSnapshot {
            phase: CallAuctionPhase::Closed,
            revision: 0,
            active_auction_id: None,
            last_auction_id: None,
        }
    }
}

impl CallAuctionPhaseSnapshot {
    /// State before the first cycle.
    pub open spec fn genesis() -> Self {
        CallAuctionPhaseSnapshot {
            phase: CallAuctionPhase::Closed,
            revision: 0,
            active_auction_id: None,
            last_auction_id: None,
        }
    }

    /// A cycle is active exactly outside `Closed`, and it is the last one started.
    pub open spec fn coherent(self) -> bool {
        &&& self.phase == CallAuctionPhase::Closed <==> self.active_auction_id is None
        &&& self.active_auction_id is Some ==> self.active_auction_id == self.last_auction_id
    }

    pub(crate) fn from_parts(
        phase: CallAuctionPhase,
        revision: u64,
        active_auction_id: Option<AuctionId>,
        last_auction_id: Option<AuctionId>,
    ) -> (r: Self)
        ensures
            r == (CallAuctionPhaseSnapshot { phase, revision, active_auction_id, last_auction_id }),
    {
        CallAuctionPhaseSnapshot { phase, revision, active_auction_id, last_auction_id }
    }

    /// Effective phase.
    pub fn phase(self) -> (r: CallAuctionPhase)
        ensures
            r == self.phase,
    {
        self.phase
    }

    /// Last accepted phase-control revision; genesis is zero.
    pub fn revision(self) -> (r: u64)
        ensures
            r == self.revision,
    {
        self.revision
    }

    /// Current cycle identity outside `Closed`.
    pub fn active_auction_id(self) -> (r: Option<AuctionId>)
        ensures
            r == self.active_auction_id,
    {
        self.active_auction_id
    }

    /// Most recently started cycle identity.
    pub fn last_auction_id(self) -> (r: Option<AuctionId>)
        ensures
            r == self.last_auction_id,
    {
        self.last_auction_id
    }
}

/// Revision-checked phase transition for one instrument-version auction shard.
#[derive(Clone, Copy, Debug, PartialEq, Eq, Structural)]
pub struct CallAuctionPhaseControl {
    /// Idempotency key.
    pub command_id: CommandId,
    /// Routed instrument.
    pub instrument_id: InstrumentId,
    /// Immutable instrument version.
    pub instrument_version: InstrumentVersion,
    /// Cycle being started or controlled.
    pub auction_id: AuctionId,
    /// Current phase revision observed by the sender.
    pub expected_phase_revision: u64,
    /// Requested phase.
    pub target_phase: CallAuctionPhase,
    /// Gateway receive time.
    pub received_at: TimestampNs,
}

/// Sequenced submission of one collection-book order.
#[derive(Clone, Copy, Debug, PartialEq, Eq, Structural)]
pub struct CallAuctionSubmitOrder {
    /// Idempotency key.
    pub command_id: CommandId,
    /// Collection cycle to which this command belongs.
    pub auction_id: AuctionId,
    /// Current phase revision observed by the sender.
    pub expected_phase_revision: u64,
    /// Order admitted if collection is active.
    pub order: CallAuctionOrder,
    /// Gateway receive time.
    pub received_at: TimestampNs,
}

/// Sequenced owner cancellation of one auction order.
#[derive(Clone, Copy, Debug, PartialEq, Eq, Structural)]
pub struct CallAuctionCancelOrder {
    /// Idempotency key.
    pub command_id: CommandId,
    /// Routed instrument.
    pub instrument_id: InstrumentId,
    /// Immutable instrument version.
    pub instrument_version: InstrumentVersion,
    /// Authorizing owner account.
    pub account_id: AccountId,
    /// Active order to cancel.
    pub order_id: OrderId,
    /// Gateway receive time.
    pub received_at: TimestampNs,
}

/// Sequenced cancellation of every selected order of one account.
#[derive(Clone, Copy, Debug, PartialEq, Eq, Structural)]
pub struct CallAuctionMassCancel {
    /// Idempotency key.
    pub command_id: CommandId,
    /// Routed instrument.
    pub instrument_id: InstrumentId,
    /// Immutable instrument version.
    pub instrument_version: InstrumentVersion,
    /// Authorizing owner account.
    pub account_id: AccountId,
    /// Selected sides.
    pub scope: MassCancelScope,
    /// Gateway receive time.
    pub received_at: TimestampNs,
}

/// Sequenced retained-priority reduction of one auction order.
#[derive(Clone, Copy, Debug, PartialEq, Eq, Structural)]
pub struct CallAuctionAmendOrder {
    /// Idempotency key.
    pub command_id: CommandId,
    /// Routed instrument.
    pub instrument_id: InstrumentId,
    /// Immutable instrument version.
    pub instrument_version: InstrumentVersion,
    /// Collection cycle to which this command belongs.
    pub auction_id: AuctionId,
    /// Current phase revision observed by the sender.
    pub expected_phase_revision: u64,
    /// Authorizing owner account.
    pub account_id: AccountId,
    /// Active order to reduce.
    pub order_id: OrderId,
    /// Leaves after the reduction.
    pub new_quantity: Quantity,
    /// Gateway receive time.
    pub received_at: TimestampNs,
}

/// Sequenced atomic replacement of one auction order.
#[derive(Clone, Copy, Debug, PartialEq, Eq, Structural)]
pub struct CallAuctionReplaceOrder {
    /// Idempotency key.
    pub command_id: CommandId,
    /// Collection cycle to which this command belongs.
    pub auction_id: AuctionId,
    /// Current phase revision observed by the sender.
    pub expected_phase_revision: u64,
    /// Authorizing owner account.
    pub account_id: AccountId,
    /// Active order to remove.
    pub target_order_id: OrderId,
    /// Order admitted in its place.
    pub replacement: CallAuctionOrder,
    /// Gateway receive time.
    pub received_at: TimestampNs,
}

/// Revision-checked final uncross command for one frozen auction cycle.
#[derive(Clone, Copy, Debug, PartialEq, Eq, Structural)]
pub struct CallAuctionUncrossCommand {
    /// Idempotency key.
    pub command_id: CommandId,
    /// Routed instrument.
    pub instrument_id: InstrumentId,
    /// Immutable instrument version.
    pub instrument_version: InstrumentVersion,
    /// Frozen cycle being uncrossed.
    pub auction_id: AuctionId,
    /// Current phase revision observed by the sender.
    pub expected_phase_revision: u64,
    /// Authoritative aligned candidate-price band.
    pub price_band: AuctionPriceBand,
    /// Authoritative aligned reference price.
    pub reference_price: Price,
    /// Explicit price-ranking policy.
    pub price_policy: AuctionPricePolicy,
    /// Explicit pairing/remainder policy.
    pub uncross_policy: CallAuctionUncrossPolicy,
    /// Gateway receive time.
    pub received_at: TimestampNs,
}

/// One state-changing sequenced call-auction command.
#[derive(Clone, Copy, Debug, PartialEq, Eq, Structural)]
pub enum CallAuctionCommand {
    /// Start, freeze, reopen, or close a cycle.
    PhaseControl(CallAuctionPhaseControl),
    /// Submit new auction interest.
    Submit(CallAuctionSubmitOrder),
    /// Cancel active owned interest.
    Cancel(CallAuctionCancelOrder),
    /// Cancel all selected interest of one account.
    MassCancel(CallAuctionMassCancel),
    /// Reduce active owned interest.
    Amend(CallAuctionAmendOrder),
    /// Replace active owned interest.
    Replace(CallAuctionReplaceOrder),
    /// Discover, allocate, pair, and consume one frozen auction.
    Uncross(CallAuctionUncrossCommand),
}

impl CallAuctionCommand {
    /// The idempotency key.
    pub open spec fn key(self) -> CommandId {
        match self {
            CallAuctionCommand::PhaseControl(command) => command.command_id,
            CallAuctionCommand::Submit(command) => command.command_id,
            CallAuctionCommand::Cancel(command) => command.command_id,
            CallAuctionCommand::MassCancel(command) => command.command_id,
            CallAuctionCommand::Amend(command) => command.command_id,
            CallAuctionCommand::Replace(command) => command.command_id,
            CallAuctionCommand::Uncross(command) => command.command_id,
        }
    }

    /// The authoritative receive time.
    pub open spec fn time(self) -> TimestampNs {
        match self {
            CallAuctionCommand::PhaseControl(command) => command.received_at,
            CallAuctionCommand::Submit(command) => command.received_at,
            CallAuctionCommand::Cancel(command) => command.received_at,
            CallAuctionCommand::MassCancel(command) => command.received_at,
            CallAuctionCommand::Amend(command) => command.received_at,
            CallAuctionCommand::Replace(command) => command.received_at,
            CallAuctionCommand::Uncross(command) => command.received_at,
        }
    }

    /// The routed instrument.
    pub open spec fn instrument(self) -> InstrumentId {
        match self {
            CallAuctionCommand::PhaseControl(command) => command.instrument_id,
            CallAuctionCommand::Submit(command) => command.order.instrument_id,
            CallAuctionCommand::Cancel(command) => command.instrument_id,
            CallAuctionCommand::MassCancel(command) => command.instrument_id,
            CallAuctionCommand::Amend(command) => command.instrument_id,
            CallAuctionCommand::Replace(command) => command.replacement.instrument_id,
            CallAuctionCommand::Uncross(command) => command.instrument_id,
        }
    }

    /// The routed instrument version.
    pub open spec fn version(self) -> InstrumentVersion {
        match self {
            CallAuctionCommand::PhaseControl(command) => command.instrument_version,
            CallAuctionCommand::Submit(command) => command.order.instrument_version,
            CallAuctionCommand::Cancel(command) => command.instrument_version,
            CallAuctionCommand::MassCancel(command) => command.instrument_version,
            CallAuctionCommand::Amend(command) => command.instrument_version,
            CallAuctionCommand::Replace(command) => command.replacement.instrument_version,
            CallAuctionCommand::Uncross(command) => command.instrument_version,
        }
    }

    /// Returns the idempotency key.
    pub fn command_id(self) -> (r: CommandId)
        ensures
            r == self.key(),
    {
        match self {
            CallAuctionCommand::PhaseControl(command) => command.command_id,
            CallAuctionCommand::Submit(command) => command.command_id,
            CallAuctionCommand::Cancel(command) => command.command_id,
            CallAuctionCommand::MassCancel(command) => command.command_id,
            CallAuctionCommand::Amend(command) => command.command_id,
            CallAuctionCommand::Replace(command) => command.command_id,
            CallAuctionCommand::Uncross(command) => command.command_id,
        }
    }

    /// Returns the authoritative receive time.
    pub fn received_at(self) -> (r: TimestampNs)
        ensures
            r == self.time(),
    {
        match self {
            CallAuctionCommand::PhaseControl(command) => command.received_at,
            CallAuctionCommand::Submit(command) => command.received_at,
            CallAuctionCommand::Cancel(command) => command.received_at,
            CallAuctionCommand::MassCancel(command) => command.received_at,
            CallAuctionCommand::Amend(command) => command.received_at,
            CallAuctionCommand::Replace(command) => command.received_at,
            CallAuctionCommand::Uncross(command) => command.received_at,
        }
    }

    /// Returns the routed instrument.
    pub(crate) fn instrument_id(self) -> (r: InstrumentId)
        ensures
            r == self.instrument(),
    {
        match self {
            CallAuctionCommand::PhaseControl(command) => command.instrument_id,
            CallAuctionCommand::Submit(command) => command.order.instrument_id,
            CallAuctionCommand::Cancel(command) => command.instrument_id,
            CallAuctionCommand::MassCancel(command) => command.instrument_id,
            CallAuctionCommand::Amend(command) => command.instrument_id,
            CallAuctionCommand::Replace(command) => command.replacement.instrument_id,
            CallAuctionCommand::Uncross(command) => command.instrument_id,
        }
    }

    /// Returns the routed instrument version.
    pub(crate) fn instrument_version(self) -> (r: InstrumentVersion)
        ensures
            r == self.version(),
    {
        match self {
            CallAuctionCommand::PhaseControl(command) => command.instrument_version,
            CallAuctionCommand::Submit(command) => command.order.instrument_version,
            CallAuctionCommand::Cancel(command) => command.instrument_version,
            CallAuctionCommand::MassCancel(command) => command.instrument_version,
            CallAuctionCommand::Amend(command) => command.instrument_version,
            CallAuctionCommand::Replace(command) => command.replacement.instrument_version,
            CallAuctionCommand::Uncross(command) => command.instrument_version,
        }
    }
}

/// Command category used in phase-rejection diagnostics.
#[derive(Clone, Copy, Debug, PartialEq, Eq, Structural)]
pub enum CallAuctionAction {
    /// Revisioned phase transition.
    PhaseControl,
    /// New order admission.
    Submit,
    /// Owner cancellation.
    Cancel,
    /// Account-scoped cancellation.
    MassCancel,
    /// Owner reduction.
    Amend,
    /// Owner replacement.
    Replace,
    /// Final uncross.
    Uncross,
}

/// Deterministic business rejection for a sequenced auction command.
#[derive(Clone, Copy, Debug, PartialEq, Eq, Structural)]
pub enum CallAuctionRejectReason {
    /// Command was routed to another instrument.
    WrongInstrument,
    /// Command referenced another immutable instrument version.
    WrongInstrumentVersion,
    /// Controller's phase revision was stale or ahead.
    PhaseRevisionMismatch {
        /// Revision supplied by the command.
        observed: u64,
        /// Current revision.
        current: u64,
    },
    /// Transition is absent from the explicit phase graph.
    InvalidPhaseTransition {
        /// Effective source phase.
        from: CallAuctionPhase,
        /// Requested target phase.
        to: CallAuctionPhase,
    },
    /// Command is unavailable in the effective phase.
    ActionNotAllowed {
        /// Attempted action.
        action: CallAuctionAction,
        /// Effective phase.
        phase: CallAuctionPhase,
    },
    /// Command referenced a cycle other than the active one.
    AuctionIdMismatch {
        /// Cycle supplied by the command.
        observed: AuctionId,
        /// Currently active cycle, if any.
        current: Option<AuctionId>,
    },
    /// A newly started cycle did not use the exact next identity.
    AuctionIdNotNext {
        /// Exact next cycle identity.
        expected: AuctionId,
        /// Supplied cycle identity.
        observed: AuctionId,
    },
    /// Immutable instrument admission rules rejected submitted interest.
    Instrument(AdmissionError),
    /// Order identity was already consumed.
    DuplicateOrder,
    /// Command referenced no active order.
    UnknownOrder,
    /// Command account did not own the order.
    NotOrderOwner,
    /// Proposed leaves were not below the active leaves.
    QuantityNotReduced,
    /// Replacement named another account than the authorizing owner.
    ReplacementAccountMismatch,
    /// Frozen interest had no executable clearing state.
    NoExecutableInterest,
    /// Submitted account has no immutable risk profile.
    RiskProfileMissing,
    /// Submitted account is blocked by its risk profile.
    RiskAccountBlocked,
    /// Submitted interest is not a strict reduce-only exposure reduction.
    RiskReduceOnly,
    /// Submitted quantity exceeds the per-order risk limit.
    RiskOrderQuantityLimit,
    /// Submitted conservative notional exceeds the per-order risk limit.
    RiskOrderNotionalLimit,
    /// Resting order count would exceed the aggregate risk limit.
    RiskOpenOrderCountLimit,
    /// Resting quantity would exceed the aggregate risk limit.
    RiskOpenQuantityLimit,
    /// Resting conservative notional would exceed the aggregate risk limit.
    RiskOpenNotionalLimit,
    /// Worst-case long or short position would exceed its risk limit.
    RiskPositionLimit,
    /// Risk arithmetic could not represent the requested exposure.
    RiskArithmeticOverflow,
}

impl CallAuctionRejectReason {
    /// Whether an external risk gate gives this reason.
    pub open spec fn is_risk(self) -> bool {
        ||| self == CallAuctionRejectReason::RiskProfileMissing
        ||| self == CallAuctionRejectReason::RiskAccountBlocked
        ||| self == CallAuctionRejectReason::RiskReduceOnly
        ||| self == CallAuctionRejectReason::RiskOrderQuantityLimit
        ||| self == CallAuctionRejectReason::RiskOrderNotionalLimit
        ||| self == CallAuctionRejectReason::RiskOpenOrderCountLimit
        ||| self == CallAuctionRejectReason::RiskOpenQuantityLimit
        ||| self == CallAuctionRejectReason::RiskOpenNotionalLimit
        ||| self == CallAuctionRejectReason::RiskPositionLimit
        ||| self == CallAuctionRejectReason::RiskArithmeticOverflow
    }
}

/// Returns whether an external risk gate gives this reason.
pub(crate) fn is_external_risk_rejection(reason: CallAuctionRejectReason) -> (r: bool)
    ensures
        r == reason.is_risk(),
{
    match reason {
        CallAuctionRejectReason::RiskProfileMissing
        | CallAuctionRejectReason::RiskAccountBlocked
        | CallAuctionRejectReason::RiskReduceOnly
        | CallAuctionRejectReason::RiskOrderQuantityLimit
        | CallAuctionRejectReason::RiskOrderNotionalLimit
        | CallAuctionRejectReason::RiskOpenOrderCountLimit
        | CallAuctionRejectReason::RiskOpenQuantityLimit
        | CallAuctionRejectReason::RiskOpenNotionalLimit
        | CallAuctionRejectReason::RiskPositionLimit
        | CallAuctionRejectReason::RiskArithmeticOverflow => true,
        _ => false,
    }
}

/// Why active auction quantity was removed.
#[derive(Clone, Copy, Debug, PartialEq, Eq, Structural)]
pub enum CallAuctionCancellationReason {
    /// Explicit owner cancellation command.
    UserRequested,
    /// Removal in favour of a replacement.
    Replaced,
    /// Account-scoped cancellation command.
    MassCancel,
    /// Unexecuted remainder selected by the uncross policy.
    UncrossRemainder,
}

/// One externally observable sequenced auction transition.
#[derive(Clone, Copy, Debug, PartialEq, Eq, Structural)]
pub enum CallAuctionEventKind {
    /// Effective phase changed.
    PhaseChanged {
        /// Controlled cycle.
        auction_id: AuctionId,
        /// Previous phase.
        previous: CallAuctionPhase,
        /// Current phase.
        current: CallAuctionPhase,
        /// Newly committed phase revision.
        revision: u64,
    },
    /// New interest entered the collection book.
    OrderAccepted(CallAuctionOrderSnapshot),
    /// Active interest was removed.
    OrderCancelled {
        /// Removed order state.
        order: CallAuctionOrderSnapshot,
        /// Removal cause.
        reason: CallAuctionCancellationReason,
    },
    /// Active interest was reduced at its priority.
    OrderAmended {
        /// Order state after the reduction.
        order: CallAuctionOrderSnapshot,
        /// Leaves before the reduction.
        previous_quantity: Quantity,
        /// Collection-book revision after the reduction.
        book_revision: u64,
    },
    /// An account-scoped cancellation completed.
    MassCancelCompleted {
        /// Selected account.
        account_id: AccountId,
        /// Selected sides.
        scope: MassCancelScope,
        /// Number of removed orders.
        cancelled_order_count: u64,
        /// Sum of removed lots.
        cancelled_quantity_lots: u128,
        /// Collection-book revision after the removals.
        book_revision: u64,
    },
    /// One deterministic auction counterparty pair executed.
    Trade(CallAuctionTrade),
    /// One policy-selected unexecuted remainder was removed.
    RemainderCancelled(CallAuctionCancellation),
    /// Final uncross completed and closed the cycle.
    UncrossCompleted {
        /// Closed cycle.
        auction_id: AuctionId,
        /// Aggregate clearing state.
        clearing: AuctionClearing,
        /// Applied uncross policy.
        policy: CallAuctionUncrossPolicy,
        /// Number of emitted counterparty pairs.
        trade_count: u64,
        /// Number of policy-driven remainder cancellations.
        cancellation_count: u64,
        /// Collection-book revision after consumption.
        book_revision: u64,
        /// Newly committed phase revision.
        phase_revision: u64,
    },
    /// Command failed deterministic business validation.
    CommandRejected(CallAuctionRejectReason),
}

/// One event with contiguous engine trace context.
#[derive(Clone, Copy, Debug, PartialEq, Eq, Structural)]
pub struct CallAuctionEvent {
    /// Strictly increasing engine-local event sequence.
    pub sequence: u64,
    /// Command responsible for the event.
    pub command_id: CommandId,
    /// Receive time copied from the command.
    pub occurred_at: TimestampNs,
    /// State transition.
    pub kind: CallAuctionEventKind,
}

/// Shared immutable events for one sequenced command.
#[derive(Clone, Debug, PartialEq, Eq)]
pub struct CallAuctionEventTrace {
    /// Shared owner of the events.
    pub events: Arc<Vec<CallAuctionEvent>>,
}

impl View for CallAuctionEventTrace {
    type V = Seq<CallAuctionEvent>;

    open spec fn view(&self) -> Seq<CallAuctionEvent> {
        self.events@
    }
}

impl CallAuctionEventTrace {
    pub(crate) fn from_decoded(events: Vec<CallAuctionEvent>) -> (r: Self)
        ensures
            r@ == events@,
    {
        CallAuctionEventTrace { events: Arc::new(events) }
    }

    /// Returns the complete event slice.
    pub fn as_slice(&self) -> (r: &[CallAuctionEvent])
        ensures
            r@ == self@,
    {
        self.events.as_slice()
    }

    /// Returns the number of events.
    pub fn len(&self) -> (r: usize)
        ensures
            r == self@.len(),
    {
        self.events.len()
    }

    /// Returns whether two traces share one immutable owner and vector buffer.
    ///
    /// Traces that share an owner hold the same events. Whether two traces of
    /// equal events share one is a matter of how they were made.
    pub fn shares_storage_with(&self, other: &Self) -> (r: bool)
        ensures
            r ==> self@ == other@,
    {
        shares_owner(&self.events, &other.events)
    }

    /// Returns another handle on the same events.
    pub fn share(&self) -> (r: Self)
        ensures
            r == *self,
    {
        CallAuctionEventTrace { events: share_owner(&self.events) }
    }
}

/// Overall command disposition.
#[derive(Clone, Copy, Debug, PartialEq, Eq, Structural)]
pub enum CallAuctionCommandOutcome {
    /// Command committed its requested state transition.
    Accepted,
    /// Command was sequenced but made no state change.
    Rejected(CallAuctionRejectReason),
}

impl CallAuctionCommandOutcome {
    /// The reason that an external risk gate gave, if it did.
    pub open spec fn external(self) -> Option<CallAuctionRejectReason> {
        match self {
            CallAuctionCommandOutcome::Rejected(reason) => if reason.is_risk() {
                Some(reason)
            } else {
                None
            },
            CallAuctionCommandOutcome::Accepted => None,
        }
    }

    /// Returns the reason that an external risk gate gave, if it did.
    pub(crate) fn external_rejection(self) -> (r: Option<CallAuctionRejectReason>)
        ensures
            r == self.external(),
    {
        match self {
            CallAuctionCommandOutcome::Rejected(reason) => {
                if is_external_risk_rejection(reason) {
                    Some(reason)
                } else {
                    None
                }
            },
            CallAuctionCommandOutcome::Accepted => None,
        }
    }
}

/// Exact immutable report for one sequenced command.
#[derive(Clone, Debug, PartialEq, Eq)]
pub struct CallAuctionExecutionReport {
    /// Idempotency key.
    pub command_id: CommandId,
    /// Strictly increasing committed-command sequence.
    pub command_sequence: u64,
    /// Accepted/rejected disposition.
    pub outcome: CallAuctionCommandOutcome,
    /// Contiguous immutable event trace.
    pub events: CallAuctionEventTrace,
    /// True only for an exact-command cache replay.
    pub replayed: bool,
}

impl CallAuctionExecutionReport {
    /// Two reports hold the same values.
    pub open spec fn same(&self, other: &Self) -> bool {
        &&& self.command_id == other.command_id
        &&& self.command_sequence == other.command_sequence
        &&& self.outcome == other.outcome
        &&& self.events@ == other.events@
        &&& self.replayed == other.replayed
    }

    /// Returns another handle on the same report.
    pub fn share(&self) -> (r: Self)
        ensures
            r == *self,
    {
        CallAuctionExecutionReport {
            command_id: self.command_id,
            command_sequence: self.command_sequence,
            outcome: self.outcome,
            events: self.events.share(),
            replayed: self.replayed,
        }
    }

    /// Compares two reports value by value.
    pub fn matches(&self, other: &Self) -> (r: bool)
        ensures
            r == self.same(other),
    {
        if self.command_id != other.command_id || self.command_sequence != other.command_sequence
            || self.outcome != other.outcome || self.replayed != other.replayed {
            return false;
        }
        let left = self.events.as_slice();
        let right = other.events.as_slice();
        if left.len() != right.len() {
            return false;
        }
        let mut index: usize = 0;
        while index < left.len()
            invariant
                left@ == self.events@,
                right@ == other.events@,
                left@.len() == right@.len(),
                index <= left@.len(),
                forall|k: int| 0 <= k < index ==> left@[k] == right@[k],
            decreases left@.len() - index,
        {
            if left[index] != right[index] {
                return false;
            }
            index += 1;
        }
        assert(left@ =~= right@);
        true
    }
}

/// One immutable command/report pair.
#[derive(Clone, Debug, PartialEq, Eq)]
pub struct CallAuctionCommandReportCheckpoint {
    /// Sequenced command.
    pub command: CallAuctionCommand,
    /// Exact non-replayed report.
    pub report: CallAuctionExecutionReport,
}

impl CallAuctionCommandReportCheckpoint {
    /// Two pairs hold the same values.
    pub open spec fn same(&self, other: &Self) -> bool {
        self.command == other.command && self.report.same(&other.report)
    }

    pub(crate) fn from_parts(
        command: CallAuctionCommand,
        report: CallAuctionExecutionReport,
    ) -> (r: Self)
        ensures
            r.command == command,
            r.report == report,
    {
        CallAuctionCommandReportCheckpoint { command, report }
    }

    /// Returns the sequenced command.
    pub fn command(&self) -> (r: CallAuctionCommand)
        ensures
            r == self.command,
    {
        self.command
    }

    /// Returns the exact non-replayed execution report.
    pub fn report(&self) -> (r: &CallAuctionExecutionReport)
        ensures
            *r == self.report,
    {
        &self.report
    }

    /// Returns another handle on the same pair.
    pub fn share(&self) -> (r: Self)
        ensures
            r == *self,
    {
        CallAuctionCommandReportCheckpoint { command: self.command, report: self.report.share() }
    }
}

/// Operational failure outside deterministic business rejection semantics.
#[derive(Clone, Copy, Debug, PartialEq, Eq, Structural)]
pub enum CallAuctionEngineError {
    /// A command identifier was reused for different command fields.
    CommandIdCollision(CommandId),
    /// Configured semantic capacity was exhausted before sequencing.
    CapacityExhausted(CallAuctionEngineCapacity),
    /// Fallible report reservation failed.
    CapacityReservationFailed(CallAuctionEngineCapacity),
    /// Committed-command or event sequence cannot advance.
    SequenceExhausted,
    /// Phase revision cannot advance.
    PhaseRevisionExhausted,
    /// Exact next auction identity cannot be represented.
    AuctionIdExhausted,
    /// Collection admission encountered an operational failure.
    BookAdmission(CallAuctionAdmissionError),
    /// Collection cancellation encountered an operational failure.
    BookCancellation(CallAuctionCancelError),
    /// Collection mass cancellation encountered an operational failure.
    BookMassCancellation(CallAuctionMassCancelError),
    /// Collection amendment encountered an operational failure.
    BookAmendment(CallAuctionAmendError),
    /// Collection replacement encountered an operational failure.
    BookReplacement(CallAuctionReplaceError),
    /// Indicative discovery encountered invalid/arithmetic input.
    Discovery(AuctionError),
    /// Allocation/pairing preparation failed before sequencing.
    UncrossPreparation(CallAuctionPrepareError),
    /// A validated uncross preparation contradicted commit state.
    UncrossCommit(CallAuctionCommitError),
    /// Prepared command belongs to another engine.
    ForeignPreparation,
    /// An unrelated command committed after preparation.
    StalePreparation,
    /// Private state contradicted successful preparation.
    InternalInvariantViolation,
}

/// Resource telemetry.
#[derive(Clone, Copy, Debug, PartialEq, Eq, Structural)]
pub struct CallAuctionEngineResourceStatus {
    /// Configured retained-command maximum.
    pub configured_retained_commands: usize,
    /// Capacity currently owned by the exact-command cache.
    pub allocated_retained_commands: usize,
    /// Committed command/report count.
    pub retained_commands: usize,
    /// Ordinary command capacity before the terminal lane.
    pub ordinary_command_capacity: usize,
    /// Protected terminal-command slots.
    pub terminal_command_reserve: usize,
    /// Maximum events per report.
    pub max_report_events: usize,
}

/// Unsequenced indicative-query failure.
#[derive(Clone, Copy, Debug, PartialEq, Eq, Structural)]
pub enum CallAuctionQueryError {
    /// Query referenced no active cycle or the wrong cycle.
    AuctionIdMismatch {
        /// Supplied identity.
        observed: AuctionId,
        /// Active identity, if any.
        current: Option<AuctionId>,
    },
    /// Indicative discovery failed input/arithmetic validation.
    Discovery(AuctionError),
}

/// Structural contradiction detected by an offline engine audit.
#[derive(Clone, Debug, PartialEq, Eq)]
pub enum CallAuctionEngineInvariantViolation {
    /// Collection-book audit failed.
    Book(CallAuctionInvariantViolation),
    /// Engine-owned state contradicted its invariants.
    Engine(String),
}

impl CallAuctionEngineInvariantViolation {
    pub(crate) fn new(detail: &'static str) -> (r: Self)
        ensures
            r is Engine,
            r.text() == detail@,
    {
        CallAuctionEngineInvariantViolation::Engine(String::from_str(detail))
    }

    /// The diagnostic description.
    pub open spec fn text(self) -> Seq<char> {
        match self {
            CallAuctionEngineInvariantViolation::Book(error) => error.detail@,
            CallAuctionEngineInvariantViolation::Engine(detail) => detail@,
        }
    }

    /// Returns a stable diagnostic description.
    pub fn detail(&self) -> (r: &str)
        ensures
            r@ == self.text(),
    {
        match self {
            CallAuctionEngineInvariantViolation::Book(error) => error.detail(),
            CallAuctionEngineInvariantViolation::Engine(detail) => detail.as_str(),
        }
    }
}

} // verus!
