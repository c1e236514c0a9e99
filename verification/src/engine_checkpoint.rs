//! Semantic checkpoints: direct auction state with complete idempotency lineage.

use vstd::prelude::*;

use crate::auction_book::price_configuration_fault;
use crate::auction_engine::{
    construction_error, CallAuctionCommandPreparation, CallAuctionEngine, PreparedCallAuctionAction,
};
use crate::book_queries::{lemma_listing_unique, lists_orders};
use crate::book_restore::{
    occupied_count, occupied_prices, restorable, restore_fault, CallAuctionRestoreError,
};
use crate::book_state::CallAuctionBook;
use crate::book_types::{CallAuctionConstructionError, CallAuctionOrderSnapshot};
use crate::domain::{CommandId, InstrumentId, InstrumentVersion, OrderId, Side};
use crate::engine_audit::{
    entry_audited, events_of, history_audited, lemma_next_event_monotone, lemma_replay_stops,
    next_event_after, replayed_phase,
};
use crate::engine_grammar::{cached_report_grammar_is_valid, report_grammar, trade_number};
use crate::engine_projection::{
    empty_projection, lemma_numbering_stops, lemma_projection_stops, numbered_trades, projected,
    CallAuctionProjector, ProjectedState,
};
use crate::engine_replay::same_histories;
use crate::engine_types::{
    CallAuctionCommand, CallAuctionCommandReportCheckpoint, CallAuctionEngineCapacity,
    CallAuctionEngineConstructionError, CallAuctionEngineError, CallAuctionEngineLimits,
    CallAuctionEventKind, CallAuctionExecutionReport, CallAuctionPhaseSnapshot,
};
use crate::instrument::InstrumentDefinition;
use crate::ordered_map::{MapKey, OrderedMap};

verus! {

/// Semantic auction-checkpoint construction or restoration failure.
#[derive(Clone, Debug, PartialEq, Eq)]
pub enum CallAuctionCheckpointError {
    /// An empty engine could not be constructed, for a cause and with its
    /// description.
    Construction(CallAuctionEngineConstructionError, String),
    /// A retained command could not be prepared again, for a cause and with its
    /// description.
    Preparation(CallAuctionEngineError, String),
    /// The checkpoint contradicts itself, the live state or the limits.
    Contradiction(String),
}

impl CallAuctionCheckpointError {
    fn new(detail: &str) -> (r: Self)
        ensures
            r is Contradiction,
            r.description() == detail@,
    {
        CallAuctionCheckpointError::Contradiction(String::from_str(detail))
    }

    fn constructing(cause: CallAuctionEngineConstructionError) -> (r: Self)
        ensures
            r matches CallAuctionCheckpointError::Construction(held, detail) && held == cause
                && detail@ == cause.text(),
            r.worded(),
    {
        CallAuctionCheckpointError::Construction(cause, cause.message())
    }

    fn rebuilding(cause: CallAuctionConstructionError) -> (r: Self)
        ensures
            r matches CallAuctionCheckpointError::Construction(held, detail) && held
                == CallAuctionEngineConstructionError::Book(cause) && detail@ == cause.text(),
            r.worded(),
    {
        CallAuctionCheckpointError::Construction(
            CallAuctionEngineConstructionError::Book(cause),
            cause.message(),
        )
    }

    fn preparing(cause: CallAuctionEngineError) -> (r: Self)
        ensures
            r matches CallAuctionCheckpointError::Preparation(held, _) && held == cause,
            r.worded(),
    {
        let mut detail = String::from_str("auction checkpoint history cannot be prepared: ");
        detail.append(cause.message().as_str());
        CallAuctionCheckpointError::Preparation(cause, detail)
    }

    fn committing(cause: CallAuctionEngineError) -> (r: Self)
        ensures
            r is Contradiction,
            r.description() == commit_text(cause),
    {
        let mut detail = String::from_str("auction checkpoint history cannot be committed: ");
        detail.append(cause.message().as_str());
        CallAuctionCheckpointError::Contradiction(detail)
    }

    /// The diagnostic description.
    pub open spec fn description(self) -> Seq<char> {
        match self {
            CallAuctionCheckpointError::Construction(_, detail) => detail@,
            CallAuctionCheckpointError::Preparation(_, detail) => detail@,
            CallAuctionCheckpointError::Contradiction(detail) => detail@,
        }
    }

    /// The description is that of the cause. A book that could not be
    /// constructed again is described without the engine around it.
    pub open spec fn worded(self) -> bool {
        match self {
            CallAuctionCheckpointError::Construction(cause, detail) => {
                ||| detail@ == cause.text()
                ||| cause matches CallAuctionEngineConstructionError::Book(inner) && detail@
                    == inner.text()
            },
            CallAuctionCheckpointError::Preparation(cause, detail) => detail@
                == "auction checkpoint history cannot be prepared: "@ + cause.text(),
            CallAuctionCheckpointError::Contradiction(_) => true,
        }
    }

    /// Whether storage could not be reserved.
    pub open spec fn exhausted(self) -> bool {
        match self {
            CallAuctionCheckpointError::Construction(cause, _) => match cause {
                CallAuctionEngineConstructionError::Book(inner) => inner
                    is CapacityReservationFailed,
                CallAuctionEngineConstructionError::CommandHistoryReservationFailed => true,
                CallAuctionEngineConstructionError::EngineInstanceIdExhausted => false,
            },
            CallAuctionCheckpointError::Preparation(cause, _) => cause
                is CapacityReservationFailed,
            CallAuctionCheckpointError::Contradiction(_) => false,
        }
    }

    /// Returns whether storage could not be reserved.
    #[must_use]
    pub fn is_resource_exhaustion(&self) -> (r: bool)
        ensures
            r == self.exhausted(),
    {
        match self {
            CallAuctionCheckpointError::Construction(cause, _) => match cause {
                CallAuctionEngineConstructionError::Book(
                    CallAuctionConstructionError::CapacityReservationFailed(_),
                ) => true,
                CallAuctionEngineConstructionError::Book(_) => false,
                CallAuctionEngineConstructionError::CommandHistoryReservationFailed => true,
                CallAuctionEngineConstructionError::EngineInstanceIdExhausted => false,
            },
            CallAuctionCheckpointError::Preparation(cause, _) => match cause {
                CallAuctionEngineError::CapacityReservationFailed(_) => true,
                _ => false,
            },
            CallAuctionCheckpointError::Contradiction(_) => false,
        }
    }

    /// Whether retry under different resource availability can succeed.
    pub open spec fn operational(self) -> bool {
        self is Construction || self.exhausted()
    }

    /// Returns whether retry under different resource availability can succeed.
    #[must_use]
    pub fn is_operational_failure(&self) -> (r: bool)
        ensures
            r == self.operational(),
    {
        match self {
            CallAuctionCheckpointError::Construction(..) => true,
            _ => self.is_resource_exhaustion(),
        }
    }

    /// Whether the error names what keeps a retained command from being prepared.
    pub open spec fn cannot_prepare(self, cause: CallAuctionEngineError) -> bool {
        self matches CallAuctionCheckpointError::Preparation(held, _) && held == cause
    }

    /// Whether the error names one contradiction.
    pub open spec fn contradicts(self, detail: Seq<char>) -> bool {
        self is Contradiction && self.description() == detail
    }

    /// Returns a stable diagnostic description.
    pub fn detail(&self) -> (r: &str)
        ensures
            r@ == self.description(),
    {
        match self {
            CallAuctionCheckpointError::Construction(_, detail) => detail.as_str(),
            CallAuctionCheckpointError::Preparation(_, detail) => detail.as_str(),
            CallAuctionCheckpointError::Contradiction(detail) => detail.as_str(),
        }
    }
}

/// Canonical direct auction state plus complete idempotency lineage.
#[derive(Clone, Debug, PartialEq, Eq)]
pub struct CallAuctionCheckpoint {
    /// Immutable-definition log sequence before auction history.
    pub wal_metadata_sequence: u64,
    /// Completed report boundary.
    pub wal_sequence: u64,
    /// Immutable instrument definition.
    pub definition: InstrumentDefinition,
    /// Effective phase and cycle state.
    pub phase: CallAuctionPhaseSnapshot,
    /// Collection-book mutation revision.
    pub book_revision: u64,
    /// Next collection priority sequence.
    pub next_priority_sequence: u64,
    /// Next book-local trade identifier.
    pub next_trade_id: u64,
    /// Accepted identities in ascending order.
    pub accepted_order_ids: Vec<OrderId>,
    /// Active orders by ascending identity.
    pub active_orders: Vec<CallAuctionOrderSnapshot>,
    /// Command/report pairs in commit order.
    pub history: Vec<CallAuctionCommandReportCheckpoint>,
}

/// Identities in strictly ascending order.
pub open spec fn ids_ascending(ids: Seq<OrderId>) -> bool {
    forall|i: int, j: int|
        0 <= i < j < ids.len() ==> (#[trigger] ids[i]).value < (#[trigger] ids[j]).value
}

/// No command identity occurs twice.
pub open spec fn keys_distinct(history: Seq<CallAuctionCommandReportCheckpoint>) -> bool {
    forall|i: int, j: int|
        0 <= i < j < history.len() ==> (#[trigger] history[i]).command.key() != (
        #[trigger] history[j]).command.key()
}

/// A boundary ends behind one command frame and one report frame per command.
pub open spec fn boundary_ok(wal_metadata_sequence: u64, wal_sequence: u64, commands: nat) -> bool {
    wal_metadata_sequence != 0 && wal_metadata_sequence + 2 * commands == wal_sequence
}

/// A history is chronological, and its sequences and phase rules agree.
pub open spec fn chronicle(
    history: Seq<CallAuctionCommandReportCheckpoint>,
    definition: InstrumentDefinition,
    phase: CallAuctionPhaseSnapshot,
) -> bool {
    &&& keys_distinct(history)
    &&& history_audited(history)
    &&& next_event_after(history, history.len()) <= u64::MAX
    &&& replayed_phase(
        history,
        definition.instrument_id,
        definition.version,
        history.len(),
    ) == Some(phase)
}

/// Direct state is what a history adds up to.
pub open spec fn projects(
    history: Seq<CallAuctionCommandReportCheckpoint>,
    definition: InstrumentDefinition,
    book_revision: u64,
    next_priority_sequence: u64,
    next_trade_id: u64,
    accepted: Seq<OrderId>,
    active: Seq<CallAuctionOrderSnapshot>,
) -> bool {
    projected(history, definition, history.len()) matches Some(state) && {
        &&& state.book_revision == book_revision
        &&& state.next_priority_sequence == next_priority_sequence
        &&& state.next_trade_id == next_trade_id
        &&& ids_ascending(accepted)
        &&& accepted.to_set() == state.accepted
        &&& lists_orders(active, state.orders, state.orders.dom())
    }
}

/// The first event of a pair from `position` on that is not bound to its command
/// or to the next sequence, or whose trade is misnumbered.
pub open spec fn trace_fault(
    entry: CallAuctionCommandReportCheckpoint,
    event: int,
    trade: int,
    position: int,
) -> Option<Seq<char>>
    decreases entry.report.events@.len() - position,
{
    let events = entry.report.events@;
    if position >= events.len() {
        None
    } else if events[position].sequence != event + position || events[position].command_id
        != entry.command.key() || events[position].occurred_at != entry.command.time() {
        Some("auction checkpoint events are noncontiguous or misbound"@)
    } else if event + position >= u64::MAX {
        Some("auction checkpoint event sequence is exhausted"@)
    } else if !(events[position].kind is Trade) {
        trace_fault(entry, event, trade, position + 1)
    } else if trade_number(events[position]) != trade {
        Some("auction checkpoint trade identifiers are noncontiguous"@)
    } else if trade >= u64::MAX {
        Some("auction checkpoint trade identifier is exhausted"@)
    } else {
        trace_fault(entry, event, trade + 1, position + 1)
    }
}

/// A command identity occurs before in the history.
pub open spec fn repeated(history: Seq<CallAuctionCommandReportCheckpoint>, position: int) -> bool {
    exists|i: int|
        0 <= i < position && (#[trigger] history[i]).command.key()
            == history[position].command.key()
}

/// The first contradiction in a history from `position` on, given what the pairs
/// before it add up to.
pub open spec fn chronicle_fault(
    history: Seq<CallAuctionCommandReportCheckpoint>,
    definition: InstrumentDefinition,
    position: int,
    event: int,
    phase: CallAuctionPhaseSnapshot,
    state: ProjectedState,
) -> Option<Seq<char>>
    decreases history.len() - position,
{
    if position >= history.len() {
        None
    } else {
        let entry = history[position];
        let observed = phase.observed(entry, definition.instrument_id, definition.version);
        if repeated(history, position) || entry.report.command_id != entry.command.key()
            || entry.report.command_sequence != position + 1 || entry.report.replayed
            || entry.report.events@.len() == 0 {
            Some("auction checkpoint command/report chronology is invalid"@)
        } else if !report_grammar(entry) || observed is None {
            Some("auction checkpoint command/report grammar is invalid"@)
        } else if trace_fault(entry, event, state.next_trade_id, 0) is Some {
            trace_fault(entry, event, state.next_trade_id, 0)
        } else if state.advance_fault(definition, entry) is Some {
            state.advance_fault(definition, entry)
        } else {
            chronicle_fault(
                history,
                definition,
                position + 1,
                event + entry.report.events@.len(),
                observed->0,
                state.step(definition, entry)->0,
            )
        }
    }
}

/// The first contradiction in the components of a checkpoint.
pub open spec fn checkpoint_fault(
    wal_metadata_sequence: u64,
    wal_sequence: u64,
    definition: InstrumentDefinition,
    phase: CallAuctionPhaseSnapshot,
    book_revision: u64,
    next_priority_sequence: u64,
    next_trade_id: u64,
    accepted: Seq<OrderId>,
    active: Seq<CallAuctionOrderSnapshot>,
    history: Seq<CallAuctionCommandReportCheckpoint>,
) -> Option<Seq<char>> {
    let told = chronicle_fault(
        history,
        definition,
        0,
        1,
        CallAuctionPhaseSnapshot::genesis(),
        empty_projection(),
    );
    let state = projected(history, definition, history.len())->0;
    let replayed = replayed_phase(
        history,
        definition.instrument_id,
        definition.version,
        history.len(),
    );
    if wal_metadata_sequence == 0 {
        Some("auction checkpoint WAL metadata sequence is zero"@)
    } else if 2 * history.len() > u64::MAX {
        Some("auction checkpoint WAL boundary overflows"@)
    } else if !boundary_ok(wal_metadata_sequence, wal_sequence, history.len()) {
        Some("auction checkpoint WAL boundary does not terminate its history"@)
    } else if told is Some {
        told
    } else if !(ids_ascending(accepted) && accepted.to_set() == state.accepted) {
        Some("auction checkpoint accepted identities contradict history"@)
    } else if !lists_orders(active, state.orders, state.orders.dom()) {
        Some("auction checkpoint active orders contradict event projection"@)
    } else if replayed != Some(phase) || state.book_revision != book_revision
        || state.next_priority_sequence != next_priority_sequence || state.next_trade_id
        != next_trade_id {
        Some("auction checkpoint direct counters or phase contradict history"@)
    } else {
        None
    }
}

impl CallAuctionCheckpoint {
    /// The first contradiction in the checkpoint.
    pub open spec fn fault(&self) -> Option<Seq<char>> {
        checkpoint_fault(
            self.wal_metadata_sequence,
            self.wal_sequence,
            self.definition,
            self.phase,
            self.book_revision,
            self.next_priority_sequence,
            self.next_trade_id,
            self.accepted_order_ids@,
            self.active_orders@,
            self.history@,
        )
    }

    /// The checkpoint is consistent.
    pub open spec fn valid(&self) -> bool {
        &&& boundary_ok(self.wal_metadata_sequence, self.wal_sequence, self.history@.len())
        &&& chronicle(self.history@, self.definition, self.phase)
        &&& projects(
            self.history@,
            self.definition,
            self.book_revision,
            self.next_priority_sequence,
            self.next_trade_id,
            self.accepted_order_ids@,
            self.active_orders@,
        )
    }

    /// Returns the immutable-definition log sequence before auction history.
    pub fn wal_metadata_sequence(&self) -> (r: u64)
        ensures
            r == self.wal_metadata_sequence,
    {
        self.wal_metadata_sequence
    }

    /// Returns the completed report boundary represented by this checkpoint.
    pub fn generation(&self) -> (r: u64)
        ensures
            r == self.wal_sequence,
    {
        self.wal_sequence
    }

    /// Returns the immutable instrument definition.
    pub fn definition(&self) -> (r: InstrumentDefinition)
        ensures
            r == self.definition,
    {
        self.definition
    }

    /// Returns effective phase and cycle state.
    pub fn phase(&self) -> (r: CallAuctionPhaseSnapshot)
        ensures
            r == self.phase,
    {
        self.phase
    }

    /// Returns the direct collection-book mutation revision.
    pub fn book_revision(&self) -> (r: u64)
        ensures
            r == self.book_revision,
    {
        self.book_revision
    }

    /// Returns the next internal collection priority sequence.
    pub fn next_priority_sequence(&self) -> (r: u64)
        ensures
            r == self.next_priority_sequence,
    {
        self.next_priority_sequence
    }

    /// Returns the next book-local auction trade identifier.
    pub fn next_trade_id(&self) -> (r: u64)
        ensures
            r == self.next_trade_id,
    {
        self.next_trade_id
    }

    /// Returns every accepted, never-reusable order identifier canonically.
    pub fn accepted_order_ids(&self) -> (r: &[OrderId])
        ensures
            r@ == self.accepted_order_ids@,
    {
        self.accepted_order_ids.as_slice()
    }

    /// Returns canonical active private auction-order state.
    pub fn active_orders(&self) -> (r: &[CallAuctionOrderSnapshot])
        ensures
            r@ == self.active_orders@,
    {
        self.active_orders.as_slice()
    }

    /// Returns chronological command/report idempotency state.
    pub fn history(&self) -> (r: &[CallAuctionCommandReportCheckpoint])
        ensures
            r@ == self.history@,
    {
        self.history.as_slice()
    }

    /// Returns the number of checkpointed commands.
    pub fn command_count(&self) -> (r: usize)
        ensures
            r == self.history@.len(),
    {
        self.history.len()
    }

    /// Assembles a checkpoint from independently captured components.
    pub fn from_parts(
        wal_metadata_sequence: u64,
        wal_sequence: u64,
        definition: InstrumentDefinition,
        phase: CallAuctionPhaseSnapshot,
        book_revision: u64,
        next_priority_sequence: u64,
        next_trade_id: u64,
        accepted_order_ids: Vec<OrderId>,
        active_orders: Vec<CallAuctionOrderSnapshot>,
        history: Vec<CallAuctionCommandReportCheckpoint>,
    ) -> (r: Result<Self, CallAuctionCheckpointError>)
        requires
            definition.wf(),
        ensures
            ({
                let valid = {
                    &&& boundary_ok(wal_metadata_sequence, wal_sequence, history@.len())
                    &&& chronicle(history@, definition, phase)
                    &&& projects(
                        history@,
                        definition,
                        book_revision,
                        next_priority_sequence,
                        next_trade_id,
                        accepted_order_ids@,
                        active_orders@,
                    )
                };
                match r {
                    Ok(checkpoint) => {
                        &&& valid
                        &&& checkpoint.fault() is None
                        &&& checkpoint == (CallAuctionCheckpoint {
                            wal_metadata_sequence,
                            wal_sequence,
                            definition,
                            phase,
                            book_revision,
                            next_priority_sequence,
                            next_trade_id,
                            accepted_order_ids,
                            active_orders,
                            history,
                        })
                    },
                    Err(error) => {
                        &&& !valid
                        &&& checkpoint_fault(
                            wal_metadata_sequence,
                            wal_sequence,
                            definition,
                            phase,
                            book_revision,
                            next_priority_sequence,
                            next_trade_id,
                            accepted_order_ids@,
                            active_orders@,
                            history@,
                        ) matches Some(detail) && error.contradicts(detail)
                    },
                }
            }),
    {
        let checkpoint = CallAuctionCheckpoint {
            wal_metadata_sequence,
            wal_sequence,
            definition,
            phase,
            book_revision,
            next_priority_sequence,
            next_trade_id,
            accepted_order_ids,
            active_orders,
            history,
        };
        match checkpoint.validate() {
            Ok(()) => Ok(checkpoint),
            Err(error) => Err(error),
        }
    }

    /// Equal values in every component.
    pub open spec fn same(&self, other: &Self) -> bool {
        &&& self.wal_metadata_sequence == other.wal_metadata_sequence
        &&& self.wal_sequence == other.wal_sequence
        &&& self.definition == other.definition
        &&& self.phase == other.phase
        &&& self.book_revision == other.book_revision
        &&& self.next_priority_sequence == other.next_priority_sequence
        &&& self.next_trade_id == other.next_trade_id
        &&& self.accepted_order_ids@ == other.accepted_order_ids@
        &&& self.active_orders@ == other.active_orders@
        &&& self.history@ == other.history@
    }

    /// Returns a checkpoint with equal values that shares the retained events.
    pub fn share(&self) -> (r: Self)
        ensures
            r.same(self),
    {
        let mut accepted_order_ids: Vec<OrderId> = Vec::new();
        let mut index: usize = 0;
        while index < self.accepted_order_ids.len()
            invariant
                index <= self.accepted_order_ids@.len(),
                accepted_order_ids@ =~= self.accepted_order_ids@.take(index as int),
            decreases self.accepted_order_ids@.len() - index,
        {
            accepted_order_ids.push(self.accepted_order_ids[index]);
            index += 1;
        }
        let mut active_orders: Vec<CallAuctionOrderSnapshot> = Vec::new();
        let mut position: usize = 0;
        while position < self.active_orders.len()
            invariant
                position <= self.active_orders@.len(),
                active_orders@ =~= self.active_orders@.take(position as int),
            decreases self.active_orders@.len() - position,
        {
            active_orders.push(self.active_orders[position]);
            position += 1;
        }
        let mut history: Vec<CallAuctionCommandReportCheckpoint> = Vec::new();
        let mut entry: usize = 0;
        while entry < self.history.len()
            invariant
                entry <= self.history@.len(),
                history@ =~= self.history@.take(entry as int),
            decreases self.history@.len() - entry,
        {
            history.push(self.history[entry].share());
            entry += 1;
        }
        proof {
            assert(accepted_order_ids@ =~= self.accepted_order_ids@);
            assert(active_orders@ =~= self.active_orders@);
            assert(history@ =~= self.history@);
        }
        CallAuctionCheckpoint {
            wal_metadata_sequence: self.wal_metadata_sequence,
            wal_sequence: self.wal_sequence,
            definition: self.definition,
            phase: self.phase,
            book_revision: self.book_revision,
            next_priority_sequence: self.next_priority_sequence,
            next_trade_id: self.next_trade_id,
            accepted_order_ids,
            active_orders,
            history,
        }
    }

    /// Whether this checkpoint continues an earlier one of the same log.
    pub open spec fn succeeds(&self, previous: &Self) -> bool {
        &&& self.wal_metadata_sequence == previous.wal_metadata_sequence
        &&& self.definition == previous.definition
        &&& self.wal_sequence >= previous.wal_sequence
        &&& self.history@.len() >= previous.history@.len()
        &&& forall|i: int|
            0 <= i < previous.history@.len() ==> (#[trigger] self.history@[i]).same(
                &previous.history@[i],
            )
    }

    /// Returns whether this checkpoint continues an earlier one of the same log.
    pub fn is_successor_of(&self, previous: &Self) -> (r: bool)
        ensures
            r == self.succeeds(previous),
    {
        if self.wal_metadata_sequence != previous.wal_metadata_sequence || self.definition
            != previous.definition || self.wal_sequence < previous.wal_sequence
            || self.history.len() < previous.history.len() {
            return false;
        }
        let mut index: usize = 0;
        while index < previous.history.len()
            invariant
                self.history@.len() >= previous.history@.len(),
                index <= previous.history@.len(),
                forall|i: int|
                    0 <= i < index ==> (#[trigger] self.history@[i]).same(&previous.history@[i]),
            decreases previous.history@.len() - index,
        {
            let left = &self.history[index];
            let right = &previous.history[index];
            if left.command != right.command || !left.report.matches(&right.report) {
                assert(!self.history@[index as int].same(&previous.history@[index as int]));
                return false;
            }
            index += 1;
        }
        true
    }

    /// The first contradiction in the history.
    pub open spec fn told_fault(&self) -> Option<Seq<char>> {
        chronicle_fault(
            self.history@,
            self.definition,
            0,
            1,
            CallAuctionPhaseSnapshot::genesis(),
            empty_projection(),
        )
    }

    /// Checks chronology, event binding, phase rules and event projection.
    fn validate_history(&self) -> (r: Result<
        (CallAuctionProjector, CallAuctionPhaseSnapshot),
        &'static str,
    >)
        requires
            self.definition.wf(),
        ensures
            match r {
                Ok((projector, phase)) => {
                    &&& self.told_fault() is None
                    &&& projector.wf()
                    &&& chronicle(self.history@, self.definition, phase)
                    &&& projected(self.history@, self.definition, self.history@.len()) == Some(
                        projector.state(),
                    )
                },
                Err(detail) => {
                    &&& self.told_fault() == Some(detail@)
                    &&& !chronicle(self.history@, self.definition, self.phase) || projected(
                        self.history@,
                        self.definition,
                        self.history@.len(),
                    ) is None
                },
            },
    {
        let instrument_id = self.definition.instrument_id;
        let instrument_version = self.definition.version;
        let mut projector = CallAuctionProjector::new();
        let mut command_ids: OrderedMap<CommandId, ()> = OrderedMap::unbounded();
        let mut audit = CallAuctionPhaseSnapshot::default();
        let mut expected_event: u64 = 1;
        let mut index: usize = 0;
        while index < self.history.len()
            invariant
                self.definition.wf(),
                instrument_id == self.definition.instrument_id,
                instrument_version == self.definition.version,
                index <= self.history@.len(),
                self.told_fault() == chronicle_fault(
                    self.history@,
                    self.definition,
                    index as int,
                    expected_event as int,
                    audit,
                    projector.state(),
                ),
                projector.wf(),
                command_ids.wf(),
                forall|id: CommandId| #[trigger]
                    command_ids@.dom().contains(id) <==> exists|i: int|
                        0 <= i < index && (#[trigger] self.history@[i]).command.key() == id,
                forall|i: int, j: int|
                    0 <= i < j < index ==> (#[trigger] self.history@[i]).command.key() != (
                    #[trigger] self.history@[j]).command.key(),
                forall|i: int| 0 <= i < index ==> #[trigger] entry_audited(self.history@, i),
                expected_event == next_event_after(self.history@, index as nat),
                replayed_phase(self.history@, instrument_id, instrument_version, index as nat)
                    == Some(audit),
                projected(self.history@, self.definition, index as nat) == Some(projector.state()),
            decreases self.history@.len() - index,
        {
            let entry = &self.history[index];
            let command_id = entry.command.command_id();
            let repeats = command_ids.contains_key(command_id);
            proof {
                if repeats {
                    let i = choose|i: int|
                        0 <= i < index && (#[trigger] self.history@[i]).command.key() == command_id;
                    assert(self.history@[i].command.key()
                        == self.history@[index as int].command.key());
                    assert(repeated(self.history@, index as int));
                } else if repeated(self.history@, index as int) {
                    let i = choose|i: int|
                        0 <= i < index && (#[trigger] self.history@[i]).command.key()
                            == self.history@[index as int].command.key();
                    assert(command_ids@.dom().contains(self.history@[i].command.key()));
                }
            }
            if repeats || entry.report.command_id != command_id || entry.report.command_sequence
                != index as u64 + 1 || entry.report.replayed || entry.report.events.len() == 0 {
                proof {
                    if !repeats {
                        assert(!entry_audited(self.history@, index as int));
                    }
                }
                return Err("auction checkpoint command/report chronology is invalid");
            }
            if !cached_report_grammar_is_valid(entry) {
                assert(!entry_audited(self.history@, index as int));
                return Err("auction checkpoint command/report grammar is invalid");
            }
            if !audit.observe(entry, instrument_id, instrument_version) {
                proof {
                    lemma_replay_stops(
                        self.history@,
                        instrument_id,
                        instrument_version,
                        index as nat + 1,
                        self.history@.len(),
                    );
                }
                return Err("auction checkpoint command/report grammar is invalid");
            }
            let first: u64 = expected_event;
            let next_trade_id: u64 = match check_trace(entry, first, projector.next_trade_id) {
                Ok((event, trade)) => {
                    expected_event = event;
                    trade
                },
                Err(detail) => {
                    proof {
                        lemma_next_event_monotone(
                            self.history@,
                            index as nat + 1,
                            self.history@.len(),
                        );
                        if !events_of(
                            entry.report.events@,
                            self.history@[index as int],
                            expected_event as int,
                        ) {
                            assert(!entry_audited(self.history@, index as int));
                        }
                        if numbered_trades(
                            entry.report.events@,
                            projector.next_trade_id as int,
                            entry.report.events@.len(),
                        ) is None {
                            lemma_projection_stops(
                                self.history@,
                                self.definition,
                                index as nat + 1,
                                self.history@.len(),
                            );
                        }
                    }
                    return Err(detail);
                },
            };
            if let Err(detail) = projector.advance(self.definition, entry, next_trade_id) {
                proof {
                    lemma_projection_stops(
                        self.history@,
                        self.definition,
                        index as nat + 1,
                        self.history@.len(),
                    );
                }
                return Err(detail);
            }
            assert(entry_audited(self.history@, index as int));
            let ghost seen = command_ids@;
            let _ = command_ids.insert(command_id, ());
            proof {
                assert forall|id: CommandId| #[trigger] command_ids@.dom().contains(id)
                    <==> exists|i: int|
                    0 <= i < index + 1 && (#[trigger] self.history@[i]).command.key() == id by {
                    if id == command_id {
                        assert(self.history@[index as int].command.key() == id);
                    } else if seen.dom().contains(id) {
                        let i = choose|i: int|
                            0 <= i < index && (#[trigger] self.history@[i]).command.key() == id;
                        assert(self.history@[i].command.key() == id);
                    }
                }
                assert forall|i: int, j: int| 0 <= i < j < index + 1 implies (
                #[trigger] self.history@[i]).command.key() != (
                #[trigger] self.history@[j]).command.key() by {
                    if j == index && self.history@[i].command.key() == command_id {
                        assert(seen.dom().contains(command_id));
                    }
                }
            }
            index += 1;
        }
        Ok((projector, audit))
    }

    /// Checks the whole checkpoint.
    ///
    /// One chronological projection cross-validates phase, orders, identities,
    /// counters and immutable traces.
    pub fn validate(&self) -> (r: Result<(), CallAuctionCheckpointError>)
        requires
            self.definition.wf(),
        ensures
            r is Ok <==> self.valid(),
            match r {
                Ok(_) => self.fault() is None,
                Err(error) => self.fault() matches Some(detail) && error.contradicts(detail),
            },
    {
        if self.wal_metadata_sequence == 0 {
            return Err(
                CallAuctionCheckpointError::new("auction checkpoint WAL metadata sequence is zero"),
            );
        }
        let frames: u64 = match (self.history.len() as u64).checked_mul(2) {
            Some(value) => value,
            None => {
                return Err(
                    CallAuctionCheckpointError::new("auction checkpoint WAL boundary overflows"),
                );
            },
        };
        if self.wal_metadata_sequence.checked_add(frames) != Some(self.wal_sequence) {
            return Err(
                CallAuctionCheckpointError::new(
                    "auction checkpoint WAL boundary does not terminate its history",
                ),
            );
        }
        let (projector, phase) = match self.validate_history() {
            Ok(found) => found,
            Err(detail) => {
                return Err(CallAuctionCheckpointError::new(detail));
            },
        };
        if !lists_accepted(&projector.accepted, self.accepted_order_ids.as_slice()) {
            return Err(
                CallAuctionCheckpointError::new(
                    "auction checkpoint accepted identities contradict history",
                ),
            );
        }
        if !lists_active(&projector.orders, self.active_orders.as_slice()) {
            return Err(
                CallAuctionCheckpointError::new(
                    "auction checkpoint active orders contradict event projection",
                ),
            );
        }
        if self.phase != phase || self.book_revision != projector.book_revision
            || self.next_priority_sequence != projector.next_priority_sequence || self.next_trade_id
            != projector.next_trade_id {
            return Err(
                CallAuctionCheckpointError::new(
                    "auction checkpoint direct counters or phase contradict history",
                ),
            );
        }
        Ok(())
    }
}

/// Checks the events of one pair and returns the next event sequence and the next
/// trade identity.
fn check_trace(entry: &CallAuctionCommandReportCheckpoint, first: u64, first_trade: u64) -> (r:
    Result<(u64, u64), &'static str>)
    ensures
        match r {
            Ok((event, trade)) => {
                &&& trace_fault(*entry, first as int, first_trade as int, 0) is None
                &&& events_of(entry.report.events@, *entry, first as int)
                &&& event == first + entry.report.events@.len()
                &&& numbered_trades(
                    entry.report.events@,
                    first_trade as int,
                    entry.report.events@.len(),
                ) == Some(trade as int)
            },
            Err(detail) => {
                &&& trace_fault(*entry, first as int, first_trade as int, 0) == Some(detail@)
                &&& !events_of(entry.report.events@, *entry, first as int) || first
                    + entry.report.events@.len() > u64::MAX || numbered_trades(
                    entry.report.events@,
                    first_trade as int,
                    entry.report.events@.len(),
                ) is None
            },
        },
{
    let events = entry.report.events.as_slice();
    let command_id = entry.command.command_id();
    let received_at = entry.command.received_at();
    let mut expected: u64 = first;
    let mut trade: u64 = first_trade;
    let mut position: usize = 0;
    while position < events.len()
        invariant
            events@ == entry.report.events@,
            command_id == entry.command.key(),
            received_at == entry.command.time(),
            position <= events@.len(),
            expected == first + position,
            trace_fault(*entry, first as int, first_trade as int, 0) == trace_fault(
                *entry,
                first as int,
                trade as int,
                position as int,
            ),
            numbered_trades(events@, first_trade as int, position as nat) == Some(trade as int),
            forall|k: int|
                0 <= k < position ==> (#[trigger] events@[k]).sequence == first + k
                    && events@[k].command_id == command_id && events@[k].occurred_at == received_at,
        decreases events@.len() - position,
    {
        let event = events[position];
        if event.sequence != expected || event.command_id != command_id || event.occurred_at
            != received_at {
            return Err("auction checkpoint events are noncontiguous or misbound");
        }
        expected = match expected.checked_add(1) {
            Some(value) => value,
            None => {
                return Err("auction checkpoint event sequence is exhausted");
            },
        };
        if let CallAuctionEventKind::Trade(pair) = event.kind {
            proof {
                if pair.trade_id.value != trade || trade == u64::MAX {
                    lemma_numbering_stops(
                        events@,
                        first_trade as int,
                        position as nat + 1,
                        events@.len(),
                    );
                }
            }
            if pair.trade_id.value != trade {
                return Err("auction checkpoint trade identifiers are noncontiguous");
            }
            if trade == u64::MAX {
                return Err("auction checkpoint trade identifier is exhausted");
            }
            trade = trade + 1;
        }
        position += 1;
    }
    Ok((expected, trade))
}

/// Compares accepted identities with a list of them.
fn lists_accepted(accepted: &OrderedMap<OrderId, ()>, list: &[OrderId]) -> (r: bool)
    requires
        accepted.wf(),
    ensures
        r == (ids_ascending(list@) && list@.to_set() == accepted@.dom()),
{
    proof {
        accepted.lemma_view();
        accepted.lemma_ids_listed(list@);
    }
    if accepted.len() != list.len() {
        return false;
    }
    let mut index: usize = 0;
    while index < list.len()
        invariant
            accepted.wf(),
            accepted.entries@.len() == list@.len(),
            index <= list@.len(),
            forall|i: int| 0 <= i < index ==> (#[trigger] accepted.entries@[i]).0 == list@[i],
        decreases list@.len() - index,
    {
        if accepted.key_at(index) != list[index] {
            proof {
                assert(accepted.entries@[index as int].0 != list@[index as int]);
                accepted.lemma_ids_listed(list@);
            }
            return false;
        }
        index += 1;
    }
    true
}

/// Compares active orders with a list of them.
fn lists_active(
    orders: &OrderedMap<OrderId, CallAuctionOrderSnapshot>,
    list: &[CallAuctionOrderSnapshot],
) -> (r: bool)
    requires
        orders.wf(),
    ensures
        r == lists_orders(list@, orders@, orders@.dom()),
{
    proof {
        orders.lemma_view();
        orders.lemma_orders_listed(list@);
    }
    if orders.len() != list.len() {
        return false;
    }
    let mut index: usize = 0;
    while index < list.len()
        invariant
            orders.wf(),
            orders.entries@.len() == list@.len(),
            index <= list@.len(),
            forall|i: int|
                0 <= i < index ==> (#[trigger] orders.entries@[i]).0 == list@[i].order_id
                    && orders.entries@[i].1 == list@[i],
        decreases list@.len() - index,
    {
        if orders.key_at(index) != list[index].order_id || orders.value_at(index) != list[index] {
            proof {
                assert(orders.entries@[index as int].0 != list@[index as int].order_id
                    || orders.entries@[index as int].1 != list@[index as int]);
                orders.lemma_orders_listed(list@);
            }
            return false;
        }
        index += 1;
    }
    true
}

impl OrderedMap<OrderId, ()> {
    /// A list of identities is the one of a map exactly when it spells its entries.
    proof fn lemma_ids_listed(&self, list: Seq<OrderId>)
        requires
            self.wf(),
        ensures
            (ids_ascending(list) && list.to_set() == self@.dom()) <==> (list.len()
                == self.entries@.len() && forall|i: int|
                0 <= i < list.len() ==> (#[trigger] self.entries@[i]).0 == list[i]),
    {
        let keys = self.entries@.map_values(|entry: (OrderId, ())| entry.0);
        self.lemma_view();
        assert forall|i: int, j: int| 0 <= i < j < keys.len() implies (#[trigger] keys[i]).value < (
        #[trigger] keys[j]).value by {
            assert(self.entries@[i].0.rank() < self.entries@[j].0.rank());
        }
        assert forall|id: OrderId| self@.dom().contains(id) <==> keys.contains(id) by {
            if self@.dom().contains(id) {
                let e = choose|e: int|
                    0 <= e < self.entries@.len() && (#[trigger] self.entries@[e]).0 == id;
                assert(keys[e] == id);
            }
            if keys.contains(id) {
                let e = choose|e: int| 0 <= e < keys.len() && keys[e] == id;
                assert(self.entries@[e].0 == id);
            }
        }
        if ids_ascending(list) && list.to_set() == self@.dom() {
            assert forall|id: OrderId| list.contains(id) <==> keys.contains(id) by {
                assert(list.to_set().contains(id) <==> list.contains(id));
            }
            lemma_ascending_unique(list, keys);
            assert forall|i: int| 0 <= i < list.len() implies (#[trigger] self.entries@[i]).0
                == list[i] by {
                assert(keys[i] == self.entries@[i].0);
            }
        }
        if list.len() == self.entries@.len() && forall|i: int|
            0 <= i < list.len() ==> (#[trigger] self.entries@[i]).0 == list[i] {
            assert forall|i: int| 0 <= i < list.len() implies list[i] == keys[i] by {
                assert(self.entries@[i].0 == list[i]);
            }
            assert(list =~= keys);
            assert forall|id: OrderId| list.to_set().contains(id) <==> self@.dom().contains(id) by {
                assert(list.to_set().contains(id) <==> list.contains(id));
            }
            assert(list.to_set() =~= self@.dom());
        }
    }
}

impl OrderedMap<OrderId, CallAuctionOrderSnapshot> {
    /// A list of orders is the one of a map exactly when it spells its entries.
    proof fn lemma_orders_listed(&self, list: Seq<CallAuctionOrderSnapshot>)
        requires
            self.wf(),
        ensures
            lists_orders(list, self@, self@.dom()) <==> (list.len() == self.entries@.len()
                && forall|i: int|
                0 <= i < list.len() ==> (#[trigger] self.entries@[i]).0 == list[i].order_id
                    && self.entries@[i].1 == list[i]),
    {
        let keys = self.entries@.map_values(
            |entry: (OrderId, CallAuctionOrderSnapshot)| entry.0,
        );
        let ids = list.map_values(|order: CallAuctionOrderSnapshot| order.order_id);
        self.lemma_view();
        assert forall|i: int, j: int| 0 <= i < j < keys.len() implies (#[trigger] keys[i]).value < (
        #[trigger] keys[j]).value by {
            assert(self.entries@[i].0.rank() < self.entries@[j].0.rank());
        }
        if lists_orders(list, self@, self@.dom()) {
            assert(ids_ascending(ids)) by {
                assert forall|i: int, j: int| 0 <= i < j < ids.len() implies (
                #[trigger] ids[i]).value < (#[trigger] ids[j]).value by {
                    assert(list[i].order_id.value < list[j].order_id.value);
                }
            }
            assert forall|id: OrderId| ids.contains(id) <==> keys.contains(id) by {
                if ids.contains(id) {
                    let i = choose|i: int| 0 <= i < ids.len() && ids[i] == id;
                    assert(list[i].order_id == id);
                    assert(self@.dom().contains(id));
                    let e = choose|e: int|
                        0 <= e < self.entries@.len() && (#[trigger] self.entries@[e]).0 == id;
                    assert(keys[e] == id);
                }
                if keys.contains(id) {
                    let e = choose|e: int| 0 <= e < keys.len() && keys[e] == id;
                    assert(self@.dom().contains(self.entries@[e].0));
                    let i = choose|i: int|
                        0 <= i < list.len() && (#[trigger] list[i]).order_id == id;
                    assert(ids[i] == id);
                }
            }
            lemma_ascending_unique(ids, keys);
            assert forall|i: int| 0 <= i < list.len() implies (#[trigger] self.entries@[i]).0
                == list[i].order_id && self.entries@[i].1 == list[i] by {
                assert(ids[i] == keys[i]);
                assert(self@[self.entries@[i].0] == self.entries@[i].1);
            }
        }
        if list.len() == self.entries@.len() && forall|i: int|
            0 <= i < list.len() ==> (#[trigger] self.entries@[i]).0 == list[i].order_id
                && self.entries@[i].1 == list[i] {
            assert forall|i: int| 0 <= i < list.len() implies self@.dom().contains(
                (#[trigger] list[i]).order_id,
            ) && list[i] == self@[list[i].order_id] by {
                assert(self.entries@[i].0 == list[i].order_id);
            }
            assert forall|i: int, j: int| 0 <= i < j < list.len() implies (
            #[trigger] list[i]).order_id.value < (#[trigger] list[j]).order_id.value by {
                assert(self.entries@[i].0 == list[i].order_id);
                assert(self.entries@[j].0 == list[j].order_id);
                assert(keys[i].value < keys[j].value);
            }
            assert forall|id: OrderId| #[trigger] self@.dom().contains(id) implies exists|i: int|
                0 <= i < list.len() && (#[trigger] list[i]).order_id == id by {
                let e = choose|e: int|
                    0 <= e < self.entries@.len() && (#[trigger] self.entries@[e]).0 == id;
                assert(list[e].order_id == id);
            }
        }
    }
}

/// At most one ascending list holds a set of identities.
pub proof fn lemma_ascending_unique(left: Seq<OrderId>, right: Seq<OrderId>)
    requires
        ids_ascending(left),
        ids_ascending(right),
        forall|id: OrderId| left.contains(id) <==> right.contains(id),
    ensures
        left == right,
{
    lemma_ascending_prefix(left, right, left.len() as int);
    lemma_ascending_prefix(right, left, right.len() as int);
    assert(left =~= right);
}

proof fn lemma_ascending_prefix(left: Seq<OrderId>, right: Seq<OrderId>, count: int)
    requires
        ids_ascending(left),
        ids_ascending(right),
        forall|id: OrderId| left.contains(id) <==> right.contains(id),
        0 <= count <= left.len(),
    ensures
        count <= right.len(),
        forall|i: int| 0 <= i < count ==> #[trigger] left[i] == right[i],
    decreases count,
{
    if count > 0 {
        let last = count - 1;
        lemma_ascending_prefix(left, right, last);
        assert(left.contains(left[last]));
        let j = choose|j: int| 0 <= j < right.len() && right[j] == left[last];
        if j < last {
            assert(left[j] == right[j]);
            assert(left[j].value < left[last].value);
        }
        assert(right.contains(right[last]));
        let k = choose|k: int| 0 <= k < left.len() && left[k] == right[last];
        if k < last {
            assert(left[k] == right[k]);
            assert(right[k].value < right[last].value);
        } else if k > last {
            assert(left[last].value < left[k].value);
            if j > last {
                assert(right[last].value < right[j].value);
            }
        }
    }
}

/// Replayed phase state is coherent.
proof fn lemma_replayed_coherent(
    history: Seq<CallAuctionCommandReportCheckpoint>,
    instrument_id: InstrumentId,
    instrument_version: InstrumentVersion,
    count: nat,
)
    ensures
        replayed_phase(history, instrument_id, instrument_version, count) matches Some(phase)
            ==> phase.coherent(),
    decreases count,
{
    if count > 0 {
        lemma_replayed_coherent(history, instrument_id, instrument_version, (count - 1) as nat);
        match replayed_phase(history, instrument_id, instrument_version, (count - 1) as nat) {
            Some(before) => {
                match history[count - 1].command {
                    CallAuctionCommand::PhaseControl(control) => {
                        before.law_phase_coherent(control);
                    },
                    _ => {},
                }
            },
            None => {},
        }
    }
}

/// A checkpoint fits a resource policy.
pub open spec fn checkpoint_fits(
    checkpoint: &CallAuctionCheckpoint,
    limits: CallAuctionEngineLimits,
) -> bool {
    &&& checkpoint.history@.len() <= limits.retained_commands
    &&& forall|i: int|
        0 <= i < checkpoint.history@.len() ==> (
        #[trigger] checkpoint.history@[i]).report.events@.len() <= limits.report_events
    &&& checkpoint.accepted_order_ids@.len() <= limits.book.accepted_order_ids
    &&& checkpoint.active_orders@.len() <= limits.book.active_orders
    &&& occupied_prices(checkpoint.active_orders@, Side::Buy).len()
        <= limits.book.price_levels_per_side
    &&& occupied_prices(checkpoint.active_orders@, Side::Sell).len()
        <= limits.book.price_levels_per_side
}

/// What is said of a retained command that cannot be committed again.
pub open spec fn commit_text(cause: CallAuctionEngineError) -> Seq<char> {
    "auction checkpoint history cannot be committed: "@ + cause.text()
}

/// The first bound of a resource policy that retained state exceeds.
pub open spec fn capacity_fault(
    checkpoint: &CallAuctionCheckpoint,
    limits: CallAuctionEngineLimits,
) -> Option<Seq<char>> {
    if checkpoint.history@.len() > limits.retained_commands {
        Some("auction checkpoint history exceeds selected capacity"@)
    } else if exists|i: int|
        0 <= i < checkpoint.history@.len() && (#[trigger] checkpoint.history@[i]).report.events@.len()
            > limits.report_events {
        Some("auction checkpoint report exceeds selected event capacity"@)
    } else if checkpoint.accepted_order_ids@.len() > limits.book.accepted_order_ids {
        Some("auction checkpoint accepted identities exceed selected capacity"@)
    } else if checkpoint.active_orders@.len() > limits.book.active_orders {
        Some("auction checkpoint active orders exceed selected capacity"@)
    } else if occupied_prices(checkpoint.active_orders@, Side::Buy).len()
        > limits.book.price_levels_per_side || occupied_prices(
        checkpoint.active_orders@,
        Side::Sell,
    ).len() > limits.book.price_levels_per_side {
        Some("auction checkpoint price levels exceed selected capacity"@)
    } else {
        None
    }
}

/// Checks retained state against a resource policy.
pub fn validate_call_auction_checkpoint_capacity(
    checkpoint: &CallAuctionCheckpoint,
    limits: CallAuctionEngineLimits,
) -> (r: Result<(), CallAuctionCheckpointError>)
    ensures
        r is Ok <==> checkpoint_fits(checkpoint, limits),
        match r {
            Ok(_) => capacity_fault(checkpoint, limits) is None,
            Err(error) => capacity_fault(checkpoint, limits) matches Some(detail)
                && error.contradicts(detail),
        },
{
    if checkpoint.history.len() > limits.retained_commands {
        return Err(
            CallAuctionCheckpointError::new("auction checkpoint history exceeds selected capacity"),
        );
    }
    let mut index: usize = 0;
    while index < checkpoint.history.len()
        invariant
            index <= checkpoint.history@.len() <= limits.retained_commands,
            forall|i: int|
                0 <= i < index ==> (#[trigger] checkpoint.history@[i]).report.events@.len()
                    <= limits.report_events,
        decreases checkpoint.history@.len() - index,
    {
        if checkpoint.history[index].report.events.len() > limits.report_events {
            assert(checkpoint.history@[index as int].report.events@.len() > limits.report_events);
            return Err(
                CallAuctionCheckpointError::new(
                    "auction checkpoint report exceeds selected event capacity",
                ),
            );
        }
        index += 1;
    }
    if checkpoint.accepted_order_ids.len() > limits.book.accepted_order_ids {
        return Err(
            CallAuctionCheckpointError::new(
                "auction checkpoint accepted identities exceed selected capacity",
            ),
        );
    }
    if checkpoint.active_orders.len() > limits.book.active_orders {
        return Err(
            CallAuctionCheckpointError::new(
                "auction checkpoint active orders exceed selected capacity",
            ),
        );
    }
    if occupied_count(checkpoint.active_orders.as_slice(), Side::Buy)
        > limits.book.price_levels_per_side || occupied_count(
        checkpoint.active_orders.as_slice(),
        Side::Sell,
    ) > limits.book.price_levels_per_side {
        return Err(
            CallAuctionCheckpointError::new(
                "auction checkpoint price levels exceed selected capacity",
            ),
        );
    }
    Ok(())
}

impl CallAuctionCheckpoint {
    /// What is said of a checkpoint that cannot be restored: its own first
    /// contradiction, then the first bound that it exceeds, then what keeps its
    /// orders from being indexed.
    pub open spec fn refused_for(&self, limits: CallAuctionEngineLimits, detail: Seq<char>) -> bool {
        match self.fault() {
            Some(text) => detail == text,
            None => match capacity_fault(self, limits) {
                Some(text) => detail == text,
                None => restore_fault(
                    self.definition,
                    limits.book,
                    self.active_orders@,
                    self.accepted_order_ids@,
                    self.next_priority_sequence,
                    self.next_trade_id,
                ) == Some(detail),
            },
        }
    }

    /// A restoration is refused before it asks for storage.
    pub open spec fn refused_early(&self, limits: CallAuctionEngineLimits) -> bool {
        ||| self.fault() is Some
        ||| capacity_fault(self, limits) is Some
        ||| price_configuration_fault(self.definition) is Some
    }

    /// The error of a restoration that is refused before it asks for storage:
    /// that of the content, then that of the bounds, then that of the price
    /// configuration.
    pub open spec fn early_error(
        &self,
        limits: CallAuctionEngineLimits,
        error: CallAuctionCheckpointError,
    ) -> bool {
        if let Some(text) = self.fault() {
            error.contradicts(text)
        } else if let Some(text) = capacity_fault(self, limits) {
            error.contradicts(text)
        } else {
            price_configuration_fault(self.definition) matches Some(fault) && (
            error matches CallAuctionCheckpointError::Construction(cause, _) && cause
                == CallAuctionEngineConstructionError::Book(
                CallAuctionConstructionError::InvalidInstrumentPriceConfiguration(fault),
            ))
        }
    }
}

impl CallAuctionEngine {
    /// The first contradiction that a capture at a log boundary meets: that of the
    /// audit, then that of the captured content.
    pub open spec fn capture_fault(&self, wal_metadata_sequence: u64, wal_sequence: u64) -> Option<
        Seq<char>,
    > {
        match self.audit_fault() {
            Some(text) => Some(text),
            None => checkpoint_fault(
                wal_metadata_sequence,
                wal_sequence,
                self.book.definition,
                self.phase_state(),
                self.book.state_revision,
                self.book.next_priority_sequence,
                self.book.next_trade_id,
                self.book.accepted_list(),
                self.book.active_list(),
                self.history@,
            ),
        }
    }

    /// The engine holds what a checkpoint describes.
    pub open spec fn restores(&self, checkpoint: &CallAuctionCheckpoint) -> bool {
        &&& self.book.is_restored(
            checkpoint.definition,
            self.limits.book,
            checkpoint.active_orders@,
            checkpoint.accepted_order_ids@,
        )
        &&& self.book.next_priority_sequence == checkpoint.next_priority_sequence
        &&& self.book.next_trade_id == checkpoint.next_trade_id
        &&& self.book.state_revision == checkpoint.book_revision
        &&& self.phase_state() == checkpoint.phase
        &&& self.history@ == checkpoint.history@
    }

    /// Whether the direct state of a checkpoint can be indexed under a policy.
    pub open spec fn restorable_under(
        checkpoint: &CallAuctionCheckpoint,
        limits: CallAuctionEngineLimits,
    ) -> bool {
        &&& checkpoint.valid()
        &&& checkpoint_fits(checkpoint, limits)
        &&& restorable(
            checkpoint.definition,
            limits.book,
            checkpoint.active_orders@,
            checkpoint.accepted_order_ids@,
            checkpoint.next_priority_sequence,
            checkpoint.next_trade_id,
        )
    }

    /// Restores an engine under default finite limits.
    pub fn from_checkpoint(checkpoint: CallAuctionCheckpoint, instance_id: u64) -> (r: Result<
        Self,
        CallAuctionCheckpointError,
    >)
        requires
            checkpoint.definition.wf(),
        ensures
            r matches Err(error) ==> error.worded(),
            checkpoint.refused_early(CallAuctionEngineLimits::standard()) ==> (r matches Err(error)
                && checkpoint.early_error(CallAuctionEngineLimits::standard(), error)),
            match r {
                Ok(engine) => {
                    &&& Self::restorable_under(&checkpoint, engine.limits)
                    &&& engine.wf()
                    &&& engine.audited()
                    &&& engine.restores(&checkpoint)
                    &&& engine.limits == CallAuctionEngineLimits::standard()
                    &&& engine.instance_id == instance_id
                },
                Err(CallAuctionCheckpointError::Construction(error, _)) => construction_error(
                    checkpoint.definition,
                    instance_id,
                    error,
                ),
                Err(CallAuctionCheckpointError::Preparation(..)) => false,
                Err(CallAuctionCheckpointError::Contradiction(detail)) => {
                    &&& !Self::restorable_under(&checkpoint, CallAuctionEngineLimits::standard())
                    &&& checkpoint.refused_for(CallAuctionEngineLimits::standard(), detail@)
                },
            },
    {
        Self::from_checkpoint_with_limits(
            checkpoint,
            CallAuctionEngineLimits::default(),
            instance_id,
        )
    }

    /// Restores a checkpoint under an explicit finite resource policy.
    ///
    /// Success is owed for every consistent checkpoint that the policy and the
    /// definition allow, unless an empty engine cannot be constructed.
    pub fn from_checkpoint_with_limits(
        checkpoint: CallAuctionCheckpoint,
        limits: CallAuctionEngineLimits,
        instance_id: u64,
    ) -> (r: Result<Self, CallAuctionCheckpointError>)
        requires
            checkpoint.definition.wf(),
            limits.wf(),
        ensures
            r matches Err(error) ==> error.worded(),
            checkpoint.refused_early(limits) ==> (r matches Err(error) && checkpoint.early_error(
                limits,
                error,
            )),
            match r {
                Ok(engine) => {
                    &&& Self::restorable_under(&checkpoint, limits)
                    &&& engine.wf()
                    &&& engine.audited()
                    &&& engine.restores(&checkpoint)
                    &&& engine.limits == limits
                    &&& engine.instance_id == instance_id
                },
                Err(CallAuctionCheckpointError::Construction(error, _)) => construction_error(
                    checkpoint.definition,
                    instance_id,
                    error,
                ),
                Err(CallAuctionCheckpointError::Preparation(..)) => false,
                Err(CallAuctionCheckpointError::Contradiction(detail)) => {
                    &&& !Self::restorable_under(&checkpoint, limits)
                    &&& checkpoint.refused_for(limits, detail@)
                },
            },
    {
        match checkpoint.validate() {
            Ok(()) => {},
            Err(error) => {
                return Err(error);
            },
        }
        match validate_call_auction_checkpoint_capacity(&checkpoint, limits) {
            Ok(()) => {},
            Err(error) => {
                return Err(error);
            },
        }
        let engine = Self::try_with_limits(checkpoint.definition, limits, instance_id);
        let book = CallAuctionBook::try_with_limits(
            checkpoint.definition,
            limits.book,
            instance_id,
        );
        Self::from_checkpoint_components(checkpoint, limits, engine, book)
    }

    /// Restores a consistent checkpoint within the bounds of a policy in an
    /// empty engine, whose book gives way to an empty one that takes the captured
    /// orders.
    ///
    /// Where one of the two could not be constructed, its error is returned, that
    /// of the engine first. Otherwise success is owed exactly to a checkpoint whose
    /// orders can be indexed.
    pub fn from_checkpoint_components(
        checkpoint: CallAuctionCheckpoint,
        limits: CallAuctionEngineLimits,
        engine: Result<Self, CallAuctionEngineConstructionError>,
        book: Result<CallAuctionBook, CallAuctionConstructionError>,
    ) -> (r: Result<Self, CallAuctionCheckpointError>)
        requires
            limits.wf(),
            checkpoint.valid(),
            checkpoint_fits(&checkpoint, limits),
            engine matches Ok(engine) ==> {
                &&& engine.wf()
                &&& engine.is_new()
                &&& engine.book.definition == checkpoint.definition
                &&& engine.limits == limits
                &&& engine.reports.reserved >= limits.retained_commands
            },
            book matches Ok(book) ==> {
                &&& book.wf()
                &&& book.is_new()
                &&& book.definition == checkpoint.definition
                &&& book.limits == limits.book
            },
        ensures
            r is Ok <==> engine is Ok && book is Ok && Self::restorable_under(&checkpoint, limits),
            match r {
                Ok(restored) => {
                    &&& restored.wf()
                    &&& restored.audited()
                    &&& restored.restores(&checkpoint)
                    &&& restored.limits == limits
                    &&& restored.instance_id == engine->Ok_0.instance_id
                    &&& restored.book.instance_id == book->Ok_0.instance_id
                    &&& restored.book.uncross_pool.available@.len()
                        == book->Ok_0.uncross_pool.available@.len()
                },
                Err(error) => match (engine, book) {
                    (Err(cause), _) => error matches CallAuctionCheckpointError::Construction(
                        held,
                        detail,
                    ) && held == cause && detail@ == cause.text(),
                    (Ok(_), Err(cause)) => error matches CallAuctionCheckpointError::Construction(
                        held,
                        detail,
                    ) && held == CallAuctionEngineConstructionError::Book(cause) && detail@
                        == cause.text(),
                    (Ok(_), Ok(_)) => restore_fault(
                        checkpoint.definition,
                        limits.book,
                        checkpoint.active_orders@,
                        checkpoint.accepted_order_ids@,
                        checkpoint.next_priority_sequence,
                        checkpoint.next_trade_id,
                    ) matches Some(text) && error.contradicts(text),
                },
            },
    {
        let mut engine = match engine {
            Ok(engine) => engine,
            Err(error) => {
                return Err(CallAuctionCheckpointError::constructing(error));
            },
        };
        let ghost instance_id = engine.instance_id;
        let book = match book {
            Ok(book) => book,
            Err(error) => {
                return Err(CallAuctionCheckpointError::rebuilding(error));
            },
        };
        let ghost empty = book;
        engine.book = match book.restored(
            checkpoint.active_orders.as_slice(),
            checkpoint.accepted_order_ids.as_slice(),
            checkpoint.next_priority_sequence,
            checkpoint.next_trade_id,
            checkpoint.book_revision,
        ) {
            Ok(book) => book,
            Err(CallAuctionRestoreError::Construction(error)) => {
                return Err(CallAuctionCheckpointError::rebuilding(error));
            },
            Err(CallAuctionRestoreError::Contradiction(detail)) => {
                return Err(CallAuctionCheckpointError::new(detail));
            },
        };
        engine.phase = checkpoint.phase.phase;
        engine.phase_revision = checkpoint.phase.revision;
        engine.active_auction_id = checkpoint.phase.active_auction_id;
        engine.last_auction_id = checkpoint.phase.last_auction_id;
        let commands: u64 = checkpoint.history.len() as u64;
        engine.next_command_sequence = commands + 1;
        let ghost history = checkpoint.history@;
        engine.next_event_sequence = if checkpoint.history.len() == 0 {
            1
        } else {
            let last = &checkpoint.history[checkpoint.history.len() - 1];
            let events = last.report.events.as_slice();
            proof {
                assert(entry_audited(history, history.len() - 1));
                assert(events@[events@.len() - 1].sequence == next_event_after(
                    history,
                    (history.len() - 1) as nat,
                ) + events@.len() - 1);
            }
            events[events.len() - 1].sequence + 1
        };
        proof {
            engine.reports.lemma_view();
        }
        let mut index: usize = 0;
        while index < checkpoint.history.len()
            invariant
                keys_distinct(checkpoint.history@),
                checkpoint.history@.len() <= limits.retained_commands,
                engine.reports.wf(),
                engine.reports.maximum == limits.retained_commands,
                engine.reports.reserved >= limits.retained_commands,
                index <= checkpoint.history@.len(),
                engine.reports.entries@.len() == index,
                forall|id: CommandId| #[trigger]
                    engine.reports@.dom().contains(id) ==> engine.reports@[id] < index
                        && checkpoint.history@[engine.reports@[id] as int].command.key() == id,
                forall|i: int|
                    0 <= i < index ==> engine.reports@.dom().contains(
                        (#[trigger] checkpoint.history@[i]).command.key(),
                    ) && engine.reports@[checkpoint.history@[i].command.key()] == i,
                engine.book.wf(),
                engine.book.is_restored(
                    checkpoint.definition,
                    limits.book,
                    checkpoint.active_orders@,
                    checkpoint.accepted_order_ids@,
                ),
                engine.book.next_priority_sequence == checkpoint.next_priority_sequence,
                engine.book.next_trade_id == checkpoint.next_trade_id,
                engine.book.state_revision == checkpoint.book_revision,
                engine.book.instance_id == empty.instance_id,
                engine.book.uncross_pool.available@.len() == empty.uncross_pool.available@.len(),
                engine.phase_state() == checkpoint.phase,
                engine.limits == limits,
                engine.instance_id == instance_id,
                engine.next_command_sequence == checkpoint.history@.len() + 1,
                engine.next_event_sequence == next_event_after(
                    checkpoint.history@,
                    checkpoint.history@.len(),
                ),
            decreases checkpoint.history@.len() - index,
        {
            let key = checkpoint.history[index].command.command_id();
            proof {
                assert(!engine.reports@.dom().contains(key)) by {
                    if engine.reports@.dom().contains(key) {
                        let i = engine.reports@[key] as int;
                        assert(checkpoint.history@[i].command.key()
                            == checkpoint.history@[index as int].command.key());
                    }
                }
            }
            let ghost before = engine.reports@;
            let _ = engine.reports.insert(key, index);
            proof {
                assert forall|i: int| 0 <= i < index + 1 implies engine.reports@.dom().contains(
                    (#[trigger] checkpoint.history@[i]).command.key(),
                ) && engine.reports@[checkpoint.history@[i].command.key()] == i by {
                    if i < index {
                        assert(before.dom().contains(checkpoint.history@[i].command.key()));
                    }
                }
                assert forall|id: CommandId| #[trigger] engine.reports@.dom().contains(
                    id,
                ) implies engine.reports@[id] < index + 1
                    && checkpoint.history@[engine.reports@[id] as int].command.key() == id by {
                    if id != key {
                        assert(before.dom().contains(id));
                    }
                }
            }
            index += 1;
        }
        proof {
            lemma_replayed_coherent(
                history,
                checkpoint.definition.instrument_id,
                checkpoint.definition.version,
                history.len(),
            );
        }
        engine.history = checkpoint.history;
        Ok(engine)
    }

    /// Whether the live state is what the history adds up to.
    pub open spec fn projection_ok(&self) -> bool {
        projected(self.history@, self.book.definition, self.history@.len()) == Some(
            ProjectedState {
                orders: self.book.active(),
                accepted: self.book.accepted(),
                next_priority_sequence: self.book.next_priority_sequence as int,
                next_trade_id: self.book.next_trade_id as int,
                book_revision: self.book.state_revision as int,
            },
        )
    }

    /// A checkpoint holds the live state.
    pub open spec fn captured_by(&self, checkpoint: &CallAuctionCheckpoint) -> bool {
        &&& checkpoint.definition == self.book.definition
        &&& checkpoint.phase == self.phase_state()
        &&& checkpoint.book_revision == self.book.state_revision
        &&& checkpoint.next_priority_sequence == self.book.next_priority_sequence
        &&& checkpoint.next_trade_id == self.book.next_trade_id
        &&& checkpoint.accepted_order_ids@ == self.book.accepted_list()
        &&& checkpoint.active_orders@ == self.book.active_list()
        &&& checkpoint.history@ == self.history@
    }

    /// Captures canonical direct state at one completed report boundary.
    ///
    /// Success is owed exactly to a live state that passes its audit, is what
    /// its history adds up to, and ends at the boundary.
    pub fn checkpoint_state(&self, wal_metadata_sequence: u64, wal_sequence: u64) -> (r: Result<
        CallAuctionCheckpoint,
        CallAuctionCheckpointError,
    >)
        requires
            self.wf(),
        ensures
            match r {
                Ok(checkpoint) => {
                    &&& self.audited()
                    &&& self.projection_ok()
                    &&& boundary_ok(wal_metadata_sequence, wal_sequence, self.history@.len())
                    &&& checkpoint.valid()
                    &&& checkpoint.wal_metadata_sequence == wal_metadata_sequence
                    &&& checkpoint.wal_sequence == wal_sequence
                    &&& self.captured_by(&checkpoint)
                    &&& self.capture_fault(wal_metadata_sequence, wal_sequence) is None
                },
                Err(error) => {
                    &&& error is Contradiction
                    &&& !self.audited() || !self.projection_ok() || !boundary_ok(
                        wal_metadata_sequence,
                        wal_sequence,
                        self.history@.len(),
                    )
                    &&& self.capture_fault(wal_metadata_sequence, wal_sequence) == Some(
                        error.description(),
                    )
                },
            },
    {
        match self.validate() {
            Ok(()) => {},
            Err(error) => {
                return Err(CallAuctionCheckpointError::new(error.detail()));
            },
        }
        let mut history: Vec<CallAuctionCommandReportCheckpoint> = Vec::new();
        while history.len() < self.history.len()
            invariant
                history@.len() <= self.history@.len(),
                history@ == self.history@.take(history@.len() as int),
            decreases self.history@.len() - history@.len(),
        {
            let entry = self.history[history.len()].share();
            proof {
                assert(self.history@.take((history@.len() + 1) as int) =~= self.history@.take(
                    history@.len() as int,
                ).push(self.history@[history@.len() as int]));
            }
            history.push(entry);
        }
        proof {
            assert(self.history@.take(history@.len() as int) =~= self.history@);
            self.lemma_capture_valid();
        }
        CallAuctionCheckpoint::from_parts(
            wal_metadata_sequence,
            wal_sequence,
            self.book.definition,
            self.phase_snapshot(),
            self.book.state_revision,
            self.book.next_priority_sequence,
            self.book.next_trade_id,
            self.book.accepted_order_ids(),
            self.book.active_order_states(),
            history,
        )
    }

    /// The components that a capture collects are consistent exactly when the
    /// live state is what its history adds up to.
    proof fn lemma_capture_valid(&self)
        requires
            self.wf(),
            self.audited(),
        ensures
            chronicle(self.history@, self.book.definition, self.phase_state()),
            self.projection_ok() <==> projects(
                self.history@,
                self.book.definition,
                self.book.state_revision,
                self.book.next_priority_sequence,
                self.book.next_trade_id,
                self.book.accepted_list(),
                self.book.active_list(),
            ),
    {
        let history = self.history@;
        assert forall|i: int, j: int| 0 <= i < j < history.len() implies (
        #[trigger] history[i]).command.key() != (#[trigger] history[j]).command.key() by {
            assert(self.reports@[history[i].command.key()] == i);
            assert(self.reports@[history[j].command.key()] == j);
        }
        let accepted = self.book.accepted_list();
        let active = self.book.active_list();
        let seen = self.book.seen_order_ids;
        seen.lemma_view();
        seen.lemma_ids_listed(accepted);
        assert(ids_ascending(accepted) && accepted.to_set() == self.book.accepted());
        self.book.lemma_listed();
        match projected(history, self.book.definition, history.len()) {
            Some(state) => {
                if lists_orders(active, state.orders, state.orders.dom()) {
                    lemma_listing_is_map(active, state.orders, self.book.active());
                }
            },
            None => {},
        }
    }

    /// The error with which this engine, which retains the pairs before it,
    /// refuses to reproduce one pair: a repeated identity, then what keeps its
    /// command from being prepared, then a gate that its command cannot have or
    /// another report. Storage for the report may be refused before that.
    pub open spec fn refuses_entry(
        &self,
        entry: CallAuctionCommandReportCheckpoint,
        error: CallAuctionCheckpointError,
    ) -> bool {
        let command = entry.command;
        if self.retains(command.key()) {
            if self.retained(command.key()).command == command {
                error.contradicts("auction checkpoint history unexpectedly replays a command"@)
            } else {
                error.cannot_prepare(CallAuctionEngineError::CommandIdCollision(command.key()))
            }
        } else if let Some(cause) = self.prepare_fault(command) {
            error.cannot_prepare(cause)
        } else {
            ||| error.cannot_prepare(
                CallAuctionEngineError::CapacityReservationFailed(
                    CallAuctionEngineCapacity::ReportEvents,
                ),
            )
            ||| error.contradicts(
                if entry.report.outcome.external() is Some && !(command is Submit || command
                    is Replace) {
                    commit_text(CallAuctionEngineError::InternalInvariantViolation)
                } else {
                    "auction checkpoint history diverges under deterministic replay"@
                },
            )
        }
    }

    /// This engine retains the reproducible pairs before one pair of a history
    /// and refuses that pair.
    pub open spec fn refuses_at(
        &self,
        definition: InstrumentDefinition,
        limits: CallAuctionEngineLimits,
        history: Seq<CallAuctionCommandReportCheckpoint>,
        index: int,
        error: CallAuctionCheckpointError,
    ) -> bool {
        &&& 0 <= index < history.len()
        &&& self.consistent()
        &&& self.book.definition == definition
        &&& self.limits == limits
        &&& same_histories(self.history@, history.take(index))
        &&& forall|i: int|
            0 <= i < index ==> #[trigger] Self::entry_reproducible(definition, limits, history, i)
        &&& self.refuses_entry(history[index], error)
    }

    /// The error of a history that is not reproduced: that of its first refused
    /// pair. The pairs before it determine the engine that refuses it.
    pub open spec fn history_refused(
        definition: InstrumentDefinition,
        limits: CallAuctionEngineLimits,
        history: Seq<CallAuctionCommandReportCheckpoint>,
        error: CallAuctionCheckpointError,
    ) -> bool {
        exists|engine: CallAuctionEngine, index: int| #[trigger]
            engine.refuses_at(definition, limits, history, index, error)
    }

    /// Replays one pair of a history whose earlier pairs this engine retains.
    ///
    /// A pair that an engine with this past has made is reproduced, unless
    /// report storage cannot be reserved.
    fn replay_entry(&mut self, history: &[CallAuctionCommandReportCheckpoint], index: usize) -> (r:
        Result<(), CallAuctionCheckpointError>)
        requires
            old(self).consistent(),
            old(self).free_buffers() > 0,
            index < history@.len(),
            same_histories(old(self).history@, history@.take(index as int)),
        ensures
            r matches Err(error) ==> error.worded(),
            ({
                let reproducible = Self::entry_reproducible(
                    old(self).book.definition,
                    old(self).limits,
                    history@,
                    index as int,
                );
                match r {
                    Ok(()) => {
                        &&& reproducible
                        &&& final(self).consistent()
                        &&& final(self).free_buffers() > 0
                        &&& final(self).book.definition == old(self).book.definition
                        &&& final(self).limits == old(self).limits
                        &&& same_histories(final(self).history@, history@.take(index + 1))
                    },
                    Err(CallAuctionCheckpointError::Preparation(error, _)) => !reproducible || error
                        == CallAuctionEngineError::CapacityReservationFailed(
                        CallAuctionEngineCapacity::ReportEvents,
                    ),
                    Err(CallAuctionCheckpointError::Contradiction(_)) => !reproducible,
                    Err(CallAuctionCheckpointError::Construction(..)) => false,
                }
            }),
            r matches Err(error) ==> old(self).refuses_entry(history@[index as int], error),
    {
        let entry = &history[index];
        let ghost before = *self;
        let ghost definition = self.book.definition;
        let ghost reproducible = Self::entry_reproducible(
            definition,
            self.limits,
            history@,
            index as int,
        );
        proof {
            if reproducible {
                self.lemma_replay_succeeds(history@, index as int);
            }
        }
        let prepared = match self.prepare(entry.command) {
            Ok(CallAuctionCommandPreparation::Ready(prepared)) => prepared,
            Ok(CallAuctionCommandPreparation::Replay(_)) => {
                return Err(
                    CallAuctionCheckpointError::new(
                        "auction checkpoint history unexpectedly replays a command",
                    ),
                );
            },
            Err(error) => {
                return Err(CallAuctionCheckpointError::preparing(error));
            },
        };
        let external = entry.report.outcome.external_rejection();
        let ghost middle = *self;
        let ghost action = prepared.action;
        let ghost gated = Self::gated(action, external);
        let reproduced = match self.commit_with_gate(prepared, external) {
            Ok(report) => report,
            Err(rejection) => {
                return Err(CallAuctionCheckpointError::committing(rejection.error));
            },
        };
        proof {
            middle.lemma_lease_frame(&before, gated);
            self.lemma_settled(&middle, &before, entry.command, gated, reproduced);
        }
        if !reproduced.matches(&entry.report) {
            return Err(
                CallAuctionCheckpointError::new(
                    "auction checkpoint history diverges under deterministic replay",
                ),
            );
        }
        proof {
            before.lemma_entry_replayed(self, history@, index as int, action, reproduced);
        }
        Ok(())
    }

    /// An engine that has reproduced one more pair retains one more pair.
    proof fn lemma_entry_replayed(
        &self,
        after: &Self,
        history: Seq<CallAuctionCommandReportCheckpoint>,
        index: int,
        action: PreparedCallAuctionAction,
        report: CallAuctionExecutionReport,
    )
        requires
            self.consistent(),
            after.wf(),
            0 <= index < history.len(),
            same_histories(self.history@, history.take(index)),
            !self.retains(history[index].command.key()),
            self.prepare_fault(history[index].command) is None,
            history[index].report.outcome.external() is Some ==> history[index].command is Submit
                || history[index].command is Replace,
            self.action_matches(history[index].command, action),
            after.settles_from(
                self,
                history[index].command,
                Self::gated(action, history[index].report.outcome.external()),
                report,
            ),
            report.same(&history[index].report),
        ensures
            after.consistent(),
            same_histories(after.history@, history.take(index + 1)),
            Self::entry_reproducible(self.book.definition, self.limits, history, index),
    {
        let entry = history[index];
        let gated = Self::gated(action, entry.report.outcome.external());
        assert(self.gate_matches(entry.command, gated));
        Self::law_command_keeps_audit(self, after, entry.command, gated, report);
        Self::law_command_keeps_projection(self, after, entry.command, gated, report);
        assert(after.reproduces(self, entry));
        assert(self.makes_entry(after, history, index));
        assert forall|i: int| 0 <= i < after.history@.len() implies (
        #[trigger] after.history@[i]).same(&history.take(index + 1)[i]) by {
            if i < index {
                assert(after.history@.drop_last()[i] == after.history@[i]);
                assert(self.history@[i].same(&history.take(index)[i]));
            }
        }
    }

    /// Replays a whole history in this fresh engine.
    ///
    /// A history that an engine of this definition and policy has made is
    /// reproduced, unless report storage cannot be reserved.
    fn replay_history(&mut self, history: &[CallAuctionCommandReportCheckpoint]) -> (r: Result<
        (),
        CallAuctionCheckpointError,
    >)
        requires
            old(self).wf(),
            old(self).is_new(),
            old(self).limits.retained_commands <= old(self).reports.reserved,
            old(self).free_buffers() > 0,
        ensures
            r matches Err(error) ==> error.worded(),
            ({
                let reproducible = Self::reproducible(
                    old(self).book.definition,
                    old(self).limits,
                    history@,
                );
                match r {
                    Ok(()) => {
                        &&& reproducible
                        &&& final(self).consistent()
                        &&& final(self).book.definition == old(self).book.definition
                        &&& final(self).limits == old(self).limits
                        &&& same_histories(final(self).history@, history@)
                    },
                    Err(CallAuctionCheckpointError::Preparation(error, _)) => !reproducible || error
                        == CallAuctionEngineError::CapacityReservationFailed(
                        CallAuctionEngineCapacity::ReportEvents,
                    ),
                    Err(CallAuctionCheckpointError::Contradiction(_)) => !reproducible,
                    Err(CallAuctionCheckpointError::Construction(..)) => false,
                }
            }),
            r matches Err(error) ==> Self::history_refused(
                old(self).book.definition,
                old(self).limits,
                history@,
                error,
            ),
    {
        let ghost definition = self.book.definition;
        let ghost limits = self.limits;
        proof {
            self.law_new_engine_is_audited();
            self.law_new_engine_is_projected();
        }
        let mut index: usize = 0;
        while index < history.len()
            invariant
                self.consistent(),
                self.free_buffers() > 0,
                self.book.definition == definition,
                self.limits == limits,
                definition == old(self).book.definition,
                limits == old(self).limits,
                index <= history@.len(),
                same_histories(self.history@, history@.take(index as int)),
                forall|i: int|
                    0 <= i < index ==> #[trigger] Self::entry_reproducible(
                        definition,
                        limits,
                        history@,
                        i,
                    ),
            decreases history@.len() - index,
        {
            let ghost before = *self;
            match self.replay_entry(history, index) {
                Ok(()) => {},
                Err(error) => {
                    proof {
                        assert(before.refuses_at(
                            definition,
                            limits,
                            history@,
                            index as int,
                            error,
                        ));
                        if Self::reproducible(definition, limits, history@) {
                            assert(Self::entry_reproducible(
                                definition,
                                limits,
                                history@,
                                index as int,
                            ));
                        }
                    }
                    return Err(error);
                },
            }
            index += 1;
        }
        proof {
            assert(history@.take(index as int) =~= history@);
        }
        Ok(())
    }

    /// A capture that ends at a log boundary and whose history is reproducible is
    /// owed.
    pub open spec fn owes_checkpoint(&self, wal_metadata_sequence: u64, wal_sequence: u64) -> bool {
        &&& self.audited()
        &&& self.projection_ok()
        &&& boundary_ok(wal_metadata_sequence, wal_sequence, self.history@.len())
        &&& Self::reproducible(self.book.definition, self.limits, self.history@)
    }

    /// Captures a checkpoint and replays its whole history in a fresh engine.
    ///
    /// Success is owed to every consistent engine that ends at the boundary and
    /// whose history is reproducible. The fresh engine needs storage, so a
    /// capture can fail for want of it.
    pub fn checkpoint(&self, wal_metadata_sequence: u64, wal_sequence: u64, replay_instance_id: u64)
        -> (r: Result<CallAuctionCheckpoint, CallAuctionCheckpointError>)
        requires
            self.wf(),
        ensures
            r matches Err(error) ==> error.worded(),
            self.capture_fault(wal_metadata_sequence, wal_sequence) matches Some(text) ==> (
            r matches Err(error) && error.contradicts(text)),
            ({
                let owed = self.owes_checkpoint(wal_metadata_sequence, wal_sequence);
                match r {
                    Ok(checkpoint) => {
                        &&& owed
                        &&& checkpoint.valid()
                        &&& checkpoint.wal_metadata_sequence == wal_metadata_sequence
                        &&& checkpoint.wal_sequence == wal_sequence
                        &&& self.captured_by(&checkpoint)
                    },
                    Err(CallAuctionCheckpointError::Construction(error, _)) => construction_error(
                        self.book.definition,
                        replay_instance_id,
                        error,
                    ),
                    Err(CallAuctionCheckpointError::Preparation(error, _)) => {
                        &&& !owed || error == CallAuctionEngineError::CapacityReservationFailed(
                            CallAuctionEngineCapacity::ReportEvents,
                        )
                        &&& Self::history_refused(
                            self.book.definition,
                            self.limits,
                            self.history@,
                            r->Err_0,
                        )
                    },
                    Err(CallAuctionCheckpointError::Contradiction(_)) => {
                        &&& !owed
                        &&& self.capture_fault(wal_metadata_sequence, wal_sequence) is None
                            ==> Self::history_refused(
                            self.book.definition,
                            self.limits,
                            self.history@,
                            r->Err_0,
                        )
                    },
                }
            }),
    {
        match self.checkpoint_state(wal_metadata_sequence, wal_sequence) {
            Ok(checkpoint) => {
                let replay = Self::try_with_limits(
                    self.book.definition,
                    self.limits,
                    replay_instance_id,
                );
                self.replayed_checkpoint(checkpoint, replay)
            },
            Err(error) => Err(error),
        }
    }

    /// Replays the whole history of a capture in a fresh engine and hands the
    /// capture out when the replay leads to it.
    ///
    /// Where the fresh engine could not be constructed, its error is returned.
    /// Otherwise success is owed to every capture of a reproducible history,
    /// unless storage for a report is refused.
    pub fn replayed_checkpoint(
        &self,
        checkpoint: CallAuctionCheckpoint,
        replay: Result<Self, CallAuctionEngineConstructionError>,
    ) -> (r: Result<CallAuctionCheckpoint, CallAuctionCheckpointError>)
        requires
            self.consistent(),
            self.captured_by(&checkpoint),
            boundary_ok(
                checkpoint.wal_metadata_sequence,
                checkpoint.wal_sequence,
                self.history@.len(),
            ),
            replay matches Ok(replay) ==> {
                &&& replay.wf()
                &&& replay.is_new()
                &&& replay.book.definition == self.book.definition
                &&& replay.limits == self.limits
                &&& replay.reports.reserved >= self.limits.retained_commands
                &&& replay.free_buffers() > 0
            },
        ensures
            match replay {
                Err(cause) => r matches Err(CallAuctionCheckpointError::Construction(held, detail))
                    && held == cause && detail@ == cause.text(),
                Ok(_) => match r {
                    Ok(given) => {
                        &&& Self::reproducible(self.book.definition, self.limits, self.history@)
                        &&& given == checkpoint
                    },
                    Err(error) => {
                        &&& error.worded()
                        &&& Self::reproducible(self.book.definition, self.limits, self.history@)
                            ==> error.cannot_prepare(
                            CallAuctionEngineError::CapacityReservationFailed(
                                CallAuctionEngineCapacity::ReportEvents,
                            ),
                        )
                        &&& Self::history_refused(
                            self.book.definition,
                            self.limits,
                            self.history@,
                            error,
                        )
                        &&& !(error is Construction)
                    },
                },
            },
    {
        let mut replay = match replay {
            Ok(replay) => replay,
            Err(error) => {
                return Err(CallAuctionCheckpointError::constructing(error));
            },
        };
        match replay.replay_history(checkpoint.history.as_slice()) {
            Ok(()) => {},
            Err(error) => {
                return Err(error);
            },
        }
        proof {
            replay.law_past_determines_state(self);
        }
        let replayed = match replay.checkpoint_state(
            checkpoint.wal_metadata_sequence,
            checkpoint.wal_sequence,
        ) {
            Ok(replayed) => replayed,
            Err(error) => {
                return Err(error);
            },
        };
        proof {
            replay.lemma_same_lists(self);
            assert forall|i: int| 0 <= i < self.history@.len() implies (
            #[trigger] self.history@[i]).same(&replay.history@[i]) by {
                assert(replay.history@[i].same(&self.history@[i]));
            }
        }
        if !same_checkpoint(&replayed, &checkpoint) {
            return Err(
                CallAuctionCheckpointError::new(
                    "auction checkpoint direct state differs from deterministic history replay",
                ),
            );
        }
        Ok(checkpoint)
    }

    /// Equal interest is listed alike.
    pub(crate) proof fn lemma_same_lists(&self, other: &Self)
        requires
            self.wf(),
            other.wf(),
            self.book.agrees(&other.book),
        ensures
            self.book.accepted_list() == other.book.accepted_list(),
            self.book.active_list() == other.book.active_list(),
    {
        self.book.lemma_listed();
        other.book.lemma_listed();
        lemma_listing_unique(
            self.book.active_list(),
            other.book.active_list(),
            self.book.active(),
            self.book.active().dom(),
        );
        let left = self.book.accepted_list();
        let right = other.book.accepted_list();
        self.book.seen_order_ids.lemma_view();
        other.book.seen_order_ids.lemma_view();
        self.book.seen_order_ids.lemma_ids_listed(left);
        other.book.seen_order_ids.lemma_ids_listed(right);
        assert forall|id: OrderId| left.contains(id) <==> right.contains(id) by {
            assert(left.to_set().contains(id) <==> left.contains(id));
            assert(right.to_set().contains(id) <==> right.contains(id));
        }
        lemma_ascending_unique(left, right);
    }
}

/// Compares two checkpoints value by value.
pub(crate) fn same_checkpoint(left: &CallAuctionCheckpoint, right: &CallAuctionCheckpoint) -> (r: bool)
    ensures
        r == (left.succeeds(right) && right.succeeds(left) && left.phase == right.phase
            && left.book_revision == right.book_revision && left.next_priority_sequence
            == right.next_priority_sequence && left.next_trade_id == right.next_trade_id
            && left.accepted_order_ids@ == right.accepted_order_ids@ && left.active_orders@
            == right.active_orders@),
{
    if !left.is_successor_of(right) || !right.is_successor_of(left) || left.phase != right.phase
        || left.book_revision != right.book_revision || left.next_priority_sequence
        != right.next_priority_sequence || left.next_trade_id != right.next_trade_id {
        return false;
    }
    if left.accepted_order_ids.len() != right.accepted_order_ids.len() || left.active_orders.len()
        != right.active_orders.len() {
        return false;
    }
    let mut index: usize = 0;
    while index < left.accepted_order_ids.len()
        invariant
            left.accepted_order_ids@.len() == right.accepted_order_ids@.len(),
            index <= left.accepted_order_ids@.len(),
            forall|i: int|
                0 <= i < index ==> left.accepted_order_ids@[i] == right.accepted_order_ids@[i],
        decreases left.accepted_order_ids@.len() - index,
    {
        if left.accepted_order_ids[index] != right.accepted_order_ids[index] {
            return false;
        }
        index += 1;
    }
    assert(left.accepted_order_ids@ =~= right.accepted_order_ids@);
    let mut position: usize = 0;
    while position < left.active_orders.len()
        invariant
            left.active_orders@.len() == right.active_orders@.len(),
            position <= left.active_orders@.len(),
            forall|i: int| 0 <= i < position ==> left.active_orders@[i] == right.active_orders@[i],
        decreases left.active_orders@.len() - position,
    {
        if left.active_orders[position] != right.active_orders[position] {
            return false;
        }
        position += 1;
    }
    assert(left.active_orders@ =~= right.active_orders@);
    true
}

/// One list cannot hold two different maps.
proof fn lemma_listing_is_map(
    list: Seq<CallAuctionOrderSnapshot>,
    left: Map<OrderId, CallAuctionOrderSnapshot>,
    right: Map<OrderId, CallAuctionOrderSnapshot>,
)
    requires
        lists_orders(list, left, left.dom()),
        lists_orders(list, right, right.dom()),
    ensures
        left == right,
{
    assert forall|id: OrderId| #[trigger] left.dom().contains(id) <==> right.dom().contains(id) by {
        if left.dom().contains(id) {
            let i = choose|i: int| 0 <= i < list.len() && (#[trigger] list[i]).order_id == id;
            assert(right.dom().contains(list[i].order_id));
        }
        if right.dom().contains(id) {
            let i = choose|i: int| 0 <= i < list.len() && (#[trigger] list[i]).order_id == id;
            assert(left.dom().contains(list[i].order_id));
        }
    }
    assert forall|id: OrderId| left.dom().contains(id) implies left[id] == right[id] by {
        let i = choose|i: int| 0 <= i < list.len() && (#[trigger] list[i]).order_id == id;
        assert(left[list[i].order_id] == list[i]);
        assert(right[list[i].order_id] == list[i]);
    }
    assert(left =~= right);
}

} // verus!
