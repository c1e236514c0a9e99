//! Independent audit of book, phase, cache, command sequences and event continuity.

use vstd::prelude::*;

use crate::auction_engine::CallAuctionEngine;
use crate::domain::{CommandId, InstrumentId, InstrumentVersion};
use crate::engine_grammar::{cached_report_grammar_is_valid, report_grammar};
use crate::engine_types::{
    CallAuctionCommandReportCheckpoint, CallAuctionEngineInvariantViolation, CallAuctionEvent,
    CallAuctionPhase, CallAuctionPhaseSnapshot,
};

verus! {

/// Sequence of the first event after the first `count` reports.
pub open spec fn next_event_after(history: Seq<CallAuctionCommandReportCheckpoint>, count: nat) -> int
    decreases count,
{
    if count == 0 {
        1
    } else {
        next_event_after(history, (count - 1) as nat) + history[count - 1].report.events@.len()
    }
}

/// Phase state after the first `count` reports, when they agree with the phase rules.
pub open spec fn replayed_phase(
    history: Seq<CallAuctionCommandReportCheckpoint>,
    instrument_id: InstrumentId,
    instrument_version: InstrumentVersion,
    count: nat,
) -> Option<CallAuctionPhaseSnapshot>
    decreases count,
{
    if count == 0 {
        Some(CallAuctionPhaseSnapshot::genesis())
    } else {
        match replayed_phase(history, instrument_id, instrument_version, (count - 1) as nat) {
            None => None,
            Some(before) => before.observed(
                history[count - 1],
                instrument_id,
                instrument_version,
            ),
        }
    }
}

/// Events of one command with consecutive sequences and its receive time.
pub open spec fn events_of(
    events: Seq<CallAuctionEvent>,
    entry: CallAuctionCommandReportCheckpoint,
    first: int,
) -> bool {
    forall|k: int|
        0 <= k < events.len() ==> (#[trigger] events[k]).sequence == first + k
            && events[k].command_id == entry.command.key() && events[k].occurred_at
            == entry.command.time()
}

/// Whether one retained pair agrees with its position in the history.
pub open spec fn entry_audited(history: Seq<CallAuctionCommandReportCheckpoint>, index: int) -> bool {
    let entry = history[index];
    &&& entry.report.command_id == entry.command.key()
    &&& entry.report.command_sequence == index + 1
    &&& report_grammar(entry)
    &&& events_of(entry.report.events@, entry, next_event_after(history, index as nat))
}

/// Whether every retained pair agrees with its position in the history.
pub open spec fn history_audited(history: Seq<CallAuctionCommandReportCheckpoint>) -> bool {
    forall|i: int| 0 <= i < history.len() ==> #[trigger] entry_audited(history, i)
}

/// Later reports do not change what earlier ones add up to.
pub proof fn lemma_history_prefix(
    shorter: Seq<CallAuctionCommandReportCheckpoint>,
    longer: Seq<CallAuctionCommandReportCheckpoint>,
    instrument_id: InstrumentId,
    instrument_version: InstrumentVersion,
    count: nat,
)
    requires
        count <= shorter.len() <= longer.len(),
        forall|i: int| 0 <= i < shorter.len() ==> #[trigger] shorter[i] == longer[i],
    ensures
        next_event_after(shorter, count) == next_event_after(longer, count),
        replayed_phase(shorter, instrument_id, instrument_version, count) == replayed_phase(
            longer,
            instrument_id,
            instrument_version,
            count,
        ),
    decreases count,
{
    if count > 0 {
        lemma_history_prefix(
            shorter,
            longer,
            instrument_id,
            instrument_version,
            (count - 1) as nat,
        );
        assert(shorter[count - 1] == longer[count - 1]);
    }
}

pub proof fn lemma_next_event_monotone(history: Seq<CallAuctionCommandReportCheckpoint>, few: nat, many: nat)
    requires
        few <= many,
    ensures
        1 <= next_event_after(history, few) <= next_event_after(history, many),
    decreases many,
{
    if few < many {
        lemma_next_event_monotone(history, few, (many - 1) as nat);
    } else if few > 0 {
        lemma_next_event_monotone(history, (few - 1) as nat, (few - 1) as nat);
    }
}

/// The first event from `position` on that is not bound to its command or to the
/// next sequence.
pub open spec fn binding_fault(
    entry: CallAuctionCommandReportCheckpoint,
    first: int,
    position: int,
) -> Option<Seq<char>>
    decreases entry.report.events@.len() - position,
{
    let events = entry.report.events@;
    if position >= events.len() {
        None
    } else if events[position].sequence != first + position || events[position].command_id
        != entry.command.key() || events[position].occurred_at != entry.command.time() {
        Some("auction event trace is noncontiguous or misbound"@)
    } else if first + position >= u64::MAX {
        Some("auction event audit overflow"@)
    } else {
        binding_fault(entry, first, position + 1)
    }
}

/// The first retained pair from `position` on with a foreign report or a trace
/// that its command cannot have.
pub open spec fn grammar_fault(
    history: Seq<CallAuctionCommandReportCheckpoint>,
    position: int,
) -> Option<Seq<char>>
    decreases history.len() - position,
{
    if position >= history.len() {
        None
    } else if history[position].report.command_id != history[position].command.key() {
        Some("auction cache key, command, and report identity disagree"@)
    } else if !report_grammar(history[position]) {
        Some("auction cached report violates command/event grammar"@)
    } else {
        grammar_fault(history, position + 1)
    }
}

/// The first contradiction between a history from `position` on and command
/// sequences, phase rules and event sequences, given the state before it.
pub open spec fn replay_fault(
    history: Seq<CallAuctionCommandReportCheckpoint>,
    instrument_id: InstrumentId,
    instrument_version: InstrumentVersion,
    position: int,
    event: int,
    phase: CallAuctionPhaseSnapshot,
) -> Option<Seq<char>>
    decreases history.len() - position,
{
    if position >= history.len() {
        None
    } else {
        let entry = history[position];
        let observed = phase.observed(entry, instrument_id, instrument_version);
        if entry.report.command_sequence != position + 1 || entry.report.events@[0].command_id
            != entry.report.command_id {
            Some("auction cached report command metadata is inconsistent"@)
        } else if observed is None {
            Some("auction history contradicts controller phase semantics"@)
        } else if binding_fault(entry, event, 0) is Some {
            binding_fault(entry, event, 0)
        } else {
            replay_fault(
                history,
                instrument_id,
                instrument_version,
                position + 1,
                event + entry.report.events@.len(),
                observed->0,
            )
        }
    }
}

impl CallAuctionEngine {
    /// The cache holds as much as it must and no more than it may.
    pub open spec fn cache_ok(&self) -> bool {
        &&& self.index_ok()
        &&& self.limits.retained_commands <= self.reports.reserved
    }

    /// Everything that the offline audit checks.
    pub open spec fn audited(&self) -> bool {
        &&& self.book.audited()
        &&& self.cache_ok()
        &&& self.phase_state().coherent()
        &&& self.next_command_sequence == self.history@.len() + 1
        &&& history_audited(self.history@)
        &&& self.next_event_sequence == next_event_after(self.history@, self.history@.len())
        &&& replayed_phase(
            self.history@,
            self.book.definition.instrument_id,
            self.book.definition.version,
            self.history@.len(),
        ) == Some(self.phase_state())
    }

    /// The cache has its bounds, its reservation and one key for each pair.
    pub open spec fn cache_bounded(&self) -> bool {
        &&& self.reports.wf()
        &&& self.reports.maximum == self.limits.retained_commands
        &&& self.limits.retained_commands <= self.reports.reserved
        &&& self.reports.entries@.len() == self.history@.len()
        &&& self.history@.len() <= self.limits.retained_commands
    }

    /// The first contradiction in the retained history.
    pub open spec fn history_fault(&self) -> Option<Seq<char>> {
        let id = self.book.definition.instrument_id;
        let version = self.book.definition.version;
        let genesis = CallAuctionPhaseSnapshot::genesis();
        let count = self.history@.len();
        if count == u64::MAX {
            Some("auction command count exhausts sequence"@)
        } else if self.next_command_sequence != count + 1 {
            Some("auction command sequence disagrees with retained history"@)
        } else if !self.cache_ok() {
            Some("auction cache key, command, and report identity disagree"@)
        } else if grammar_fault(self.history@, 0) is Some {
            grammar_fault(self.history@, 0)
        } else if replay_fault(self.history@, id, version, 0, 1, genesis) is Some {
            replay_fault(self.history@, id, version, 0, 1, genesis)
        } else if next_event_after(self.history@, count) != self.next_event_sequence {
            Some("auction next event sequence disagrees with retained traces"@)
        } else if replayed_phase(self.history@, id, version, count) != Some(self.phase_state()) {
            Some("auction replayed phase state disagrees with live state"@)
        } else {
            None
        }
    }

    /// The first contradiction that the offline audit meets.
    pub open spec fn audit_fault(&self) -> Option<Seq<char>> {
        if self.book.audit_fault() is Some {
            self.book.audit_fault()
        } else if !self.cache_bounded() {
            Some("auction report cache contradicts configured capacity"@)
        } else if (self.phase == CallAuctionPhase::Closed) != (self.active_auction_id is None) {
            Some("auction phase and active cycle identity disagree"@)
        } else if self.active_auction_id is Some && self.active_auction_id
            != self.last_auction_id {
            Some("active auction identity is not the last started cycle"@)
        } else {
            self.history_fault()
        }
    }

    /// Checks bounds and reservation of the identity index.
    fn validate_cache(&self) -> (r: bool)
        ensures
            r == self.cache_bounded(),
    {
        self.reports.validate() && self.reports.maximum() == self.limits.retained_commands
            && self.reports.allocation_capacity() >= self.limits.retained_commands
            && self.reports.len() == self.history.len() && self.history.len()
            <= self.limits.retained_commands
    }

    /// Checks that the identity index and the history point to each other.
    fn validate_index(&self) -> (r: bool)
        requires
            self.cache_bounded(),
        ensures
            r == self.cache_ok(),
    {
        proof {
            self.reports.lemma_view();
        }
        let mut index: usize = 0;
        while index < self.history.len()
            invariant
                self.reports.wf(),
                index <= self.history@.len(),
                forall|i: int|
                    0 <= i < index ==> self.reports@.dom().contains(
                        (#[trigger] self.history@[i]).command.key(),
                    ) && self.reports@[self.history@[i].command.key()] == i,
            decreases self.history@.len() - index,
        {
            match self.reports.get(self.history[index].command.command_id()) {
                Some(position) => {
                    if position != index {
                        assert(self.reports@[self.history@[index as int].command.key()] != index);
                        return false;
                    }
                },
                None => {
                    assert(!self.reports@.dom().contains(
                        self.history@[index as int].command.key(),
                    ));
                    return false;
                },
            }
            index += 1;
        }
        let mut entry: usize = 0;
        while entry < self.reports.len()
            invariant
                self.reports.wf(),
                entry <= self.reports.entries@.len(),
                forall|e: int|
                    0 <= e < entry ==> (#[trigger] self.reports.entries@[e]).1 < self.history@.len()
                        && self.history@[self.reports.entries@[e].1 as int].command.key()
                        == self.reports.entries@[e].0,
            decreases self.reports.entries@.len() - entry,
        {
            let id = self.reports.key_at(entry);
            let position: usize = self.reports.value_at(entry);
            proof {
                self.reports.lemma_view();
                assert(self.reports@.dom().contains(self.reports.entries@[entry as int].0));
            }
            if position >= self.history.len() || self.history[position].command.command_id() != id {
                return false;
            }
            entry += 1;
        }
        proof {
            assert forall|id: CommandId| #[trigger]
                self.reports@.dom().contains(id) implies self.reports@[id] < self.history@.len()
                && self.history@[self.reports@[id] as int].command.key() == id by {
                let e = choose|e: int|
                    0 <= e < self.reports.entries@.len() && (#[trigger] self.reports.entries@[e]).0
                        == id;
                assert(self.reports@[self.reports.entries@[e].0] == self.reports.entries@[e].1);
            }
        }
        true
    }

    /// Checks identities and grammar of every retained pair.
    fn validate_report_grammar(&self) -> (r: Result<(), CallAuctionEngineInvariantViolation>)
        ensures
            r is Ok <==> forall|i: int|
                0 <= i < self.history@.len() ==> report_grammar(#[trigger] self.history@[i])
                    && self.history@[i].report.command_id == self.history@[i].command.key(),
            match r {
                Ok(_) => grammar_fault(self.history@, 0) is None,
                Err(error) => error is Engine && grammar_fault(self.history@, 0) == Some(
                    error.text(),
                ),
            },
    {
        let mut index: usize = 0;
        while index < self.history.len()
            invariant
                index <= self.history@.len(),
                grammar_fault(self.history@, 0) == grammar_fault(self.history@, index as int),
                forall|i: int|
                    0 <= i < index ==> report_grammar(#[trigger] self.history@[i])
                        && self.history@[i].report.command_id == self.history@[i].command.key(),
            decreases self.history@.len() - index,
        {
            let cached = &self.history[index];
            if cached.report.command_id != cached.command.command_id() {
                assert(self.history@[index as int].report.command_id
                    != self.history@[index as int].command.key());
                return Err(
                    CallAuctionEngineInvariantViolation::new(
                        "auction cache key, command, and report identity disagree",
                    ),
                );
            }
            if !cached_report_grammar_is_valid(cached) {
                assert(!report_grammar(self.history@[index as int]));
                return Err(
                    CallAuctionEngineInvariantViolation::new(
                        "auction cached report violates command/event grammar",
                    ),
                );
            }
            index += 1;
        }
        Ok(())
    }

    /// Checks the events of one retained pair and returns the next event sequence.
    fn validate_events(&self, index: usize, first: u64) -> (r: Result<
        u64,
        CallAuctionEngineInvariantViolation,
    >)
        requires
            index < self.history@.len(),
        ensures
            match r {
                Ok(next) => {
                    &&& binding_fault(self.history@[index as int], first as int, 0) is None
                    &&& events_of(
                        self.history@[index as int].report.events@,
                        self.history@[index as int],
                        first as int,
                    )
                    &&& next == first + self.history@[index as int].report.events@.len()
                },
                Err(error) => {
                    &&& error is Engine
                    &&& binding_fault(self.history@[index as int], first as int, 0) == Some(
                        error.text(),
                    )
                    &&& !events_of(
                        self.history@[index as int].report.events@,
                        self.history@[index as int],
                        first as int,
                    ) || first + self.history@[index as int].report.events@.len() > u64::MAX
                },
            },
    {
        let cached = &self.history[index];
        let events = cached.report.events.as_slice();
        let command_id = cached.command.command_id();
        let received_at = cached.command.received_at();
        let mut expected: u64 = first;
        let mut position: usize = 0;
        while position < events.len()
            invariant
                events@ == self.history@[index as int].report.events@,
                command_id == self.history@[index as int].command.key(),
                received_at == self.history@[index as int].command.time(),
                position <= events@.len(),
                binding_fault(self.history@[index as int], first as int, 0) == binding_fault(
                    self.history@[index as int],
                    first as int,
                    position as int,
                ),
                expected == first + position,
                forall|k: int|
                    0 <= k < position ==> (#[trigger] events@[k]).sequence == first + k
                        && events@[k].command_id == command_id && events@[k].occurred_at
                        == received_at,
            decreases events@.len() - position,
        {
            let event = events[position];
            if event.sequence != expected || event.command_id != command_id || event.occurred_at
                != received_at {
                return Err(
                    CallAuctionEngineInvariantViolation::new(
                        "auction event trace is noncontiguous or misbound",
                    ),
                );
            }
            expected = match expected.checked_add(1) {
                Some(value) => value,
                None => {
                    return Err(
                        CallAuctionEngineInvariantViolation::new("auction event audit overflow"),
                    );
                },
            };
            position += 1;
        }
        Ok(expected)
    }

    /// Replays the retained history against sequences, phase rules and live state.
    fn validate_report_history(&self) -> (r: Result<(), CallAuctionEngineInvariantViolation>)
        requires
            self.cache_bounded(),
        ensures
            match r {
                Ok(_) => self.history_fault() is None,
                Err(error) => error is Engine && self.history_fault() == Some(error.text()),
            },
            r is Ok <==> {
                &&& self.cache_ok()
                &&& self.next_command_sequence == self.history@.len() + 1
                &&& history_audited(self.history@)
                &&& self.next_event_sequence == next_event_after(self.history@, self.history@.len())
                &&& replayed_phase(
                    self.history@,
                    self.book.definition.instrument_id,
                    self.book.definition.version,
                    self.history@.len(),
                ) == Some(self.phase_state())
            },
    {
        let retained: u64 = self.history.len() as u64;
        if retained == u64::MAX {
            return Err(
                CallAuctionEngineInvariantViolation::new("auction command count exhausts sequence"),
            );
        }
        if self.next_command_sequence != retained + 1 {
            return Err(
                CallAuctionEngineInvariantViolation::new(
                    "auction command sequence disagrees with retained history",
                ),
            );
        }
        if !self.validate_index() {
            return Err(
                CallAuctionEngineInvariantViolation::new(
                    "auction cache key, command, and report identity disagree",
                ),
            );
        }
        match self.validate_report_grammar() {
            Err(error) => {
                proof {
                    let i = choose|i: int|
                        0 <= i < self.history@.len() && !(report_grammar(
                            #[trigger] self.history@[i],
                        ) && self.history@[i].report.command_id == self.history@[i].command.key());
                    assert(!entry_audited(self.history@, i));
                }
                return Err(error);
            },
            Ok(()) => {},
        }
        let instrument_id = self.book.definition.instrument_id;
        let instrument_version = self.book.definition.version;
        let ghost genesis = CallAuctionPhaseSnapshot::genesis();
        let mut audit = CallAuctionPhaseSnapshot::default();
        let mut expected_event: u64 = 1;
        let mut index: usize = 0;
        while index < self.history.len()
            invariant
                index <= self.history@.len(),
                self.history@.len() < u64::MAX,
                self.next_command_sequence == self.history@.len() + 1,
                self.cache_ok(),
                genesis == CallAuctionPhaseSnapshot::genesis(),
                grammar_fault(self.history@, 0) is None,
                replay_fault(self.history@, instrument_id, instrument_version, 0, 1, genesis)
                    == replay_fault(
                    self.history@,
                    instrument_id,
                    instrument_version,
                    index as int,
                    expected_event as int,
                    audit,
                ),
                instrument_id == self.book.definition.instrument_id,
                instrument_version == self.book.definition.version,
                forall|i: int|
                    0 <= i < self.history@.len() ==> report_grammar(#[trigger] self.history@[i])
                        && self.history@[i].report.command_id == self.history@[i].command.key(),
                forall|i: int| 0 <= i < index ==> #[trigger] entry_audited(self.history@, i),
                expected_event == next_event_after(self.history@, index as nat),
                replayed_phase(self.history@, instrument_id, instrument_version, index as nat)
                    == Some(audit),
            decreases self.history@.len() - index,
        {
            let cached = &self.history[index];
            assert(report_grammar(self.history@[index as int]));
            if cached.report.command_sequence != index as u64 + 1
                || cached.report.events.as_slice()[0].command_id != cached.report.command_id {
                assert(!entry_audited(self.history@, index as int));
                return Err(
                    CallAuctionEngineInvariantViolation::new(
                        "auction cached report command metadata is inconsistent",
                    ),
                );
            }
            if !audit.observe(cached, instrument_id, instrument_version) {
                proof {
                    lemma_replay_stops(
                        self.history@,
                        instrument_id,
                        instrument_version,
                        index as nat + 1,
                        self.history@.len(),
                    );
                }
                return Err(
                    CallAuctionEngineInvariantViolation::new(
                        "auction history contradicts controller phase semantics",
                    ),
                );
            }
            expected_event = match self.validate_events(index, expected_event) {
                Ok(next) => next,
                Err(error) => {
                    proof {
                        lemma_next_event_monotone(
                            self.history@,
                            index as nat + 1,
                            self.history@.len(),
                        );
                        if events_of(
                            self.history@[index as int].report.events@,
                            self.history@[index as int],
                            expected_event as int,
                        ) {
                            assert(next_event_after(self.history@, self.history@.len()) > u64::MAX);
                        } else {
                            assert(!entry_audited(self.history@, index as int));
                        }
                    }
                    return Err(error);
                },
            };
            assert(entry_audited(self.history@, index as int));
            index += 1;
        }
        if expected_event != self.next_event_sequence {
            return Err(
                CallAuctionEngineInvariantViolation::new(
                    "auction next event sequence disagrees with retained traces",
                ),
            );
        }
        if audit != self.phase_snapshot() {
            return Err(
                CallAuctionEngineInvariantViolation::new(
                    "auction replayed phase state disagrees with live state",
                ),
            );
        }
        Ok(())
    }

    /// Audits book, phase, cache, command sequences and event continuity.
    pub fn validate(&self) -> (r: Result<(), CallAuctionEngineInvariantViolation>)
        requires
            self.book.config_ok(),
        ensures
            r is Ok <==> self.audited(),
            match r {
                Ok(_) => self.audit_fault() is None,
                Err(error) => {
                    &&& error is Book <==> self.book.audit_fault() is Some
                    &&& self.audit_fault() == Some(error.text())
                },
            },
    {
        match self.book.validate() {
            Ok(()) => {},
            Err(error) => {
                return Err(CallAuctionEngineInvariantViolation::Book(error));
            },
        }
        if !self.validate_cache() {
            return Err(
                CallAuctionEngineInvariantViolation::new(
                    "auction report cache contradicts configured capacity",
                ),
            );
        }
        if (self.phase == CallAuctionPhase::Closed) != self.active_auction_id.is_none() {
            return Err(
                CallAuctionEngineInvariantViolation::new(
                    "auction phase and active cycle identity disagree",
                ),
            );
        }
        if self.active_auction_id.is_some() && self.active_auction_id != self.last_auction_id {
            return Err(
                CallAuctionEngineInvariantViolation::new(
                    "active auction identity is not the last started cycle",
                ),
            );
        }
        self.validate_report_history()
    }
}

/// A history that contradicts the phase rules stays contradictory.
pub proof fn lemma_replay_stops(
    history: Seq<CallAuctionCommandReportCheckpoint>,
    instrument_id: InstrumentId,
    instrument_version: InstrumentVersion,
    few: nat,
    many: nat,
)
    requires
        few <= many,
        replayed_phase(history, instrument_id, instrument_version, few) is None,
    ensures
        replayed_phase(history, instrument_id, instrument_version, many) is None,
    decreases many,
{
    if few < many {
        lemma_replay_stops(history, instrument_id, instrument_version, few, (many - 1) as nat);
    }
}

} // verus!
