//! Deterministic replay: engines with equal pasts make the same of a command.

use vstd::prelude::*;

use crate::auction_engine::{uncross_kinds, CallAuctionEngine, PreparedCallAuctionAction};
use crate::domain::{CommandId, InstrumentId, InstrumentVersion};
use crate::engine_audit::{next_event_after, replayed_phase};
use crate::engine_projection::projected;
use crate::engine_types::{
    CallAuctionCommand, CallAuctionCommandReportCheckpoint, CallAuctionEngineLimits,
    CallAuctionExecutionReport, CallAuctionRejectReason, CallAuctionUncrossCommand,
};
use crate::instrument::InstrumentDefinition;

verus! {

/// Two histories hold equal pairs in equal order.
pub open spec fn same_histories(
    left: Seq<CallAuctionCommandReportCheckpoint>,
    right: Seq<CallAuctionCommandReportCheckpoint>,
) -> bool {
    &&& left.len() == right.len()
    &&& forall|i: int| 0 <= i < left.len() ==> (#[trigger] left[i]).same(&right[i])
}

/// Equal histories add up to equal states.
pub proof fn lemma_same_histories(
    left: Seq<CallAuctionCommandReportCheckpoint>,
    right: Seq<CallAuctionCommandReportCheckpoint>,
    definition: InstrumentDefinition,
    instrument_id: InstrumentId,
    instrument_version: InstrumentVersion,
    count: nat,
)
    requires
        same_histories(left, right),
        count <= left.len(),
    ensures
        projected(left, definition, count) == projected(right, definition, count),
        replayed_phase(left, instrument_id, instrument_version, count) == replayed_phase(
            right,
            instrument_id,
            instrument_version,
            count,
        ),
        next_event_after(left, count) == next_event_after(right, count),
    decreases count,
{
    if count > 0 {
        lemma_same_histories(
            left,
            right,
            definition,
            instrument_id,
            instrument_version,
            (count - 1) as nat,
        );
        assert(left[count - 1].same(&right[count - 1]));
    }
}

impl CallAuctionEngine {
    /// Two engines of one definition and policy retain equal histories.
    pub open spec fn shares_past(&self, other: &Self) -> bool {
        &&& self.book.definition == other.book.definition
        &&& self.limits == other.limits
        &&& same_histories(self.history@, other.history@)
    }

    /// The engine is consistent with its own past.
    pub open spec fn consistent(&self) -> bool {
        &&& self.wf()
        &&& self.audited()
        &&& self.projection_ok()
    }

    /// Engines with equal pasts hold equal state: a consistent engine is
    /// determined by its definition, its policy and its history.
    pub proof fn law_past_determines_state(&self, other: &Self)
        requires
            self.consistent(),
            other.consistent(),
            self.shares_past(other),
        ensures
            self.book.agrees(&other.book),
            self.phase_state() == other.phase_state(),
            self.next_command_sequence == other.next_command_sequence,
            self.next_event_sequence == other.next_event_sequence,
            forall|id: CommandId| #[trigger] self.retains(id) <==> other.retains(id),
    {
        lemma_same_histories(
            self.history@,
            other.history@,
            self.book.definition,
            self.book.definition.instrument_id,
            self.book.definition.version,
            self.history@.len(),
        );
        assert forall|id: CommandId| #[trigger] self.retains(id) <==> other.retains(id) by {
            if self.retains(id) {
                let i = self.reports@[id] as int;
                assert(self.history@[i].same(&other.history@[i]));
                assert(other.retains(other.history@[i].command.key()));
            }
            if other.retains(id) {
                let i = other.reports@[id] as int;
                assert(self.history@[i].same(&other.history@[i]));
                assert(self.retains(self.history@[i].command.key()));
            }
        }
    }

    /// Two engines hold equal state.
    pub open spec fn shares_state(&self, other: &Self) -> bool {
        &&& self.limits == other.limits
        &&& self.book.agrees(&other.book)
        &&& self.phase_state() == other.phase_state()
        &&& self.next_command_sequence == other.next_command_sequence
        &&& self.next_event_sequence == other.next_event_sequence
        &&& self.history@.len() == other.history@.len()
    }

    /// A command that one engine can prepare is decided alike by an engine with
    /// equal state and a free buffer set, which can prepare it too.
    pub proof fn lemma_same_decision(&self, other: &Self, command: CallAuctionCommand)
        requires
            self.wf(),
            other.wf(),
            self.shares_state(other),
            self.prepare_fault(command) is None,
            other.free_buffers() > 0,
        ensures
            self.decide(command) == other.decide(command),
            self.uncross_plans_agree(other),
            other.prepare_fault(command) is None,
    {
        let left = self.book;
        let right = other.book;
        left.lemma_same_clearing(&right);
        match command {
            CallAuctionCommand::Submit(submit) => {
                left.lemma_same_admission(&right, submit.order);
            },
            CallAuctionCommand::MassCancel(cancel) => {
                left.lemma_same_selection(&right, cancel.account_id, cancel.scope);
            },
            CallAuctionCommand::Replace(replace) => {
                left.lemma_same_replacement(
                    &right,
                    replace.account_id,
                    replace.target_order_id,
                    replace.replacement,
                );
            },
            _ => {},
        }
    }

    /// Both engines would clear an uncross alike.
    pub open spec fn uncross_plans_agree(&self, other: &Self) -> bool {
        forall|uncross: CallAuctionUncrossCommand| #[trigger]
            self.uncross_clearing(uncross) == other.uncross_clearing(uncross)
    }

    /// Engines with equal state emit equal events for a command.
    pub proof fn lemma_same_events(
        &self,
        other: &Self,
        command: CallAuctionCommand,
        action: PreparedCallAuctionAction,
        twin: PreparedCallAuctionAction,
        external: Option<CallAuctionRejectReason>,
    )
        requires
            self.wf(),
            other.wf(),
            self.shares_state(other),
            self.decide(command) == other.decide(command),
            self.uncross_plans_agree(other),
            self.action_matches(command, action),
            other.action_matches(command, twin),
        ensures
            self.action_kinds(Self::gated(action, external)) == other.action_kinds(
                Self::gated(twin, external),
            ),
            Self::gated(action, external).outcome() == Self::gated(twin, external).outcome(),
    {
        match command {
            CallAuctionCommand::MassCancel(cancel) => {
                self.book.lemma_same_selection(&other.book, cancel.account_id, cancel.scope);
            },
            CallAuctionCommand::Uncross(uncross) => {
                assert(self.uncross_clearing(uncross) == other.uncross_clearing(uncross));
                match (action, twin) {
                    (
                        PreparedCallAuctionAction::Uncross { auction_id, phase_revision, prepared },
                        PreparedCallAuctionAction::Uncross { prepared: other_prepared, .. },
                    ) => {
                        assert(prepared.buffers.trades@ == other_prepared.buffers.trades@);
                        assert(prepared.buffers.cancellations@
                            == other_prepared.buffers.cancellations@);
                        assert(uncross_kinds(auction_id, phase_revision, prepared)
                            =~= uncross_kinds(auction_id, phase_revision, other_prepared));
                    },
                    _ => {},
                }
            },
            _ => {},
        }
    }

    /// One replayed command reproduces its retained report.
    pub open spec fn reproduces(
        &self,
        old: &Self,
        entry: CallAuctionCommandReportCheckpoint,
    ) -> bool {
        exists|action: PreparedCallAuctionAction, report: CallAuctionExecutionReport|
            {
                &&& #[trigger] old.action_matches(entry.command, action)
                &&& #[trigger] self.settles_from(
                    old,
                    entry.command,
                    Self::gated(action, entry.report.outcome.external()),
                    report,
                )
                &&& report.same(&entry.report)
            }
    }

    /// One pair of a history is what this engine, which retains the pairs before
    /// it, makes of its command, and `after` is the engine afterwards.
    pub open spec fn makes_entry(
        &self,
        after: &Self,
        history: Seq<CallAuctionCommandReportCheckpoint>,
        index: int,
    ) -> bool {
        let entry = history[index];
        &&& self.consistent()
        &&& same_histories(self.history@, history.take(index))
        &&& !self.retains(entry.command.key())
        &&& self.prepare_fault(entry.command) is None
        &&& entry.report.outcome.external() is Some ==> entry.command is Submit
            || entry.command is Replace
        &&& after.reproduces(self, entry)
    }

    /// An engine of this definition and policy that retains the pairs before one
    /// pair of a history makes that pair.
    pub open spec fn entry_reproducible(
        definition: InstrumentDefinition,
        limits: CallAuctionEngineLimits,
        history: Seq<CallAuctionCommandReportCheckpoint>,
        index: int,
    ) -> bool {
        exists|before: CallAuctionEngine, after: CallAuctionEngine|
            before.book.definition == definition && before.limits == limits
                && #[trigger] before.makes_entry(&after, history, index)
    }

    /// Replaying a history reproduces every one of its reports.
    pub open spec fn reproducible(
        definition: InstrumentDefinition,
        limits: CallAuctionEngineLimits,
        history: Seq<CallAuctionCommandReportCheckpoint>,
    ) -> bool {
        forall|i: int|
            0 <= i < history.len() ==> #[trigger] Self::entry_reproducible(
                definition,
                limits,
                history,
                i,
            )
    }

    /// A reproducible pair is reproduced by every consistent engine with the
    /// same past and a free buffer set: it can prepare and commit the command,
    /// whatever transition it prepares, and its report equals the retained one.
    pub(crate) proof fn lemma_replay_succeeds(
        &self,
        history: Seq<CallAuctionCommandReportCheckpoint>,
        index: int,
    )
        requires
            self.consistent(),
            self.free_buffers() > 0,
            0 <= index < history.len(),
            same_histories(self.history@, history.take(index)),
            Self::entry_reproducible(self.book.definition, self.limits, history, index),
        ensures
            !self.retains(history[index].command.key()),
            self.prepare_fault(history[index].command) is None,
            history[index].report.outcome.external() is Some ==> history[index].command is Submit
                || history[index].command is Replace,
            forall|
                after: CallAuctionEngine,
                action: PreparedCallAuctionAction,
                report: CallAuctionExecutionReport,
            |
                self.action_matches(history[index].command, action) && #[trigger] after.settles_from(
                    self,
                    history[index].command,
                    Self::gated(action, history[index].report.outcome.external()),
                    report,
                ) ==> report.same(&history[index].report),
    {
        let entry = history[index];
        let external = entry.report.outcome.external();
        let (before, made) = choose|before: CallAuctionEngine, made: CallAuctionEngine|
            before.book.definition == self.book.definition && before.limits == self.limits
                && #[trigger] before.makes_entry(&made, history, index);
        assert forall|i: int| 0 <= i < before.history@.len() implies (
        #[trigger] before.history@[i]).same(&self.history@[i]) by {
            assert(self.history@[i].same(&history.take(index)[i]));
        }
        before.law_past_determines_state(self);
        before.lemma_same_decision(self, entry.command);
        let (twin, original) = choose|
            twin: PreparedCallAuctionAction,
            original: CallAuctionExecutionReport,
        |
            {
                &&& #[trigger] before.action_matches(entry.command, twin)
                &&& #[trigger] made.settles_from(
                    &before,
                    entry.command,
                    Self::gated(twin, external),
                    original,
                )
                &&& original.same(&entry.report)
            };
        assert forall|
            after: CallAuctionEngine,
            action: PreparedCallAuctionAction,
            report: CallAuctionExecutionReport,
        |
            self.action_matches(entry.command, action) && #[trigger] after.settles_from(
                self,
                entry.command,
                Self::gated(action, external),
                report,
            ) implies report.same(&entry.report) by {
            before.lemma_same_events(self, entry.command, twin, action, external);
        }
    }

    /// A history that a consistent engine lengthens by one command stays
    /// reproducible: what an engine retains can be replayed.
    pub proof fn law_command_keeps_reproducible(
        old: &Self,
        new: &Self,
        command: CallAuctionCommand,
        action: PreparedCallAuctionAction,
        external: Option<CallAuctionRejectReason>,
        report: CallAuctionExecutionReport,
    )
        requires
            old.consistent(),
            !old.retains(command.key()),
            old.prepare_fault(command) is None,
            old.action_matches(command, action),
            external matches Some(reason) ==> reason.is_risk() && (command is Submit
                || command is Replace),
            new.settles_from(old, command, Self::gated(action, external), report),
            Self::reproducible(old.book.definition, old.limits, old.history@),
        ensures
            Self::reproducible(new.book.definition, new.limits, new.history@),
    {
        let definition = old.book.definition;
        let limits = old.limits;
        let before = old.history@;
        let after = new.history@;
        assert forall|i: int| 0 <= i < before.len() implies #[trigger] before[i] == after[i] by {
            assert(after.drop_last()[i] == after[i]);
        }
        assert forall|i: int| 0 <= i < after.len() implies #[trigger] Self::entry_reproducible(
            definition,
            limits,
            after,
            i,
        ) by {
            if i < before.len() {
                assert(Self::entry_reproducible(definition, limits, before, i));
                let (b, a) = choose|b: CallAuctionEngine, a: CallAuctionEngine|
                    b.book.definition == definition && b.limits == limits
                        && #[trigger] b.makes_entry(&a, before, i);
                assert(before.take(i) =~= after.take(i));
                assert(before[i] == after[i]);
                assert(b.makes_entry(&a, after, i));
            } else {
                let entry = after[i];
                assert(entry == after.last());
                assert(after.take(i) =~= before);
                assert(report.same(&entry.report));
                let gate = entry.report.outcome.external();
                assert(Self::gated(action, gate) == Self::gated(action, external));
                assert(new.reproduces(old, entry));
                assert(old.makes_entry(new, after, i));
            }
        }
    }

    /// The empty history of a fresh engine is reproducible.
    pub proof fn law_new_engine_is_reproducible(&self)
        requires
            self.is_new(),
        ensures
            Self::reproducible(self.book.definition, self.limits, self.history@),
    {
    }
}

} // verus!
