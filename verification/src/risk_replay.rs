//! Deterministic coupled replay: shards with equal profiles and equal pasts
//! hold equal ledgers and make the same of a command.

use vstd::prelude::*;

use crate::auction_engine::{CallAuctionEngine, PreparedCallAuctionAction};
use crate::auction_risk::{
    account_balanced, account_list, notionals, reserved_by, side_lots, CallAuctionRiskAccount,
    CallAuctionRiskEngine, CallAuctionRiskLimits,
};
use crate::book_agreement::lemma_sum_permuted;
use crate::domain::{AccountId, OrderId, Side};
use crate::engine_replay::same_histories;
use crate::engine_types::{
    CallAuctionCommand, CallAuctionCommandOutcome, CallAuctionCommandReportCheckpoint,
    CallAuctionExecutionReport,
};
use crate::instrument::InstrumentDefinition;
use crate::risk::RiskProfile;
use crate::risk_apply::executed_in;
use crate::risk_managed::CallAuctionRiskManagedEngine;

verus! {

/// Lots by which the first `count` retained commands moved a position.
pub open spec fn net_executed(
    history: Seq<CallAuctionCommandReportCheckpoint>,
    count: nat,
    account: AccountId,
) -> int
    decreases count,
{
    if count == 0 {
        0
    } else {
        let report = history[count - 1].report;
        let events = report.events@;
        net_executed(history, (count - 1) as nat, account) + if report.outcome
            == CallAuctionCommandOutcome::Accepted {
            executed_in(events, events.len(), account, Side::Buy) - executed_in(
                events,
                events.len(),
                account,
                Side::Sell,
            )
        } else {
            0
        }
    }
}

/// Equal histories move positions alike.
pub proof fn lemma_same_net(
    left: Seq<CallAuctionCommandReportCheckpoint>,
    right: Seq<CallAuctionCommandReportCheckpoint>,
    count: nat,
    account: AccountId,
)
    requires
        count <= left.len(),
        count <= right.len(),
        forall|i: int| 0 <= i < count ==> (#[trigger] left[i]).same(&right[i]),
    ensures
        net_executed(left, count, account) == net_executed(right, count, account),
    decreases count,
{
    if count > 0 {
        lemma_same_net(left, right, (count - 1) as nat, account);
        assert(left[count - 1].same(&right[count - 1]));
    }
}

impl CallAuctionRiskEngine {
    /// Registered profiles.
    pub open spec fn profiles(&self) -> Map<AccountId, RiskProfile> {
        self.accounts@.map_values(|account: CallAuctionRiskAccount| account.profile)
    }

    /// Equal reservations give an account equal open exposure.
    proof fn lemma_same_exposure(&self, other: &Self, id: AccountId)
        requires
            self.ledger_ok(),
            other.ledger_ok(),
            self.reserved() == other.reserved(),
            self.accounts@.dom().contains(id),
            other.accounts@.dom().contains(id),
        ensures
            ({
                let left = self.accounts@[id].exposure;
                let right = other.accounts@[id].exposure;
                &&& left.open_orders == right.open_orders
                &&& left.open_buy_lots == right.open_buy_lots
                &&& left.open_sell_lots == right.open_sell_lots
                &&& left.open_notional == right.open_notional
            }),
    {
        let table = self.reservations@;
        let twin = other.reservations@;
        assert(account_balanced(table, id, self.accounts@[id]));
        assert(account_balanced(twin, id, other.accounts@[id]));
        reveal(account_balanced);
        let left = account_list(table, self.accounts@[id]);
        let right = account_list(twin, other.accounts@[id]);
        assert forall|order: OrderId| #[trigger] table.dom().contains(order)
            <==> twin.dom().contains(order) by {
            assert(self.reserved().dom().contains(order) <==> table.dom().contains(order));
            assert(other.reserved().dom().contains(order) <==> twin.dom().contains(order));
        }
        assert forall|order: OrderId| #[trigger] table.dom().contains(order) implies table[order].snapshot
            == twin[order].snapshot by {
            assert(self.reserved()[order] == table[order].snapshot);
            assert(twin.dom().contains(order));
            assert(other.reserved()[order] == twin[order].snapshot);
        }
        assert forall|order: OrderId| #[trigger] reserved_by(table, id).contains(order)
            <==> reserved_by(twin, id).contains(order) by {
            assert(table.dom().contains(order) <==> twin.dom().contains(order));
        }
        assert forall|order: OrderId| left.contains(order) <==> right.contains(order) by {
            assert(reserved_by(table, id).contains(order) <==> reserved_by(twin, id).contains(
                order,
            ));
            if left.contains(order) {
                let i = choose|i: int| 0 <= i < left.len() && left[i] == order;
                assert(reserved_by(table, id).contains(left[i]));
            }
            if right.contains(order) {
                let i = choose|i: int| 0 <= i < right.len() && right[i] == order;
                assert(reserved_by(twin, id).contains(right[i]));
            }
        }
        assert forall|i: int| 0 <= i < left.len() implies table.dom().contains(
            #[trigger] left[i],
        ) && twin.dom().contains(left[i]) && table[left[i]].snapshot == twin[left[i]].snapshot by {
            assert(reserved_by(table, id).contains(left[i]));
        }
        lemma_sum_permuted(side_lots(table, Side::Buy), side_lots(twin, Side::Buy), left, right);
        lemma_sum_permuted(side_lots(table, Side::Sell), side_lots(twin, Side::Sell), left, right);
        lemma_sum_permuted(notionals(table), notionals(twin), left, right);
    }
}

impl CallAuctionRiskManagedEngine {
    /// Every position is the initial one, moved by the retained trades.
    pub open spec fn positions_ok(&self) -> bool {
        forall|id: AccountId| #[trigger]
            self.risk.accounts@.dom().contains(id) ==> {
                let account = self.risk.accounts@[id];
                account.exposure.position_lots == account.profile.initial_position_lots
                    + net_executed(self.engine.history@, self.engine.history@.len(), id)
            }
    }

    /// The shard is consistent with its own past.
    pub open spec fn consistent(&self) -> bool {
        &&& self.wf()
        &&& self.engine.consistent()
        &&& self.positions_ok()
    }

    /// Two shards of one policy registered equal profiles and retain equal
    /// histories.
    pub open spec fn shares_past(&self, other: &Self) -> bool {
        &&& self.limits == other.limits
        &&& self.engine.shares_past(&other.engine)
        &&& self.risk.profiles() == other.risk.profiles()
    }

    /// Shards with equal pasts hold equal state: collection, ledger and all
    /// that risk decides on.
    pub proof fn law_past_determines_ledger(&self, other: &Self)
        requires
            self.consistent(),
            other.consistent(),
            self.shares_past(other),
        ensures
            self.engine.shares_state(&other.engine),
            self.risk.reserved() == other.risk.reserved(),
            self.risk.accounts@.dom() == other.risk.accounts@.dom(),
            forall|id: AccountId| #[trigger]
                self.risk.accounts@.dom().contains(id) ==> {
                    &&& self.risk.accounts@[id].profile == other.risk.accounts@[id].profile
                    &&& self.risk.accounts@[id].exposure == other.risk.accounts@[id].exposure
                },
            forall|command: CallAuctionCommand|
                self.engine.decide(command) is Ok && self.engine.decide(command)->Ok_0 is None
                    ==> #[trigger] self.risk.refusal(command) == other.risk.refusal(command),
    {
        self.engine.law_past_determines_state(&other.engine);
        assert(self.risk.reserved() == other.risk.reserved());
        assert(self.risk.profiles().dom() =~= self.risk.accounts@.dom());
        assert(other.risk.profiles().dom() =~= other.risk.accounts@.dom());
        assert forall|id: AccountId| #[trigger] self.risk.accounts@.dom().contains(id) implies {
            &&& self.risk.accounts@[id].profile == other.risk.accounts@[id].profile
            &&& self.risk.accounts@[id].exposure == other.risk.accounts@[id].exposure
        } by {
            assert(self.risk.profiles()[id] == self.risk.accounts@[id].profile);
            assert(other.risk.accounts@.dom().contains(id));
            assert(other.risk.profiles()[id] == other.risk.accounts@[id].profile);
            self.risk.lemma_same_exposure(&other.risk, id);
            lemma_same_net(
                self.engine.history@,
                other.engine.history@,
                self.engine.history@.len(),
                id,
            );
        }
        assert forall|command: CallAuctionCommand|
            self.engine.decide(command) is Ok && self.engine.decide(command)->Ok_0
                is None implies #[trigger] self.risk.refusal(command) == other.risk.refusal(
            command,
        ) by {
            match command {
                CallAuctionCommand::Submit(submit) => {
                    let id = submit.order.account_id;
                    assert(self.risk.accounts@.dom().contains(id)
                        <==> other.risk.accounts@.dom().contains(id));
                },
                CallAuctionCommand::Replace(replace) => {
                    let id = replace.account_id;
                    assert(self.risk.accounts@.dom().contains(id)
                        <==> other.risk.accounts@.dom().contains(id));
                },
                _ => {},
            }
        }
    }

    /// A command that is sequenced keeps every position accounted for.
    pub proof fn law_command_keeps_positions(
        old: &Self,
        new: &Self,
        command: CallAuctionCommand,
        report: CallAuctionExecutionReport,
    )
        requires
            old.positions_ok(),
            new.engine.submits_gated(&old.engine, command, old.risk.refusal(command), report),
            if report.outcome == CallAuctionCommandOutcome::Accepted {
                new.risk.follows(&old.risk, new.engine.book.active(), report.events@)
            } else {
                new.risk == old.risk
            },
        ensures
            new.positions_ok(),
            new.risk.profiles() == old.risk.profiles(),
    {
        let before = old.engine.history@;
        let after = new.engine.history@;
        assert forall|i: int| 0 <= i < before.len() implies #[trigger] after[i] == before[i] by {
            assert(after.drop_last()[i] == after[i]);
        }
        assert forall|i: int| 0 <= i < before.len() implies (#[trigger] after[i]).same(
            &before[i],
        ) by {}
        assert(new.risk.accounts@.dom() =~= old.risk.accounts@.dom());
        assert forall|id: AccountId| #[trigger] new.risk.accounts@.dom().contains(id) implies {
            let account = new.risk.accounts@[id];
            account.exposure.position_lots == account.profile.initial_position_lots + net_executed(
                after,
                after.len(),
                id,
            )
        } by {
            assert(old.risk.accounts@.dom().contains(id));
            lemma_same_net(after, before, before.len(), id);
            assert(after[before.len() as int] == after.last());
        }
        assert(new.risk.profiles() =~= old.risk.profiles());
    }

    /// One replayed command reproduces its retained report.
    pub open spec fn reproduces(
        &self,
        old: &Self,
        entry: CallAuctionCommandReportCheckpoint,
    ) -> bool {
        exists|report: CallAuctionExecutionReport|
            {
                &&& #[trigger] self.engine.submits_gated(
                    &old.engine,
                    entry.command,
                    old.risk.refusal(entry.command),
                    report,
                )
                &&& report.same(&entry.report)
            }
    }

    /// One pair of a history is what this shard, which retains the pairs before
    /// it, makes of its command, and `after` is the shard afterwards.
    pub open spec fn makes_entry(
        &self,
        after: &Self,
        history: Seq<CallAuctionCommandReportCheckpoint>,
        index: int,
    ) -> bool {
        let entry = history[index];
        &&& self.consistent()
        &&& same_histories(self.engine.history@, history.take(index))
        &&& !self.engine.retains(entry.command.key())
        &&& self.engine.prepare_fault(entry.command) is None
        &&& after.reproduces(self, entry)
    }

    /// A shard of this definition and policy with these profiles that retains
    /// the pairs before one pair of a history makes that pair.
    pub open spec fn entry_reproducible(
        definition: InstrumentDefinition,
        limits: CallAuctionRiskLimits,
        profiles: Map<AccountId, RiskProfile>,
        history: Seq<CallAuctionCommandReportCheckpoint>,
        index: int,
    ) -> bool {
        exists|before: CallAuctionRiskManagedEngine, after: CallAuctionRiskManagedEngine|
            {
                &&& before.engine.book.definition == definition
                &&& before.limits == limits
                &&& before.risk.profiles() == profiles
                &&& #[trigger] before.makes_entry(&after, history, index)
            }
    }

    /// Replaying a history against these profiles reproduces every report.
    pub open spec fn reproducible(
        definition: InstrumentDefinition,
        limits: CallAuctionRiskLimits,
        profiles: Map<AccountId, RiskProfile>,
        history: Seq<CallAuctionCommandReportCheckpoint>,
    ) -> bool {
        forall|i: int|
            0 <= i < history.len() ==> #[trigger] Self::entry_reproducible(
                definition,
                limits,
                profiles,
                history,
                i,
            )
    }

    /// The own history of this shard is reproducible.
    pub open spec fn replayable(&self) -> bool {
        Self::reproducible(
            self.engine.book.definition,
            self.limits,
            self.risk.profiles(),
            self.engine.history@,
        )
    }

    /// A reproducible pair is reproduced by every consistent shard with the same
    /// profiles, the same past and a free buffer set.
    pub(crate) proof fn lemma_replay_succeeds(
        &self,
        history: Seq<CallAuctionCommandReportCheckpoint>,
        index: int,
    )
        requires
            self.consistent(),
            self.engine.free_buffers() > 0,
            0 <= index < history.len(),
            same_histories(self.engine.history@, history.take(index)),
            Self::entry_reproducible(
                self.engine.book.definition,
                self.limits,
                self.risk.profiles(),
                history,
                index,
            ),
        ensures
            !self.engine.retains(history[index].command.key()),
            self.engine.prepare_fault(history[index].command) is None,
            forall|after: CallAuctionEngine, report: CallAuctionExecutionReport| #[trigger]
                after.submits_gated(
                    &self.engine,
                    history[index].command,
                    self.risk.refusal(history[index].command),
                    report,
                ) ==> report.same(&history[index].report),
    {
        let entry = history[index];
        let command = entry.command;
        let (before, made) = choose|
            before: CallAuctionRiskManagedEngine,
            made: CallAuctionRiskManagedEngine,
        |
            {
                &&& before.engine.book.definition == self.engine.book.definition
                &&& before.limits == self.limits
                &&& before.risk.profiles() == self.risk.profiles()
                &&& #[trigger] before.makes_entry(&made, history, index)
            };
        assert forall|i: int| 0 <= i < before.engine.history@.len() implies (
        #[trigger] before.engine.history@[i]).same(&self.engine.history@[i]) by {
            assert(self.engine.history@[i].same(&history.take(index)[i]));
        }
        before.law_past_determines_ledger(self);
        before.engine.law_past_determines_state(&self.engine);
        before.engine.lemma_same_decision(&self.engine, command);
        let refusal = before.risk.refusal(command);
        let original = choose|original: CallAuctionExecutionReport|
            {
                &&& #[trigger] made.engine.submits_gated(&before.engine, command, refusal, original)
                &&& original.same(&entry.report)
            };
        let twin = choose|action: PreparedCallAuctionAction| #[trigger]
            before.engine.action_matches(command, action) && made.engine.settles_from(
                &before.engine,
                command,
                CallAuctionEngine::gated(
                    action,
                    if action is Rejected {
                        None
                    } else {
                        refusal
                    },
                ),
                original,
            );
        assert forall|after: CallAuctionEngine, report: CallAuctionExecutionReport| #[trigger]
            after.submits_gated(
                &self.engine,
                command,
                self.risk.refusal(command),
                report,
            ) implies report.same(&entry.report) by {
            let action = choose|action: PreparedCallAuctionAction| #[trigger]
                self.engine.action_matches(command, action) && after.settles_from(
                    &self.engine,
                    command,
                    CallAuctionEngine::gated(
                        action,
                        if action is Rejected {
                            None
                        } else {
                            self.risk.refusal(command)
                        },
                    ),
                    report,
                );
            let external = if twin is Rejected {
                None
            } else {
                refusal
            };
            before.engine.lemma_same_events(&self.engine, command, twin, action, external);
        }
    }

    /// A shard that has reproduced one more pair retains one more pair.
    pub(crate) proof fn lemma_entry_replayed(
        &self,
        after: &Self,
        history: Seq<CallAuctionCommandReportCheckpoint>,
        index: int,
        report: CallAuctionExecutionReport,
    )
        requires
            self.consistent(),
            0 <= index < history.len(),
            same_histories(self.engine.history@, history.take(index)),
            !self.engine.retains(history[index].command.key()),
            self.engine.prepare_fault(history[index].command) is None,
            after.sequences_from(self, history[index].command, report),
            report.same(&history[index].report),
        ensures
            after.consistent(),
            same_histories(after.engine.history@, history.take(index + 1)),
            Self::entry_reproducible(
                self.engine.book.definition,
                self.limits,
                self.risk.profiles(),
                history,
                index,
            ),
    {
        assert(after.reproduces(self, history[index]));
        assert(self.makes_entry(after, history, index));
        assert forall|i: int| 0 <= i < after.engine.history@.len() implies (
        #[trigger] after.engine.history@[i]).same(&history.take(index + 1)[i]) by {
            if i < index {
                assert(after.engine.history@.drop_last()[i] == after.engine.history@[i]);
                assert(self.engine.history@[i].same(&history.take(index)[i]));
            }
        }
    }

    /// A history that a consistent shard lengthens by one command stays
    /// reproducible.
    pub proof fn law_command_keeps_replayable(
        old: &Self,
        new: &Self,
        command: CallAuctionCommand,
        report: CallAuctionExecutionReport,
    )
        requires
            old.consistent(),
            !old.engine.retains(command.key()),
            old.engine.prepare_fault(command) is None,
            new.engine.submits_gated(&old.engine, command, old.risk.refusal(command), report),
            new.limits == old.limits,
            new.risk.profiles() == old.risk.profiles(),
            old.replayable(),
        ensures
            new.replayable(),
    {
        let definition = old.engine.book.definition;
        let limits = old.limits;
        let profiles = old.risk.profiles();
        let before = old.engine.history@;
        let after = new.engine.history@;
        assert forall|i: int| 0 <= i < before.len() implies #[trigger] before[i] == after[i] by {
            assert(after.drop_last()[i] == after[i]);
        }
        assert forall|i: int| 0 <= i < after.len() implies #[trigger] Self::entry_reproducible(
            definition,
            limits,
            profiles,
            after,
            i,
        ) by {
            if i < before.len() {
                assert(Self::entry_reproducible(definition, limits, profiles, before, i));
                let (b, a) = choose|
                    b: CallAuctionRiskManagedEngine,
                    a: CallAuctionRiskManagedEngine,
                |
                    {
                        &&& b.engine.book.definition == definition
                        &&& b.limits == limits
                        &&& b.risk.profiles() == profiles
                        &&& #[trigger] b.makes_entry(&a, before, i)
                    };
                assert(before.take(i) =~= after.take(i));
                assert(before[i] == after[i]);
                assert(b.makes_entry(&a, after, i));
            } else {
                let entry = after[i];
                assert(entry == after.last());
                assert(after.take(i) =~= before);
                assert(report.same(&entry.report));
                assert(new.reproduces(old, entry));
                assert(old.makes_entry(new, after, i));
            }
        }
    }

    /// A shard without commands is consistent with its empty past, whatever
    /// accounts are registered.
    pub proof fn law_registered_shard_is_consistent(&self)
        requires
            self.wf(),
            self.engine.is_new(),
            self.engine.limits.retained_commands <= self.engine.reports.reserved,
            forall|id: AccountId| #[trigger]
                self.risk.accounts@.dom().contains(id)
                    ==> self.risk.accounts@[id].exposure.position_lots
                    == self.risk.accounts@[id].profile.initial_position_lots,
        ensures
            self.consistent(),
            self.replayable(),
    {
        self.engine.law_new_engine_is_audited();
        self.engine.law_new_engine_is_projected();
    }
}

} // verus!
