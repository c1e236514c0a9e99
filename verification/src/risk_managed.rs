//! A call-auction engine coupled to its pre-trade risk ledger.
//!
//! The auction decides first. Risk then refuses or reserves, and every refusal
//! is an ordinary sequenced report.

use vstd::prelude::*;

use crate::auction_engine::{
    construction_error, CallAuctionCommandPreparation, CallAuctionCommandRejection,
    CallAuctionEngine, PreparedCallAuctionAction, PreparedCallAuctionCommand,
};
use crate::auction_risk::{
    mirrored, reservation_of, ActiveCallAuctionReservation, CallAuctionReservationSnapshot,
    CallAuctionRiskAccount, CallAuctionRiskConstructionError, CallAuctionRiskEngine,
    CallAuctionRiskLimits,
};
use crate::book_interest::ActiveOrders;
use crate::book_types::CallAuctionOrderSnapshot;
use crate::domain::{AccountId, OrderId};
use crate::engine_grammar::{accepted_grammar, report_grammar};
use crate::engine_projection::{cancel_projection, uncross_projection, ProjectedState};
use crate::engine_types::{
    CallAuctionCommand, CallAuctionCommandOutcome, CallAuctionCommandReportCheckpoint,
    CallAuctionEngineCapacity, CallAuctionEngineConstructionError, CallAuctionEngineError,
    CallAuctionEvent, CallAuctionExecutionReport, CallAuctionRejectReason,
};
use crate::instrument::InstrumentDefinition;
use crate::messages::{decimal, push_decimal};
use crate::risk::{RiskError, RiskProfile};
use crate::risk_apply::{admits_for, events_effect};
use crate::risk_audit::CallAuctionRiskInvariantViolation;

verus! {

/// An uncross consumes the orders that its projection consumes.
proof fn lemma_uncross_effect(start: ActiveOrders, events: Seq<CallAuctionEvent>, count: nat)
    requires
        uncross_projection(start, events, count) is Some,
    ensures
        events_effect(start, events, count) == uncross_projection(start, events, count),
    decreases count,
{
    if count > 0 {
        lemma_uncross_effect(start, events, (count - 1) as nat);
    }
}

/// Cancellations remove the orders that their projection removes.
proof fn lemma_cancel_effect(start: ActiveOrders, events: Seq<CallAuctionEvent>, count: nat)
    requires
        cancel_projection(start, events, count) is Some,
    ensures
        events_effect(start, events, count) == cancel_projection(start, events, count),
    decreases count,
{
    if count > 0 {
        lemma_cancel_effect(start, events, (count - 1) as nat);
    }
}

/// The events of an accepted command move the active orders to their new state.
proof fn lemma_step_effect(
    definition: InstrumentDefinition,
    before: ProjectedState,
    after: ProjectedState,
    entry: CallAuctionCommandReportCheckpoint,
)
    requires
        entry.report.outcome == CallAuctionCommandOutcome::Accepted,
        accepted_grammar(entry.command, entry.report.events@),
        before.step(definition, entry) == Some(after),
        forall|id: OrderId| #[trigger]
            after.orders.dom().contains(id) ==> after.orders[id].quantity.lots > 0,
    ensures
        events_effect(before.orders, entry.report.events@, entry.report.events@.len()) == Some(
            after.orders,
        ),
{
    let events = entry.report.events@;
    let start = before.orders;
    reveal_with_fuel(events_effect, 3);
    match entry.command {
        CallAuctionCommand::MassCancel(_) => {
            let count = (events.len() - 1) as nat;
            if count > 0 {
                lemma_cancel_effect(start, events, count);
            }
        },
        CallAuctionCommand::Uncross(_) => {
            lemma_uncross_effect(start, events, (events.len() - 1) as nat);
        },
        CallAuctionCommand::Amend(_) => {
            assert(after.orders.dom().contains(events[0].kind->OrderAmended_order.order_id));
        },
        _ => {},
    }
}

/// The trace of an accepted command admits only what the command submits.
proof fn lemma_grammar_admits(command: CallAuctionCommand, events: Seq<CallAuctionEvent>)
    requires
        accepted_grammar(command, events),
        command matches CallAuctionCommand::Replace(replace) ==> replace.replacement.account_id
            == replace.account_id,
    ensures
        admits_for(command, events),
{
    match command {
        CallAuctionCommand::MassCancel(_) => {
            assert forall|k: int| 0 <= k < events.len() implies !((
            #[trigger] events[k]).kind is OrderAccepted) && !(events[k].kind is Trade) by {
                if k == events.len() - 1 {
                    assert(events[k] == events.last());
                }
            }
        },
        CallAuctionCommand::Uncross(_) => {
            let trades = events.last().kind->UncrossCompleted_trade_count;
            assert forall|k: int| 0 <= k < events.len() implies !((
            #[trigger] events[k]).kind is OrderAccepted) by {
                if k == events.len() - 1 {
                    assert(events[k] == events.last());
                } else if k < trades {
                    assert(events[k].kind is Trade);
                } else {
                    assert(events[k].kind is RemainderCancelled);
                }
            }
        },
        _ => {},
    }
}

impl CallAuctionEngine {
    /// A preparation that is neither foreign, nor retained, nor stale.
    pub open spec fn current(&self, prepared: PreparedCallAuctionCommand) -> bool {
        &&& prepared.engine_instance_id == self.instance_id
        &&& !self.retains(prepared.command.key())
        &&& prepared.expected_retained_commands == self.history@.len()
    }

    /// A current preparation holds the transition that its command leads to.
    pub open spec fn honours(&self, prepared: PreparedCallAuctionCommand) -> bool {
        self.current(prepared) ==> exists|before: CallAuctionEngine|
            {
                &&& before.wf()
                &&& #[trigger] self.same_but_leases(&before)
                &&& before.action_matches(prepared.command, prepared.action)
            }
    }

    /// What a new command changes behind a risk gate.
    pub open spec fn submits_gated(
        &self,
        old: &Self,
        command: CallAuctionCommand,
        refusal: Option<CallAuctionRejectReason>,
        report: CallAuctionExecutionReport,
    ) -> bool {
        exists|action: PreparedCallAuctionAction| #[trigger]
            old.action_matches(command, action) && self.settles_from(
                old,
                command,
                Self::gated(
                    action,
                    if action is Rejected {
                        None
                    } else {
                        refusal
                    },
                ),
                report,
            )
    }
}

/// One call-auction engine atomically coupled to deterministic pre-trade risk.
#[derive(Debug)]
pub struct CallAuctionRiskManagedEngine {
    /// Authoritative auction engine.
    pub engine: CallAuctionEngine,
    /// Profiles, positions and reservations.
    pub risk: CallAuctionRiskEngine,
    /// Coupled resource limits.
    pub limits: CallAuctionRiskLimits,
}

/// Storage of a ledger could not be reserved.
pub open spec fn ledger_failed(error: CallAuctionRiskConstructionError) -> bool {
    ||| error == CallAuctionRiskConstructionError::AccountReservationFailed
    ||| error == CallAuctionRiskConstructionError::OrderReservationFailed
    ||| error == CallAuctionRiskConstructionError::PositionScratchReservationFailed
}

impl CallAuctionRiskManagedEngine {
    /// Every active order has its conservative reservation, and nothing else has.
    pub open spec fn mirrors(&self) -> bool {
        self.risk.reserved() == mirrored(self.risk.definition, self.engine.book.active())
    }

    /// Both parts work under the same definition and limits.
    pub open spec fn aligned(&self) -> bool {
        &&& self.limits.wf()
        &&& self.engine.limits == self.limits.auction
        &&& self.risk.definition == self.engine.book.definition
        &&& self.risk.maximum_accounts == self.limits.max_registered_accounts
        &&& self.risk.maximum_reservations == self.limits.auction.book.active_orders
    }

    /// The shard is in a state that its operations can work on.
    pub open spec fn wf(&self) -> bool {
        &&& self.engine.wf()
        &&& self.risk.wf()
        &&& self.aligned()
        &&& self.mirrors()
    }

    /// Everything that the offline audit checks.
    pub open spec fn audited(&self) -> bool {
        self.engine.audited() && self.risk.audited() && self.mirrors()
    }

    /// Creates an empty coupled shard under default finite limits.
    pub fn try_new(definition: InstrumentDefinition, instance_id: u64) -> (r: Result<
        Self,
        CallAuctionRiskConstructionError,
    >)
        requires
            definition.wf(),
        ensures
            match r {
                Ok(managed) => {
                    &&& managed.wf()
                    &&& managed.is_new(definition)
                    &&& managed.limits == CallAuctionRiskLimits::standard()
                    &&& managed.engine.instance_id == instance_id
                    &&& managed.engine.book.instance_id == instance_id < u64::MAX
                    &&& managed.engine.reports.reserved >= managed.limits.auction.retained_commands
                    &&& managed.engine.free_buffers()
                        == managed.limits.auction.book.prepared_uncrosses
                },
                Err(error) => match error {
                    CallAuctionRiskConstructionError::Auction(inner) =>
                        construction_error(definition, instance_id, inner),
                    _ => ledger_failed(error),
                },
            },
    {
        Self::try_with_limits(definition, CallAuctionRiskLimits::default(), instance_id)
    }

    /// Nothing is registered, sequenced or reserved.
    pub open spec fn is_new(&self, definition: InstrumentDefinition) -> bool {
        &&& self.engine.is_new()
        &&& self.engine.book.definition == definition
        &&& self.risk.accounts@ == Map::<AccountId, CallAuctionRiskAccount>::empty()
        &&& self.risk.reserved() == Map::<OrderId, CallAuctionReservationSnapshot>::empty()
    }

    /// Creates an empty coupled shard under explicit finite limits.
    ///
    /// A valid configuration fails only when storage cannot be reserved or the
    /// identity space is exhausted.
    pub fn try_with_limits(
        definition: InstrumentDefinition,
        limits: CallAuctionRiskLimits,
        instance_id: u64,
    ) -> (r: Result<Self, CallAuctionRiskConstructionError>)
        requires
            definition.wf(),
            limits.wf(),
        ensures
            match r {
                Ok(managed) => {
                    &&& managed.wf()
                    &&& managed.is_new(definition)
                    &&& managed.limits == limits
                    &&& managed.engine.instance_id == instance_id
                    &&& managed.engine.book.instance_id == instance_id < u64::MAX
                    &&& managed.engine.reports.reserved >= limits.auction.retained_commands
                    &&& managed.engine.free_buffers() == limits.auction.book.prepared_uncrosses
                },
                Err(error) => match error {
                    CallAuctionRiskConstructionError::Auction(inner) =>
                        construction_error(definition, instance_id, inner),
                    _ => ledger_failed(error),
                },
            },
    {
        Self::from_components(
            definition,
            limits,
            CallAuctionRiskEngine::try_with_limits(definition, limits),
            CallAuctionEngine::try_with_limits(definition, limits.auction(), instance_id),
        )
    }

    /// Couples an empty ledger and an empty engine. Where one of them could not
    /// be constructed, its error is returned, that of the ledger first.
    pub fn from_components(
        definition: InstrumentDefinition,
        limits: CallAuctionRiskLimits,
        risk: Result<CallAuctionRiskEngine, CallAuctionRiskConstructionError>,
        engine: Result<CallAuctionEngine, CallAuctionEngineConstructionError>,
    ) -> (r: Result<Self, CallAuctionRiskConstructionError>)
        requires
            limits.wf(),
            risk matches Ok(ledger) ==> {
                &&& ledger.wf()
                &&& ledger.definition == definition
                &&& ledger.maximum_accounts == limits.max_registered_accounts
                &&& ledger.maximum_reservations == limits.auction.book.active_orders
                &&& ledger.accounts@ == Map::<AccountId, CallAuctionRiskAccount>::empty()
                &&& ledger.reservations@ == Map::<OrderId, ActiveCallAuctionReservation>::empty()
            },
            engine matches Ok(fresh) ==> {
                &&& fresh.wf()
                &&& fresh.is_new()
                &&& fresh.book.definition == definition
                &&& fresh.limits == limits.auction
            },
        ensures
            match r {
                Ok(managed) => {
                    &&& risk == Ok::<_, CallAuctionRiskConstructionError>(managed.risk)
                    &&& engine == Ok::<_, CallAuctionEngineConstructionError>(managed.engine)
                    &&& managed.limits == limits
                    &&& managed.wf()
                    &&& managed.is_new(definition)
                },
                Err(error) => match risk {
                    Err(failed) => error == failed,
                    Ok(_) => engine matches Err(failed) && error
                        == CallAuctionRiskConstructionError::Auction(failed),
                },
            },
    {
        let risk = match risk {
            Ok(risk) => risk,
            Err(error) => {
                return Err(error);
            },
        };
        let engine = match engine {
            Ok(engine) => engine,
            Err(error) => {
                return Err(CallAuctionRiskConstructionError::Auction(error));
            },
        };
        proof {
            assert(risk.reserved() =~= Map::<OrderId, CallAuctionReservationSnapshot>::empty());
            assert(engine.book.active() =~= Map::<OrderId, CallAuctionOrderSnapshot>::empty());
            assert(mirrored(definition, engine.book.active()) =~= Map::<
                OrderId,
                CallAuctionReservationSnapshot,
            >::empty());
        }
        Ok(CallAuctionRiskManagedEngine { engine, risk, limits })
    }

    /// Registers one account before the first auction command is sequenced.
    pub fn register_account(&mut self, account_id: AccountId, profile: RiskProfile) -> (r: Result<
        (),
        RiskError,
    >)
        requires
            old(self).wf(),
            profile.wf(),
        ensures
            final(self).wf(),
            final(self).engine == old(self).engine,
            final(self).limits == old(self).limits,
            match r {
                Ok(_) => {
                    &&& old(self).engine.next_command_sequence == 1
                    &&& !old(self).risk.accounts@.dom().contains(account_id)
                    &&& old(self).risk.accounts.entries@.len() < old(self).risk.maximum_accounts
                    &&& final(self).risk.accounts@.dom() == old(
                        self,
                    ).risk.accounts@.dom().insert(account_id)
                    &&& final(self).risk.accounts@[account_id].profile == profile
                    &&& final(self).risk.accounts@[account_id].exposure.position_lots
                        == profile.initial_position_lots
                    &&& forall|other: AccountId|
                        other != account_id ==> #[trigger] final(self).risk.accounts@[other]
                            == old(self).risk.accounts@[other]
                    &&& final(self).risk.reservations == old(self).risk.reservations
                },
                Err(error) => {
                    &&& *final(self) == *old(self)
                    &&& if old(self).engine.next_command_sequence != 1 {
                        error == RiskError::ProfileRegistryLocked
                    } else if old(self).risk.accounts@.dom().contains(account_id) {
                        error == RiskError::DuplicateProfile(account_id)
                    } else {
                        &&& old(self).risk.accounts.entries@.len() >= old(
                            self,
                        ).risk.maximum_accounts
                        &&& error == RiskError::ProfileCapacityExhausted {
                            maximum: old(self).risk.maximum_accounts,
                        }
                    }
                },
            },
    {
        if self.engine.next_command_sequence() != 1 {
            return Err(RiskError::ProfileRegistryLocked);
        }
        let result = self.risk.register_account(account_id, profile);
        proof {
            assert(self.risk.reserved() == old(self).risk.reserved());
            if result is Ok {
                assert(self.risk.accounts@.dom() =~= old(self).risk.accounts@.dom().insert(
                    account_id,
                ));
            }
        }
        result
    }

    /// Prepares one core auction command without semantic state mutation.
    pub fn prepare(&mut self, command: CallAuctionCommand) -> (r: Result<
        CallAuctionCommandPreparation,
        CallAuctionEngineError,
    >)
        requires
            old(self).wf(),
        ensures
            final(self).wf(),
            final(self).risk == old(self).risk,
            final(self).limits == old(self).limits,
            final(self).engine.same_but_leases(&old(self).engine),
            match r {
                Ok(CallAuctionCommandPreparation::Replay(report)) => {
                    &&& old(self).engine.replays(command, report)
                    &&& *final(self) == *old(self)
                },
                Ok(CallAuctionCommandPreparation::Ready(prepared)) => {
                    &&& !old(self).engine.retains(command.key())
                    &&& old(self).engine.prepare_fault(command) is None
                    &&& prepared.command == command
                    &&& final(self).engine.current(prepared)
                    &&& final(self).engine.honours(prepared)
                    &&& old(self).engine.action_matches(command, prepared.action)
                    &&& final(self).engine.commit_fault(prepared, None) is None
                    &&& final(self).engine.free_buffers() == old(self).engine.free_buffers()
                        - CallAuctionEngine::leases(Ok(prepared.action))
                },
                Err(error) => {
                    &&& final(self).engine.free_buffers() == old(self).engine.free_buffers()
                    &&& old(self).refuses(command, error)
                },
            },
    {
        self.engine.prepare(command)
    }

    /// The risk refusal of a preparation that the auction itself would accept.
    pub open spec fn gate(&self, prepared: PreparedCallAuctionCommand) -> Option<
        CallAuctionRejectReason,
    > {
        if self.engine.current(prepared) && prepared.rejection() is None {
            self.risk.refusal(prepared.command)
        } else {
            None
        }
    }

    /// A transition that the auction accepts names a reservation it can replace.
    pub(crate) proof fn lemma_replaceable(&self, before: &CallAuctionEngine, command: CallAuctionCommand)
        requires
            self.wf(),
            before.wf(),
            self.engine.same_but_leases(before),
            before.decide(command) == Ok::<Option<CallAuctionRejectReason>, CallAuctionEngineError>(
                None,
            ),
        ensures
            self.risk.replaceable(command),
    {
        if let CallAuctionCommand::Replace(replace) = command {
            let id = replace.target_order_id;
            assert(before.book.active().dom().contains(id));
            assert(self.engine.book.active().dom().contains(id));
            assert(mirrored(self.risk.definition, self.engine.book.active()).dom().contains(id));
        }
    }

    /// Accepted events move the active orders to the state after the commit.
    proof fn lemma_commit_effect(
        &self,
        before: &CallAuctionEngine,
        after: &CallAuctionEngine,
        command: CallAuctionCommand,
        action: PreparedCallAuctionAction,
        report: CallAuctionExecutionReport,
    )
        requires
            before.wf(),
            after.wf(),
            before.action_matches(command, action),
            !(action is Rejected),
            after.settles_from(before, command, action, report),
            command matches CallAuctionCommand::Replace(replace) ==> replace.replacement.account_id
                == replace.account_id,
        ensures
            report.outcome == CallAuctionCommandOutcome::Accepted,
            admits_for(command, report.events@),
            events_effect(before.book.active(), report.events@, report.events@.len()) == Some(
                after.book.active(),
            ),
    {
        let entry = after.history@.last();
        before.lemma_trace_grammar(command, action, entry);
        before.lemma_step_projected(after, command, action, entry);
        assert(report_grammar(entry));
        lemma_grammar_admits(command, report.events@);
        assert forall|id: OrderId| #[trigger]
            after.direct_state().orders.dom().contains(
                id,
            ) implies after.direct_state().orders[id].quantity.lots > 0 by {
            assert(after.book.order_ok(id));
        }
        lemma_step_effect(
            before.book.definition,
            before.direct_state(),
            after.direct_state(),
            entry,
        );
    }

    /// Commits one prepared command after core-first risk authorization.
    ///
    /// A retained command is replayed. A refused preparation changes nothing
    /// but leases.
    pub fn commit(&mut self, prepared: PreparedCallAuctionCommand) -> (r: Result<
        CallAuctionExecutionReport,
        CallAuctionCommandRejection,
    >)
        requires
            old(self).wf(),
            old(self).engine.honours(prepared),
        ensures
            final(self).wf(),
            final(self).limits == old(self).limits,
            final(self).engine.free_buffers() == old(self).engine.free_buffers() + (
            if prepared.engine_instance_id == old(self).engine.instance_id {
                old(self).engine.returned(prepared.action)
            } else {
                0
            }),
            match r {
                Ok(report) => {
                    &&& old(self).engine.commit_fault(prepared, old(self).gate(prepared)) is None
                    &&& if old(self).engine.retains(prepared.command.key()) {
                        &&& old(self).engine.replays(prepared.command, report)
                        &&& final(self).engine.same_but_leases(&old(self).engine)
                        &&& final(self).risk == old(self).risk
                    } else {
                        &&& final(self).engine.commits_from(
                            &old(self).engine,
                            prepared.command,
                            CallAuctionEngine::gated(prepared.action, old(self).gate(prepared)),
                            report,
                        )
                        &&& if report.outcome == CallAuctionCommandOutcome::Accepted {
                            final(self).risk.follows(
                                &old(self).risk,
                                final(self).engine.book.active(),
                                report.events@,
                            )
                        } else {
                            final(self).risk == old(self).risk
                        }
                    }
                },
                Err(rejection) => {
                    &&& old(self).engine.commit_fault(prepared, old(self).gate(prepared)) == Some(
                        rejection.error,
                    )
                    &&& final(self).engine.same_but_leases(&old(self).engine)
                    &&& final(self).risk == old(self).risk
                    &&& rejection.foreign == (if prepared.engine_instance_id != old(
                        self,
                    ).engine.instance_id {
                        Some(prepared)
                    } else {
                        None
                    })
                },
            },
    {
        let ghost entry = *self;
        let command = prepared.command;
        let ghost action = prepared.action;
        let current: bool = prepared.engine_instance_id == self.engine.instance_id
            && !self.engine.reports.contains_key(command.command_id())
            && prepared.expected_retained_commands == self.engine.history.len();
        let ghost before = choose|before: CallAuctionEngine|
            {
                &&& before.wf()
                &&& #[trigger] entry.engine.same_but_leases(&before)
                &&& before.action_matches(command, action)
            };
        let open: bool = current && prepared.core_rejection().is_none();
        let mut refusal: Option<CallAuctionRejectReason> = None;
        if open {
            proof {
                self.lemma_replaceable(&before, command);
            }
            if let Err(reason) = self.risk.authorize(command) {
                refusal = Some(reason);
            }
        }
        let applies: bool = open && refusal.is_none();
        match self.engine.commit_with_gate(prepared, refusal) {
            Ok(report) => {
                if applies {
                    let ghost orders = entry.engine.book.active();
                    proof {
                        entry.engine.lemma_lease_frame(&before, action);
                        self.engine.lemma_settled(
                            &entry.engine,
                            &before,
                            command,
                            action,
                            report,
                        );
                        self.lemma_commit_effect(&before, &self.engine, command, action, report);
                        assert(before.book.active() == orders);
                        self.engine.book.orders.lemma_view();
                        assert(self.engine.book.active().dom()
                            =~= self.engine.book.orders@.dom());
                    }
                    self.risk.apply(command, report.events.as_slice(), Ghost(orders));
                } else {
                    proof {
                        assert(self.engine.book.active() == entry.engine.book.active());
                    }
                }
                Ok(report)
            },
            Err(rejection) => Err(rejection),
        }
    }

    /// What a new command changes, and what it keeps true.
    pub open spec fn sequences_from(
        &self,
        old: &Self,
        command: CallAuctionCommand,
        report: CallAuctionExecutionReport,
    ) -> bool {
        &&& self.engine.submits_gated(&old.engine, command, old.risk.refusal(command), report)
        &&& if report.outcome == CallAuctionCommandOutcome::Accepted {
            self.risk.follows(&old.risk, self.engine.book.active(), report.events@)
        } else {
            self.risk == old.risk
        }
        &&& old.audited() ==> self.audited()
        &&& old.engine.projection_ok() ==> self.engine.projection_ok()
        &&& old.consistent() ==> self.consistent()
        &&& old.consistent() && old.replayable() ==> self.replayable()
        &&& self.risk.profiles() == old.risk.profiles()
    }

    /// The error of a command that is not sequenced.
    pub open spec fn refuses(
        &self,
        command: CallAuctionCommand,
        error: CallAuctionEngineError,
    ) -> bool {
        if self.engine.retains(command.key()) {
            &&& self.engine.retained(command.key()).command != command
            &&& error == CallAuctionEngineError::CommandIdCollision(command.key())
        } else if self.engine.prepare_fault(command) is Some {
            self.engine.prepare_fault(command) == Some(error)
        } else {
            error == CallAuctionEngineError::CapacityReservationFailed(
                CallAuctionEngineCapacity::ReportEvents,
            )
        }
    }

    /// Commits a preparation that nothing has outdated.
    pub(crate) fn settle(
        &mut self,
        prepared: PreparedCallAuctionCommand,
        Ghost(entry): Ghost<CallAuctionRiskManagedEngine>,
    ) -> (r: Result<CallAuctionExecutionReport, CallAuctionEngineError>)
        requires
            old(self).wf(),
            entry.wf(),
            old(self).risk == entry.risk,
            old(self).limits == entry.limits,
            old(self).engine.same_but_leases(&entry.engine),
            !entry.engine.retains(prepared.command.key()),
            old(self).engine.current(prepared),
            old(self).engine.honours(prepared),
            entry.engine.action_matches(prepared.command, prepared.action),
            old(self).engine.commit_fault(prepared, None) is None,
            entry.engine.prepare_fault(prepared.command) is None,
        ensures
            final(self).wf(),
            final(self).limits == entry.limits,
            r matches Ok(report) && final(self).sequences_from(&entry, prepared.command, report),
            old(self).engine.free_buffers() == entry.engine.free_buffers()
                - CallAuctionEngine::leases(Ok(prepared.action))
                ==> final(self).engine.free_buffers() == entry.engine.free_buffers(),
    {
        let ghost middle = *self;
        let ghost command = prepared.command;
        let ghost action = prepared.action;
        let ghost gate = middle.gate(prepared);
        let ghost gated = CallAuctionEngine::gated(action, gate);
        proof {
            if gate is Some {
                entry.lemma_refusal_is_risk(command);
            }
        }
        match self.commit(prepared) {
            Ok(report) => {
                proof {
                    middle.engine.lemma_lease_frame(&entry.engine, gated);
                    self.engine.lemma_settled(
                        &middle.engine,
                        &entry.engine,
                        command,
                        gated,
                        report,
                    );
                    assert(entry.engine.gate_matches(command, gated));
                    assert(entry.engine.action_matches(command, action));
                    if entry.audited() {
                        CallAuctionEngine::law_command_keeps_audit(
                            &entry.engine,
                            &self.engine,
                            command,
                            gated,
                            report,
                        );
                    }
                    if entry.engine.projection_ok() {
                        CallAuctionEngine::law_command_keeps_projection(
                            &entry.engine,
                            &self.engine,
                            command,
                            gated,
                            report,
                        );
                    }
                    entry.lemma_sequenced(self, command, report);
                }
                Ok(report)
            },
            Err(rejection) => Err(rejection.error),
        }
    }

    /// A sequenced command keeps profiles, positions and replayability.
    proof fn lemma_sequenced(
        &self,
        new: &Self,
        command: CallAuctionCommand,
        report: CallAuctionExecutionReport,
    )
        requires
            new.wf(),
            new.limits == self.limits,
            !self.engine.retains(command.key()),
            self.engine.prepare_fault(command) is None,
            new.engine.submits_gated(&self.engine, command, self.risk.refusal(command), report),
            if report.outcome == CallAuctionCommandOutcome::Accepted {
                new.risk.follows(&self.risk, new.engine.book.active(), report.events@)
            } else {
                new.risk == self.risk
            },
            self.audited() ==> new.audited(),
            self.engine.projection_ok() ==> new.engine.projection_ok(),
        ensures
            self.consistent() ==> new.consistent(),
            self.consistent() && self.replayable() ==> new.replayable(),
            new.risk.profiles() == self.risk.profiles(),
    {
        assert(new.risk.profiles() =~= self.risk.profiles());
        if self.consistent() {
            Self::law_command_keeps_positions(self, new, command, report);
            if self.replayable() {
                Self::law_command_keeps_replayable(self, new, command, report);
            }
        }
    }

    /// Applies one command with exact retry suppression and sequenced risk rejection.
    pub fn submit(&mut self, command: CallAuctionCommand) -> (r: Result<
        CallAuctionExecutionReport,
        CallAuctionEngineError,
    >)
        requires
            old(self).wf(),
        ensures
            final(self).wf(),
            final(self).limits == old(self).limits,
            final(self).engine.free_buffers() == old(self).engine.free_buffers(),
            match r {
                Ok(report) => if old(self).engine.retains(command.key()) {
                    &&& old(self).engine.replays(command, report)
                    &&& *final(self) == *old(self)
                } else {
                    &&& old(self).engine.prepare_fault(command) is None
                    &&& final(self).sequences_from(old(self), command, report)
                },
                Err(error) => {
                    &&& final(self).engine.same_but_leases(&old(self).engine)
                    &&& final(self).risk == old(self).risk
                    &&& old(self).refuses(command, error)
                },
            },
    {
        let ghost entry = *self;
        match self.prepare(command) {
            Err(error) => Err(error),
            Ok(CallAuctionCommandPreparation::Replay(report)) => Ok(report),
            Ok(CallAuctionCommandPreparation::Ready(prepared)) => self.settle(
                prepared,
                Ghost(entry),
            ),
        }
    }

    /// A refusal is a risk reason, and only admissions are refused.
    proof fn lemma_refusal_is_risk(&self, command: CallAuctionCommand)
        ensures
            self.risk.refusal(command) matches Some(reason) ==> reason.is_risk() && (
            command is Submit || command is Replace),
    {
    }

    /// Returns the read-only authoritative auction engine.
    #[must_use]
    pub fn engine(&self) -> (r: &CallAuctionEngine)
        ensures
            *r == self.engine,
    {
        &self.engine
    }

    /// Returns read-only risk state.
    #[must_use]
    pub fn risk(&self) -> (r: &CallAuctionRiskEngine)
        ensures
            *r == self.risk,
    {
        &self.risk
    }

    /// Returns complete coupled resource limits.
    #[must_use]
    pub fn limits(&self) -> (r: CallAuctionRiskLimits)
        ensures
            r == self.limits,
    {
        self.limits
    }

    /// The first active order from `position` on without its reservation.
    pub open spec fn parity_fault(&self, position: int) -> Option<Seq<char>>
        decreases self.engine.book.orders.entries@.len() - position,
    {
        if position >= self.engine.book.orders.entries@.len() {
            None
        } else {
            let (id, order) = self.engine.book.orders.entries@[position];
            let reservation = self.risk.reservations@[id].snapshot;
            if !self.risk.reservations@.dom().contains(id) {
                Some(
                    "auction active order "@ + decimal(id.value as nat)
                        + " has no risk reservation"@,
                )
            } else if order.account_id != reservation.account_id || order.side != reservation.side
                || order.constraint != reservation.constraint || order.quantity.lots
                != reservation.quantity_lots {
                Some(
                    "auction reservation "@ + decimal(id.value as nat)
                        + " differs from active order"@,
                )
            } else {
                self.parity_fault(position + 1)
            }
        }
    }

    /// The first contradiction that the audit meets.
    pub open spec fn audit_fault(&self) -> Option<Seq<char>> {
        if self.engine.audit_fault() is Some {
            self.engine.audit_fault()
        } else if self.risk.audit_fault() is Some {
            self.risk.audit_fault()
        } else if self.engine.book.orders.entries@.len() != self.risk.reservations.entries@.len() {
            Some("auction active-order count differs from risk reservation count"@)
        } else {
            self.parity_fault(0)
        }
    }

    /// Cross-audits engine structure, reservations, positions, and aggregates.
    pub fn validate(&self) -> (r: Result<(), CallAuctionRiskInvariantViolation>)
        requires
            self.engine.book.config_ok(),
            self.risk.config_ok(),
            self.risk.definition == self.engine.book.definition,
        ensures
            r is Ok <==> self.audited(),
            match r {
                Ok(_) => self.audit_fault() is None,
                Err(error) => self.audit_fault() == Some(error.detail@),
            },
    {
        if let Err(error) = self.engine.validate() {
            return Err(CallAuctionRiskInvariantViolation::new(error.detail()));
        }
        if let Err(error) = self.risk.validate() {
            return Err(error);
        }
        let ghost definition = self.risk.definition;
        let ghost orders = self.engine.book.active();
        proof {
            self.engine.book.orders.lemma_view();
            self.risk.reservations.lemma_view();
            assert(orders.dom() =~= self.engine.book.orders@.dom());
            assert(self.risk.reserved().dom() =~= self.risk.reservations@.dom());
            assert(mirrored(definition, orders).dom() =~= orders.dom());
        }
        if self.engine.book.active_order_count() != self.risk.reservations.len() {
            return Err(
                CallAuctionRiskInvariantViolation::new(
                    "auction active-order count differs from risk reservation count",
                ),
            );
        }
        let mut index: usize = 0;
        while index < self.engine.book.orders.len()
            invariant
                self.engine.book.orders.wf(),
                self.engine.audit_fault() is None,
                self.risk.audit_fault() is None,
                self.engine.book.orders.entries@.len() == self.risk.reservations.entries@.len(),
                self.parity_fault(0) == self.parity_fault(index as int),
                self.risk.ledger_ok(),
                definition == self.risk.definition,
                orders == self.engine.book.active(),
                mirrored(definition, orders).dom() == orders.dom(),
                orders.dom() == self.engine.book.orders@.dom(),
                self.risk.reserved().dom() == self.risk.reservations@.dom(),
                index <= self.engine.book.orders.entries@.len(),
                forall|i: int|
                    0 <= i < index ==> self.reserves((#[trigger] self.engine.book.orders.entries@[i]).0),
            decreases self.engine.book.orders.entries@.len() - index,
        {
            let order_id = self.engine.book.orders.key_at(index);
            let order = self.engine.book.orders.value_at(index);
            proof {
                self.engine.book.orders.lemma_view();
                assert(orders.dom().contains(order_id));
                assert(orders[order_id] == order.visible());
                assert(mirrored(definition, orders)[order_id] == reservation_of(
                    definition,
                    orders[order_id],
                ));
            }
            match self.risk.reservation(order_id) {
                Some(reservation) => {
                    proof {
                        assert(self.risk.reservations@.dom().contains(order_id));
                        assert(self.risk.reservation_ok(order_id));
                    }
                    if order.account_id != reservation.account_id || order.side != reservation.side
                        || order.constraint != reservation.constraint || order.quantity.lots
                        != reservation.quantity_lots {
                        let mut detail = String::from_str("auction reservation ");
                        push_decimal(&mut detail, order_id.value as u128);
                        detail.append(" differs from active order");
                        return Err(CallAuctionRiskInvariantViolation { detail });
                    }
                },
                None => {
                    let mut detail = String::from_str("auction active order ");
                    push_decimal(&mut detail, order_id.value as u128);
                    detail.append(" has no risk reservation");
                    return Err(CallAuctionRiskInvariantViolation { detail });
                },
            }
            index += 1;
        }
        proof {
            self.engine.book.orders.lemma_view();
            assert forall|id: OrderId| #[trigger] orders.dom().contains(id) implies self.reserves(
                id,
            ) by {
                let i = choose|i: int|
                    0 <= i < self.engine.book.orders.entries@.len() && (
                    #[trigger] self.engine.book.orders.entries@[i]).0 == id;
                assert(self.reserves(self.engine.book.orders.entries@[i].0));
            }
            self.lemma_mirrors();
        }
        Ok(())
    }

    /// An active order has its conservative reservation.
    pub open spec fn reserves(&self, id: OrderId) -> bool {
        &&& self.risk.reserved().dom().contains(id)
        &&& self.risk.reserved()[id] == reservation_of(
            self.risk.definition,
            self.engine.book.active()[id],
        )
    }

    /// As many reservations as active orders, and one for each, are all of them.
    proof fn lemma_mirrors(&self)
        requires
            self.engine.book.orders.wf(),
            self.risk.reservations.wf(),
            self.engine.book.orders@.len() == self.risk.reservations@.len(),
            forall|id: OrderId| #[trigger]
                self.engine.book.active().dom().contains(id) ==> self.reserves(id),
        ensures
            self.mirrors(),
    {
        let orders = self.engine.book.active();
        let reserved = self.risk.reserved();
        self.engine.book.orders.lemma_view();
        self.risk.reservations.lemma_view();
        assert(orders.dom() =~= self.engine.book.orders@.dom());
        assert(reserved.dom() =~= self.risk.reservations@.dom());
        vstd::set_lib::lemma_subset_equality(orders.dom(), reserved.dom());
        assert(reserved =~= mirrored(self.risk.definition, orders));
    }

    /// A shard in working order passes the audit exactly when its engine does.
    pub proof fn law_coupling_is_audited(&self)
        requires
            self.wf(),
        ensures
            self.audited() <==> self.engine.audited(),
            self.risk.reserved().dom() == self.engine.book.active().dom(),
            forall|id: OrderId| #[trigger]
                self.engine.book.active().dom().contains(id) ==> self.reserves(id),
    {
        assert(self.risk.reserved().dom() =~= self.engine.book.active().dom());
    }
}

} // verus!
