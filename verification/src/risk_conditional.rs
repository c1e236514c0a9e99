//! Observed, conditional submission of auction commands under coupled risk.

use vstd::prelude::*;

use crate::auction::AuctionClearing;
use crate::auction_engine::{
    CallAuctionCommandPreparation, PreparedCallAuctionAction, PreparedCallAuctionCommand,
};
use crate::book_queries::{lemma_listing_unique, lemma_selection, lists_orders};
use crate::book_types::{
    CallAuctionCancellation, CallAuctionOrder, CallAuctionOrderSnapshot, CallAuctionTrade,
};
use crate::book_uncross::PreparedCallAuctionUncross;
use crate::domain::{AccountId, MassCancelScope, OrderId, Quantity};
use crate::engine_types::{
    CallAuctionAmendOrder, CallAuctionCancelOrder, CallAuctionCommand, CallAuctionEngineError,
    CallAuctionExecutionReport, CallAuctionMassCancel, CallAuctionRejectReason,
    CallAuctionReplaceOrder, CallAuctionUncrossCommand,
};
use crate::risk_managed::CallAuctionRiskManagedEngine;

verus! {

/// What an owner cancellation would remove.
#[derive(Clone, Copy, Debug, PartialEq, Eq, Structural)]
pub struct CallAuctionCancelObservation {
    /// Active order before its removal.
    pub order: CallAuctionOrderSnapshot,
}

/// What an amendment would reduce.
#[derive(Clone, Copy, Debug, PartialEq, Eq, Structural)]
pub struct CallAuctionAmendObservation {
    /// Active order before its reduction.
    pub order: CallAuctionOrderSnapshot,
    /// Leaves after the reduction.
    pub new_quantity: Quantity,
}

/// What a replacement would exchange.
#[derive(Clone, Copy, Debug, PartialEq, Eq, Structural)]
pub struct CallAuctionReplaceObservation {
    /// Active order before its removal.
    pub target: CallAuctionOrderSnapshot,
    /// Order that would be admitted in its place.
    pub replacement: CallAuctionOrder,
}

/// What a mass cancellation would remove.
#[derive(Clone, Copy, Debug)]
pub struct CallAuctionMassCancelObservation<'a> {
    /// Selected account.
    pub account_id: AccountId,
    /// Selected sides.
    pub scope: MassCancelScope,
    /// Selected active orders by ascending identity.
    pub orders: &'a [CallAuctionOrderSnapshot],
}

/// What an uncross would execute and cancel.
#[derive(Clone, Copy, Debug)]
pub struct CallAuctionUncrossObservation<'a> {
    /// Allocation, pairs and cancellations of the preparation.
    pub uncross: &'a PreparedCallAuctionUncross,
}

impl<'a> CallAuctionUncrossObservation<'a> {
    /// Returns the aggregate clearing state.
    #[must_use]
    pub fn clearing(&self) -> (r: AuctionClearing)
        ensures
            r == self.uncross.buffers.plan.clearing,
    {
        self.uncross.buffers.plan.clearing
    }

    /// Returns proposed counterparty pairs.
    #[must_use]
    pub fn trades(&self) -> (r: &'a [CallAuctionTrade])
        ensures
            r@ == self.uncross.buffers.trades@,
    {
        self.uncross.trades()
    }

    /// Returns proposed remainder cancellations.
    #[must_use]
    pub fn cancellations(&self) -> (r: &'a [CallAuctionCancellation])
        ensures
            r@ == self.uncross.buffers.cancellations@,
    {
        self.uncross.cancellations()
    }
}

/// Result of a conditional command with an owned observation.
#[derive(Debug)]
pub enum ConditionalCallAuctionCommandOutcome<T> {
    /// The caller declined what it observed.
    Declined(T),
    /// The command was sequenced, or had been before.
    Reported {
        /// What the caller accepted, unless nothing was shown.
        observation: Option<T>,
        /// Report of the command.
        report: CallAuctionExecutionReport,
    },
}

/// Result of a conditional command with a borrowed observation.
#[derive(Debug)]
pub enum ConditionalCallAuctionOutcome {
    /// The caller declined what it observed.
    Declined,
    /// The command was sequenced, or had been before.
    Reported(CallAuctionExecutionReport),
}

impl CallAuctionRiskManagedEngine {
    /// Whether phase rules and collection book accept a new command, and the
    /// command can be sequenced.
    pub open spec fn admits(&self, command: CallAuctionCommand) -> bool {
        &&& !self.engine.retains(command.key())
        &&& self.engine.prepare_fault(command) is None
        &&& self.engine.decide(command) == Ok::<
            Option<CallAuctionRejectReason>,
            CallAuctionEngineError,
        >(None)
    }

    /// Nothing but leases differs.
    pub open spec fn undisturbed(&self, old: &Self) -> bool {
        &&& self.engine.same_but_leases(&old.engine)
        &&& self.risk == old.risk
        &&& self.limits == old.limits
    }

    /// A command was replayed or sequenced without an observation.
    pub open spec fn reports_unobserved(
        &self,
        old: &Self,
        command: CallAuctionCommand,
        report: CallAuctionExecutionReport,
    ) -> bool {
        if old.engine.retains(command.key()) {
            old.engine.replays(command, report) && *self == *old
        } else {
            &&& old.engine.prepare_fault(command) is None
            &&& !old.admits(command) || old.risk.refusal(command) is Some
            &&& self.sequences_from(old, command, report)
        }
    }

    /// What a conditional command with an owned observation does.
    pub open spec fn conditionally<T>(
        &self,
        old: &Self,
        command: CallAuctionCommand,
        observed: T,
        accepts: spec_fn(bool) -> bool,
        r: Result<ConditionalCallAuctionCommandOutcome<T>, CallAuctionEngineError>,
    ) -> bool {
        match r {
            Ok(ConditionalCallAuctionCommandOutcome::Declined(observation)) => {
                &&& old.admits(command)
                &&& old.risk.refusal(command) is None
                &&& observation == observed
                &&& accepts(false)
                &&& self.undisturbed(old)
            },
            Ok(ConditionalCallAuctionCommandOutcome::Reported { observation, report }) => {
                match observation {
                    Some(given) => {
                        &&& old.admits(command)
                        &&& old.risk.refusal(command) is None
                        &&& given == observed
                        &&& accepts(true)
                        &&& self.sequences_from(old, command, report)
                    },
                    None => self.reports_unobserved(old, command, report),
                }
            },
            Err(error) => old.refuses(command, error) && self.undisturbed(old),
        }
    }

    fn decline(&mut self, prepared: PreparedCallAuctionCommand)
        requires
            old(self).wf(),
        ensures
            final(self).wf(),
            final(self).undisturbed(old(self)),
            final(self).engine.free_buffers() == old(self).engine.free_buffers() + (
            if prepared.engine_instance_id == old(self).engine.instance_id {
                old(self).engine.returned(prepared.action)
            } else {
                0
            }),
    {
        let _ = self.engine.release(prepared);
    }

    /// Atomically risk-gates, observes, and conditionally commits one owner
    /// cancel. A replay and a rejection are reported without asking `accept`.
    pub fn try_submit_cancel_order_if<F: FnOnce(&CallAuctionCancelObservation) -> bool>(
        &mut self,
        command: CallAuctionCancelOrder,
        accept: F,
    ) -> (r: Result<
        ConditionalCallAuctionCommandOutcome<CallAuctionCancelObservation>,
        CallAuctionEngineError,
    >)
        requires
            old(self).wf(),
            forall|observation: CallAuctionCancelObservation| #[trigger]
                accept.requires((&observation,)),
        ensures
            final(self).wf(),
            final(self).engine.free_buffers() == old(self).engine.free_buffers(),
            ({
                let observed = CallAuctionCancelObservation {
                    order: old(self).engine.book.active()[command.order_id],
                };
                final(self).conditionally(
                    old(self),
                    CallAuctionCommand::Cancel(command),
                    observed,
                    |given: bool| accept.ensures((&observed,), given),
                    r,
                )
            }),
    {
        let ghost entry = *self;
        let request = CallAuctionCommand::Cancel(command);
        let prepared = match self.prepare(request) {
            Err(error) => {
                return Err(error);
            },
            Ok(CallAuctionCommandPreparation::Replay(report)) => {
                return Ok(
                    ConditionalCallAuctionCommandOutcome::Reported { observation: None, report },
                );
            },
            Ok(CallAuctionCommandPreparation::Ready(prepared)) => prepared,
        };
        if prepared.core_rejection().is_some() {
            return match self.settle(prepared, Ghost(entry)) {
                Ok(report) => Ok(
                    ConditionalCallAuctionCommandOutcome::Reported { observation: None, report },
                ),
                Err(error) => Err(error),
            };
        }
        proof {
            assert(entry.engine.book.active().dom().contains(command.order_id));
            assert(self.engine.book.active() == entry.engine.book.active());
            assert(self.engine.book.orders@.dom().contains(command.order_id));
        }
        let order = self.engine.book.orders.fetch(command.order_id).snapshot();
        let observation = CallAuctionCancelObservation { order };
        if !accept(&observation) {
            self.decline(prepared);
            return Ok(ConditionalCallAuctionCommandOutcome::Declined(observation));
        }
        match self.settle(prepared, Ghost(entry)) {
            Ok(report) => Ok(
                ConditionalCallAuctionCommandOutcome::Reported {
                    observation: Some(observation),
                    report,
                },
            ),
            Err(error) => Err(error),
        }
    }

    /// Atomically risk-gates, observes, and conditionally commits one
    /// amendment. A replay and a rejection are reported without asking `accept`.
    pub fn try_submit_amend_order_if<F: FnOnce(&CallAuctionAmendObservation) -> bool>(
        &mut self,
        command: CallAuctionAmendOrder,
        accept: F,
    ) -> (r: Result<
        ConditionalCallAuctionCommandOutcome<CallAuctionAmendObservation>,
        CallAuctionEngineError,
    >)
        requires
            old(self).wf(),
            forall|observation: CallAuctionAmendObservation| #[trigger]
                accept.requires((&observation,)),
        ensures
            final(self).wf(),
            final(self).engine.free_buffers() == old(self).engine.free_buffers(),
            ({
                let observed = CallAuctionAmendObservation {
                    order: old(self).engine.book.active()[command.order_id],
                    new_quantity: command.new_quantity,
                };
                final(self).conditionally(
                    old(self),
                    CallAuctionCommand::Amend(command),
                    observed,
                    |given: bool| accept.ensures((&observed,), given),
                    r,
                )
            }),
    {
        let ghost entry = *self;
        let request = CallAuctionCommand::Amend(command);
        let prepared = match self.prepare(request) {
            Err(error) => {
                return Err(error);
            },
            Ok(CallAuctionCommandPreparation::Replay(report)) => {
                return Ok(
                    ConditionalCallAuctionCommandOutcome::Reported { observation: None, report },
                );
            },
            Ok(CallAuctionCommandPreparation::Ready(prepared)) => prepared,
        };
        if prepared.core_rejection().is_some() {
            return match self.settle(prepared, Ghost(entry)) {
                Ok(report) => Ok(
                    ConditionalCallAuctionCommandOutcome::Reported { observation: None, report },
                ),
                Err(error) => Err(error),
            };
        }
        proof {
            assert(entry.engine.book.active().dom().contains(command.order_id));
            assert(self.engine.book.active() == entry.engine.book.active());
            assert(self.engine.book.orders@.dom().contains(command.order_id));
        }
        let order = self.engine.book.orders.fetch(command.order_id).snapshot();
        let observation = CallAuctionAmendObservation {
            order,
            new_quantity: command.new_quantity,
        };
        if !accept(&observation) {
            self.decline(prepared);
            return Ok(ConditionalCallAuctionCommandOutcome::Declined(observation));
        }
        match self.settle(prepared, Ghost(entry)) {
            Ok(report) => Ok(
                ConditionalCallAuctionCommandOutcome::Reported {
                    observation: Some(observation),
                    report,
                },
            ),
            Err(error) => Err(error),
        }
    }

    /// Atomically risk-gates, observes, and conditionally commits one
    /// replacement. A replay, a rejection and a risk refusal are reported without asking `accept`.
    pub fn try_submit_replace_order_if<F: FnOnce(&CallAuctionReplaceObservation) -> bool>(
        &mut self,
        command: CallAuctionReplaceOrder,
        accept: F,
    ) -> (r: Result<
        ConditionalCallAuctionCommandOutcome<CallAuctionReplaceObservation>,
        CallAuctionEngineError,
    >)
        requires
            old(self).wf(),
            forall|observation: CallAuctionReplaceObservation| #[trigger]
                accept.requires((&observation,)),
        ensures
            final(self).wf(),
            final(self).engine.free_buffers() == old(self).engine.free_buffers(),
            ({
                let observed = CallAuctionReplaceObservation {
                    target: old(self).engine.book.active()[command.target_order_id],
                    replacement: command.replacement,
                };
                final(self).conditionally(
                    old(self),
                    CallAuctionCommand::Replace(command),
                    observed,
                    |given: bool| accept.ensures((&observed,), given),
                    r,
                )
            }),
    {
        let ghost entry = *self;
        let request = CallAuctionCommand::Replace(command);
        let prepared = match self.prepare(request) {
            Err(error) => {
                return Err(error);
            },
            Ok(CallAuctionCommandPreparation::Replay(report)) => {
                return Ok(
                    ConditionalCallAuctionCommandOutcome::Reported { observation: None, report },
                );
            },
            Ok(CallAuctionCommandPreparation::Ready(prepared)) => prepared,
        };
        let mut shown: bool = prepared.core_rejection().is_none();
        if shown {
            proof {
                self.lemma_replaceable(&entry.engine, request);
            }
            shown = self.risk.authorize(request).is_ok();
        }
        if !shown {
            return match self.settle(prepared, Ghost(entry)) {
                Ok(report) => Ok(
                    ConditionalCallAuctionCommandOutcome::Reported { observation: None, report },
                ),
                Err(error) => Err(error),
            };
        }
        proof {
            assert(entry.engine.book.active().dom().contains(command.target_order_id));
            assert(self.engine.book.active() == entry.engine.book.active());
            assert(self.engine.book.orders@.dom().contains(command.target_order_id));
        }
        let order = self.engine.book.orders.fetch(command.target_order_id).snapshot();
        let observation = CallAuctionReplaceObservation {
            target: order,
            replacement: command.replacement,
        };
        if !accept(&observation) {
            self.decline(prepared);
            return Ok(ConditionalCallAuctionCommandOutcome::Declined(observation));
        }
        match self.settle(prepared, Ghost(entry)) {
            Ok(report) => Ok(
                ConditionalCallAuctionCommandOutcome::Reported {
                    observation: Some(observation),
                    report,
                },
            ),
            Err(error) => Err(error),
        }
    }

    /// What a conditional command with a borrowed observation does.
    pub open spec fn conditionally_shown(
        &self,
        old: &Self,
        command: CallAuctionCommand,
        accepts: spec_fn(bool) -> bool,
        r: Result<ConditionalCallAuctionOutcome, CallAuctionEngineError>,
    ) -> bool {
        match r {
            Ok(ConditionalCallAuctionOutcome::Declined) => {
                &&& old.admits(command)
                &&& accepts(false)
                &&& self.undisturbed(old)
            },
            Ok(ConditionalCallAuctionOutcome::Reported(report)) => if old.admits(command) {
                accepts(true) && self.sequences_from(old, command, report)
            } else {
                self.reports_unobserved(old, command, report)
            },
            Err(error) => old.refuses(command, error) && self.undisturbed(old),
        }
    }

    /// Whether an observation shows what a mass cancellation would remove.
    pub open spec fn shows_mass_cancel(
        &self,
        command: CallAuctionMassCancel,
        observation: CallAuctionMassCancelObservation,
    ) -> bool {
        &&& observation.account_id == command.account_id
        &&& observation.scope == command.scope
        &&& observation.orders@ == self.engine.book.selected_orders(
            command.account_id,
            command.scope,
        )
    }

    /// Lists the active orders that a mass cancellation selects.
    fn observe_selected(&self, account_id: AccountId, scope: MassCancelScope) -> (r: Vec<
        CallAuctionOrderSnapshot,
    >)
        requires
            self.wf(),
        ensures
            r@ == self.engine.book.selected_orders(account_id, scope),
    {
        let book = &self.engine.book;
        let ids = book.account_active_order_ids(account_id, scope);
        let ghost picked = book.selected(account_id, scope);
        let mut orders: Vec<CallAuctionOrderSnapshot> = Vec::new();
        proof {
            lemma_selection(book, account_id, scope);
        }
        while orders.len() < ids.len()
            invariant
                self.wf(),
                *book == self.engine.book,
                picked == book.selected(account_id, scope),
                orders@.len() <= ids@.len(),
                forall|id: OrderId| #[trigger] ids@.contains(id) <==> picked.contains(id),
                forall|i: int|
                    0 <= i < orders@.len() ==> #[trigger] orders@[i] == book.active()[ids@[i]]
                        && orders@[i].order_id == ids@[i],
            decreases ids@.len() - orders@.len(),
        {
            let id = ids[orders.len()];
            proof {
                assert(ids@.contains(id));
                assert(picked.contains(id));
                assert(book.orders@.dom().contains(id));
                assert(book.order_ok(id));
            }
            orders.push(book.orders.fetch(id).snapshot());
        }
        proof {
            assert forall|i: int| 0 <= i < orders@.len() implies picked.contains(
                (#[trigger] orders@[i]).order_id,
            ) && orders@[i] == book.active()[orders@[i].order_id] by {
                assert(ids@.contains(ids@[i]));
            }
            assert forall|i: int, j: int| 0 <= i < j < orders@.len() implies (
            #[trigger] orders@[i]).order_id.value < (#[trigger] orders@[j]).order_id.value by {
                assert(ids@[i].value < ids@[j].value);
            }
            assert forall|id: OrderId| #[trigger] picked.contains(id) implies exists|i: int|
                0 <= i < orders@.len() && (#[trigger] orders@[i]).order_id == id by {
                assert(ids@.contains(id));
                let i = choose|i: int| 0 <= i < ids@.len() && ids@[i] == id;
                assert(orders@[i].order_id == id);
            }
            assert(lists_orders(orders@, book.active(), picked));
            book.lemma_selected_listed(account_id, scope);
            lemma_listing_unique(
                orders@,
                book.selected_orders(account_id, scope),
                book.active(),
                picked,
            );
        }
        orders
    }

    /// Atomically observes and conditionally commits one account mass
    /// cancellation. A replay and a rejection are reported without asking
    /// `accept`.
    pub fn try_submit_mass_cancel_if<
        F: FnOnce(&CallAuctionMassCancelObservation<'_>) -> bool,
    >(&mut self, command: CallAuctionMassCancel, accept: F) -> (r: Result<
        ConditionalCallAuctionOutcome,
        CallAuctionEngineError,
    >)
        requires
            old(self).wf(),
            forall|observation: CallAuctionMassCancelObservation| #[trigger]
                accept.requires((&observation,)),
        ensures
            final(self).wf(),
            final(self).engine.free_buffers() == old(self).engine.free_buffers(),
            final(self).conditionally_shown(
                old(self),
                CallAuctionCommand::MassCancel(command),
                |given: bool|
                    exists|observation: CallAuctionMassCancelObservation|
                        old(self).shows_mass_cancel(command, observation)
                            && #[trigger] accept.ensures((&observation,), given),
                r,
            ),
    {
        let ghost entry = *self;
        let request = CallAuctionCommand::MassCancel(command);
        let prepared = match self.prepare(request) {
            Err(error) => {
                return Err(error);
            },
            Ok(CallAuctionCommandPreparation::Replay(report)) => {
                return Ok(ConditionalCallAuctionOutcome::Reported(report));
            },
            Ok(CallAuctionCommandPreparation::Ready(prepared)) => prepared,
        };
        if prepared.core_rejection().is_none() {
            let orders = self.observe_selected(command.account_id, command.scope);
            proof {
                assert(self.engine.book.active() == entry.engine.book.active());
                entry.lemma_same_selection(self, command);
            }
            let observation = CallAuctionMassCancelObservation {
                account_id: command.account_id,
                scope: command.scope,
                orders: orders.as_slice(),
            };
            proof {
                assert(entry.shows_mass_cancel(command, observation));
            }
            if !accept(&observation) {
                self.decline(prepared);
                return Ok(ConditionalCallAuctionOutcome::Declined);
            }
        }
        match self.settle(prepared, Ghost(entry)) {
            Ok(report) => Ok(ConditionalCallAuctionOutcome::Reported(report)),
            Err(error) => Err(error),
        }
    }

    /// Leases do not change what a mass cancellation selects.
    proof fn lemma_same_selection(&self, other: &Self, command: CallAuctionMassCancel)
        requires
            self.wf(),
            other.wf(),
            other.engine.book.active() == self.engine.book.active(),
        ensures
            other.engine.book.selected_orders(command.account_id, command.scope)
                == self.engine.book.selected_orders(command.account_id, command.scope),
    {
        let account = command.account_id;
        let scope = command.scope;
        let book = &self.engine.book;
        let twin = &other.engine.book;
        assert(book.selected(account, scope) =~= twin.selected(account, scope)) by {
            assert forall|id: OrderId| book.selected(account, scope).contains(id)
                <==> twin.selected(account, scope).contains(id) by {
                assert(book.active().dom().contains(id) == book.orders@.dom().contains(id));
                assert(twin.active().dom().contains(id) == twin.orders@.dom().contains(id));
                if book.orders@.dom().contains(id) {
                    assert(book.active()[id] == twin.active()[id]);
                }
            }
        }
        book.lemma_selected_listed(account, scope);
        twin.lemma_selected_listed(account, scope);
        lemma_listing_unique(
            book.selected_orders(account, scope),
            twin.selected_orders(account, scope),
            book.active(),
            book.selected(account, scope),
        );
    }

    /// Whether an observation shows what an uncross would execute.
    pub open spec fn shows_uncross(
        &self,
        command: CallAuctionUncrossCommand,
        observation: CallAuctionUncrossObservation,
    ) -> bool {
        self.engine.action_matches(
            CallAuctionCommand::Uncross(command),
            PreparedCallAuctionAction::Uncross {
                auction_id: command.auction_id,
                phase_revision: (self.engine.phase_revision + 1) as u64,
                prepared: *observation.uncross,
            },
        )
    }

    /// Atomically observes and conditionally commits one uncross. A replay and a
    /// rejection are reported without asking `accept`.
    pub fn try_submit_uncross_if<F: FnOnce(&CallAuctionUncrossObservation<'_>) -> bool>(
        &mut self,
        command: CallAuctionUncrossCommand,
        accept: F,
    ) -> (r: Result<ConditionalCallAuctionOutcome, CallAuctionEngineError>)
        requires
            old(self).wf(),
            forall|observation: CallAuctionUncrossObservation| #[trigger]
                accept.requires((&observation,)),
        ensures
            final(self).wf(),
            final(self).engine.free_buffers() == old(self).engine.free_buffers(),
            final(self).conditionally_shown(
                old(self),
                CallAuctionCommand::Uncross(command),
                |given: bool|
                    exists|observation: CallAuctionUncrossObservation|
                        old(self).shows_uncross(command, observation)
                            && #[trigger] accept.ensures((&observation,), given),
                r,
            ),
    {
        let ghost entry = *self;
        let request = CallAuctionCommand::Uncross(command);
        let prepared = match self.prepare(request) {
            Err(error) => {
                return Err(error);
            },
            Ok(CallAuctionCommandPreparation::Replay(report)) => {
                return Ok(ConditionalCallAuctionOutcome::Reported(report));
            },
            Ok(CallAuctionCommandPreparation::Ready(prepared)) => prepared,
        };
        let mut accepted: bool = true;
        if let PreparedCallAuctionAction::Uncross { prepared: uncross, .. } = &prepared.action {
            let observation = CallAuctionUncrossObservation { uncross };
            proof {
                assert(entry.shows_uncross(command, observation));
            }
            accepted = accept(&observation);
        }
        if !accepted {
            self.decline(prepared);
            return Ok(ConditionalCallAuctionOutcome::Declined);
        }
        match self.settle(prepared, Ghost(entry)) {
            Ok(report) => Ok(ConditionalCallAuctionOutcome::Reported(report)),
            Err(error) => Err(error),
        }
    }
}

} // verus!
