//! What an audited history, a projection and a checkpoint vouch for.

use vstd::prelude::*;

use crate::auction::AuctionOrderConstraint;
use crate::auction_engine::CallAuctionEngine;
use crate::book_interest::ActiveOrders;
use crate::book_types::{
    CallAuctionCancellation, CallAuctionOrder, CallAuctionOrderSnapshot, CallAuctionTrade,
};
use crate::domain::{CommandId, InstrumentId, InstrumentVersion, MassCancelScope, OrderId, Side};
use crate::engine_audit::{entry_audited, history_audited, next_event_after};
use crate::engine_checkpoint::CallAuctionCheckpoint;
use crate::engine_grammar::{
    cancelled_lots, cancelled_number, decoded_report, report_grammar, trade_number, traded_lots,
};
use crate::engine_projection::{remainder_removed, traded, ProjectedState};
use crate::engine_types::{
    CallAuctionCancellationReason, CallAuctionCommand, CallAuctionCommandOutcome,
    CallAuctionCommandReportCheckpoint, CallAuctionEngineError, CallAuctionEvent,
    CallAuctionEventKind, CallAuctionExecutionReport, CallAuctionMassCancel, CallAuctionPhase,
    CallAuctionPhaseSnapshot, CallAuctionRejectReason,
};
use crate::instrument::InstrumentDefinition;
use crate::risk_conditional::{
    CallAuctionMassCancelObservation, ConditionalCallAuctionCommandOutcome,
    ConditionalCallAuctionOutcome,
};
use crate::risk_managed::CallAuctionRiskManagedEngine;

verus! {

/// An audited history numbers its commands from one on, and each report carries
/// its command's identity, at least one event, the command's receive time, and
/// event sequences that continue from one report to the next.
pub proof fn law_audited_history_is_contiguous(
    history: Seq<CallAuctionCommandReportCheckpoint>,
    index: int,
    k: int,
)
    requires
        history_audited(history),
        0 <= index < history.len(),
        0 <= k < history[index].report.events@.len(),
    ensures
        ({
            let entry = history[index];
            let event = entry.report.events@[k];
            let (id, time) = match entry.command {
                CallAuctionCommand::PhaseControl(control) => (
                    control.command_id,
                    control.received_at,
                ),
                CallAuctionCommand::Submit(submit) => (submit.command_id, submit.received_at),
                CallAuctionCommand::Cancel(cancel) => (cancel.command_id, cancel.received_at),
                CallAuctionCommand::MassCancel(cancel) => (cancel.command_id, cancel.received_at),
                CallAuctionCommand::Amend(amend) => (amend.command_id, amend.received_at),
                CallAuctionCommand::Replace(replace) => (replace.command_id, replace.received_at),
                CallAuctionCommand::Uncross(uncross) => (uncross.command_id, uncross.received_at),
            };
            &&& entry.report.command_id == id
            &&& entry.report.command_sequence == index + 1
            &&& !entry.report.replayed
            &&& event.command_id == id
            &&& event.occurred_at == time
            &&& index == 0 ==> event.sequence == 1 + k
            &&& index > 0 ==> {
                let before = history[index - 1].report.events@;
                &&& before.len() > 0
                &&& event.sequence == before[before.len() - 1].sequence + 1 + k
            }
        }),
{
    assert(entry_audited(history, index));
    if index > 0 {
        assert(entry_audited(history, index - 1));
        let before = history[index - 1].report.events@;
        assert(before[before.len() - 1].sequence == next_event_after(history, (index - 1) as nat)
            + before.len() - 1);
    }
}

/// Lots of the orders that the first `count` events cancel.
pub open spec fn lots_cancelled(events: Seq<CallAuctionEvent>, count: nat) -> int
    decreases count,
{
    if count == 0 {
        0
    } else {
        lots_cancelled(events, (count - 1) as nat) + match events[count - 1].kind {
            CallAuctionEventKind::OrderCancelled { order, .. } => order.quantity.lots as int,
            _ => 0,
        }
    }
}

/// Lots of the trades among the first `count` events.
pub open spec fn lots_traded(events: Seq<CallAuctionEvent>, count: nat) -> int
    decreases count,
{
    if count == 0 {
        0
    } else {
        lots_traded(events, (count - 1) as nat) + match events[count - 1].kind {
            CallAuctionEventKind::Trade(trade) => trade.quantity.lots as int,
            _ => 0,
        }
    }
}

proof fn lemma_event_lots(events: Seq<CallAuctionEvent>, count: nat)
    ensures
        lots_cancelled(events, count) == cancelled_lots(events, count),
        lots_traded(events, count) == traded_lots(events, count),
    decreases count,
{
    if count > 0 {
        lemma_event_lots(events, (count - 1) as nat);
    }
}

/// A retained report has the trace that its command asks for: a rejection is its
/// only event; an accepted order repeats the submitted one; a cancellation is the
/// owner's; an amendment reduces; a replacement removes its target and repeats the
/// new order; a phase change reaches the target one revision later.
pub proof fn law_retained_report_answers_command(entry: CallAuctionCommandReportCheckpoint)
    requires
        report_grammar(entry),
    ensures
        ({
            let events = entry.report.events@;
            match entry.report.outcome {
                CallAuctionCommandOutcome::Rejected(reason) => {
                    &&& events.len() == 1
                    &&& events[0].kind == CallAuctionEventKind::CommandRejected(reason)
                },
                CallAuctionCommandOutcome::Accepted => match entry.command {
                    CallAuctionCommand::PhaseControl(control) => {
                        let kind = events[0].kind;
                        &&& events.len() == 1
                        &&& kind is PhaseChanged
                        &&& kind->PhaseChanged_auction_id == control.auction_id
                        &&& kind->PhaseChanged_current == control.target_phase
                        &&& kind->PhaseChanged_revision == control.expected_phase_revision + 1
                    },
                    CallAuctionCommand::Submit(submit) => {
                        &&& events.len() == 1
                        &&& events[0].kind is OrderAccepted
                        &&& repeats_order(events[0].kind->OrderAccepted_0, submit.order)
                    },
                    CallAuctionCommand::Cancel(cancel) => {
                        let kind = events[0].kind;
                        &&& events.len() == 1
                        &&& kind is OrderCancelled
                        &&& kind->OrderCancelled_reason
                            == CallAuctionCancellationReason::UserRequested
                        &&& kind->OrderCancelled_order.order_id == cancel.order_id
                        &&& kind->OrderCancelled_order.account_id == cancel.account_id
                    },
                    CallAuctionCommand::Amend(amend) => {
                        let kind = events[0].kind;
                        &&& events.len() == 1
                        &&& kind is OrderAmended
                        &&& kind->OrderAmended_order.order_id == amend.order_id
                        &&& kind->OrderAmended_order.account_id == amend.account_id
                        &&& kind->OrderAmended_order.quantity == amend.new_quantity
                        &&& amend.new_quantity.lots < kind->OrderAmended_previous_quantity.lots
                    },
                    CallAuctionCommand::Replace(replace) => {
                        let kind = events[0].kind;
                        &&& events.len() == 2
                        &&& kind is OrderCancelled
                        &&& kind->OrderCancelled_reason == CallAuctionCancellationReason::Replaced
                        &&& kind->OrderCancelled_order.order_id == replace.target_order_id
                        &&& kind->OrderCancelled_order.account_id == replace.account_id
                        &&& events[1].kind is OrderAccepted
                        &&& repeats_order(events[1].kind->OrderAccepted_0, replace.replacement)
                    },
                    _ => true,
                },
            }
        }),
{
}

/// Whether an accepted order repeats the submitted one.
pub open spec fn repeats_order(
    snapshot: CallAuctionOrderSnapshot,
    order: CallAuctionOrder,
) -> bool {
    &&& snapshot.order_id == order.order_id
    &&& snapshot.account_id == order.account_id
    &&& snapshot.side == order.side
    &&& snapshot.constraint == order.constraint
    &&& snapshot.quantity == order.quantity
}

/// The report of an accepted mass cancel lists cancelled orders of the account on
/// the named side, or on both, by rising identity, and then counts and sums them.
pub proof fn law_mass_cancel_report_is_scoped(
    entry: CallAuctionCommandReportCheckpoint,
    i: int,
    j: int,
)
    requires
        report_grammar(entry),
        entry.report.outcome == CallAuctionCommandOutcome::Accepted,
        entry.command is MassCancel,
    ensures
        ({
            let events = entry.report.events@;
            let command = entry.command->MassCancel_0;
            let count = events.len() - 1;
            let last = events[count].kind;
            &&& events.len() > 0
            &&& last is MassCancelCompleted
            &&& last->MassCancelCompleted_account_id == command.account_id
            &&& last->MassCancelCompleted_scope == command.scope
            &&& last->MassCancelCompleted_cancelled_order_count == count
            &&& last->MassCancelCompleted_cancelled_quantity_lots == lots_cancelled(
                events,
                count as nat,
            )
            &&& 0 <= i < count ==> {
                let order = events[i].kind->OrderCancelled_order;
                &&& events[i].kind is OrderCancelled
                &&& events[i].kind->OrderCancelled_reason
                    == CallAuctionCancellationReason::MassCancel
                &&& order.account_id == command.account_id
                &&& match command.scope {
                    MassCancelScope::All => true,
                    MassCancelScope::Side(Side::Buy) => order.side == Side::Buy,
                    MassCancelScope::Side(Side::Sell) => order.side == Side::Sell,
                }
            }
            &&& 0 <= i < j < count ==> events[i].kind->OrderCancelled_order.order_id.value
                < events[j].kind->OrderCancelled_order.order_id.value
        }),
{
    let events = entry.report.events@;
    let count = events.len() - 1;
    lemma_event_lots(events, count as nat);
    if 0 <= i < j < count {
        assert(cancelled_number(events[i]) < cancelled_number(events[j]));
        assert(events[i].kind is OrderCancelled && events[j].kind is OrderCancelled);
    }
}

/// The report of an accepted uncross lists trades at the clearing price with
/// consecutive identities whose lots add up to the executable quantity, then
/// remainder cancellations, then a completion that counts both.
pub proof fn law_uncross_report_reconciles(
    entry: CallAuctionCommandReportCheckpoint,
    i: int,
)
    requires
        report_grammar(entry),
        entry.report.outcome == CallAuctionCommandOutcome::Accepted,
        entry.command is Uncross,
    ensures
        ({
            let events = entry.report.events@;
            let command = entry.command->Uncross_0;
            let last = events[events.len() - 1].kind;
            let clearing = last->UncrossCompleted_clearing;
            let trades = last->UncrossCompleted_trade_count;
            let removals = last->UncrossCompleted_cancellation_count;
            &&& events.len() == trades + removals + 1
            &&& last is UncrossCompleted
            &&& last->UncrossCompleted_auction_id == command.auction_id
            &&& last->UncrossCompleted_policy == command.uncross_policy
            &&& last->UncrossCompleted_phase_revision == command.expected_phase_revision + 1
            &&& lots_traded(events, trades as nat) == clearing.executable_quantity
            &&& 0 <= i < trades ==> {
                &&& events[i].kind is Trade
                &&& events[i].kind->Trade_0.price == clearing.price
                &&& events[i].kind->Trade_0.trade_id.value
                    == events[0].kind->Trade_0.trade_id.value + i
            }
            &&& trades <= i < trades + removals ==> events[i].kind is RemainderCancelled
        }),
{
    let events = entry.report.events@;
    let trades = events[events.len() - 1].kind->UncrossCompleted_trade_count;
    lemma_event_lots(events, trades as nat);
    if 0 < i < trades {
        assert(trade_number(events[i]) == trade_number(events[0]) + (i - 0));
        assert(events[0].kind is Trade);
    }
}

/// A trade that a projection takes is between an active buy and an active sell
/// order of the named accounts, at a price that both limits accept, and takes its
/// positive lots from both: an order without lots left leaves, the other keeps the
/// rest, and no third order changes.
pub proof fn law_projected_trade_is_fair(
    orders: ActiveOrders,
    trade: CallAuctionTrade,
    next: ActiveOrders,
    id: OrderId,
)
    requires
        traded(orders, trade) == Some(next),
    ensures
        ({
            let buy = orders[trade.buy_order_id];
            let sell = orders[trade.sell_order_id];
            let lots = trade.quantity.lots;
            &&& orders.dom().contains(trade.buy_order_id)
            &&& orders.dom().contains(trade.sell_order_id)
            &&& trade.buy_order_id != trade.sell_order_id
            &&& buy.side == Side::Buy && sell.side == Side::Sell
            &&& buy.account_id == trade.buy_account_id
            &&& sell.account_id == trade.sell_account_id
            &&& 0 < lots <= buy.quantity.lots
            &&& lots <= sell.quantity.lots
            &&& match buy.constraint {
                AuctionOrderConstraint::Market => true,
                AuctionOrderConstraint::Limit(limit) => trade.price.raw <= limit.raw,
            }
            &&& match sell.constraint {
                AuctionOrderConstraint::Market => true,
                AuctionOrderConstraint::Limit(limit) => trade.price.raw >= limit.raw,
            }
            &&& next.dom().contains(trade.buy_order_id) <==> lots < buy.quantity.lots
            &&& next.dom().contains(trade.sell_order_id) <==> lots < sell.quantity.lots
            &&& lots < buy.quantity.lots ==> next[trade.buy_order_id].quantity.lots
                == buy.quantity.lots - lots && next[trade.buy_order_id].priority_sequence
                == buy.priority_sequence
            &&& lots < sell.quantity.lots ==> next[trade.sell_order_id].quantity.lots
                == sell.quantity.lots - lots && next[trade.sell_order_id].priority_sequence
                == sell.priority_sequence
            &&& id != trade.buy_order_id && id != trade.sell_order_id ==> (next.dom().contains(id)
                <==> orders.dom().contains(id)) && (orders.dom().contains(id) ==> next[id]
                == orders[id])
        }),
{
}

/// A remainder that a projection removes is that of an active order of the named
/// account, side and constraint, with all its lots, and together with what it
/// executed it is what the order held before the uncross.
pub proof fn law_projected_remainder_reconciles(
    start: ActiveOrders,
    orders: ActiveOrders,
    cancellation: CallAuctionCancellation,
    next: ActiveOrders,
    id: OrderId,
)
    requires
        remainder_removed(start, orders, cancellation) == Some(next),
    ensures
        ({
            let order = orders[cancellation.order_id];
            &&& orders.dom().contains(cancellation.order_id)
            &&& order.account_id == cancellation.account_id
            &&& order.side == cancellation.side
            &&& order.constraint == cancellation.constraint
            &&& order.quantity == cancellation.quantity
            &&& cancellation.executed_quantity_lots
                == start[cancellation.order_id].quantity.lots - order.quantity.lots
            &&& !next.dom().contains(cancellation.order_id)
            &&& id != cancellation.order_id ==> (next.dom().contains(id) <==> orders.dom().contains(
                id,
            )) && (orders.dom().contains(id) ==> next[id] == orders[id])
        }),
{
}

impl ProjectedState {
    /// An acceptance that a projection takes has the next priority sequence and a
    /// new identity, repeats the submitted order, and obeys the quantity and price
    /// rules.
    pub proof fn law_projected_acceptance_is_valid(
        self,
        definition: InstrumentDefinition,
        order: CallAuctionOrder,
        snapshot: CallAuctionOrderSnapshot,
        next: ProjectedState,
    )
        requires
            self.accepting(definition, order, snapshot) == Some(next),
        ensures
            snapshot.priority_sequence == self.next_priority_sequence,
            next.next_priority_sequence == self.next_priority_sequence + 1,
            !self.accepted.contains(snapshot.order_id),
            next.accepted.contains(snapshot.order_id),
            next.orders.dom().contains(snapshot.order_id),
            next.orders[snapshot.order_id] == snapshot,
            repeats_order(snapshot, order),
            definition.quantity.minimum <= order.quantity.lots <= definition.quantity.maximum,
            order.quantity.lots as int % definition.quantity.increment as int == 0,
            match order.constraint {
                AuctionOrderConstraint::Market => true,
                AuctionOrderConstraint::Limit(limit) => {
                    &&& limit.raw as int % definition.price.tick_size as int == 0
                    &&& definition.price.minimum.raw <= limit.raw
                    &&& limit.raw <= definition.price.maximum.raw
                },
            },
    {
    }
}

impl CallAuctionPhaseSnapshot {
    /// A retained phase control that an audit follows as accepted moves along the
    /// phase graph: a closed engine opens for collection under the next cycle, and
    /// an open one moves its active cycle to another phase, one revision later.
    pub proof fn law_audited_phases_follow_graph(
        self,
        entry: CallAuctionCommandReportCheckpoint,
        instrument_id: InstrumentId,
        instrument_version: InstrumentVersion,
        next: Self,
    )
        requires
            entry.command is PhaseControl,
            entry.report.outcome == CallAuctionCommandOutcome::Accepted,
            self.observed(entry, instrument_id, instrument_version) == Some(next),
        ensures
            ({
                let control = entry.command->PhaseControl_0;
                &&& control.instrument_id == instrument_id
                &&& control.instrument_version == instrument_version
                &&& control.expected_phase_revision == self.revision
                &&& next.phase == control.target_phase
                &&& next.phase != self.phase
                &&& next.revision == self.revision + 1
                &&& self.phase == CallAuctionPhase::Closed ==> {
                    &&& next.phase == CallAuctionPhase::Collecting
                    &&& next.active_auction_id == Some(control.auction_id)
                    &&& match self.last_auction_id {
                        None => control.auction_id.value == 1,
                        Some(last) => control.auction_id.value == last.value + 1,
                    }
                }
                &&& self.phase != CallAuctionPhase::Closed ==> self.active_auction_id == Some(
                    control.auction_id,
                ) && next.last_auction_id == self.last_auction_id
                &&& next.phase == CallAuctionPhase::Closed ==> next.active_auction_id is None
            }),
    {
    }
}

impl CallAuctionCheckpoint {
    /// A valid checkpoint ends one command and one report frame per retained
    /// command behind its definition, holds its commands under distinct
    /// identities, and its history is audited.
    pub proof fn law_valid_checkpoint_ends_at_boundary(&self, i: int, j: int)
        requires
            self.valid(),
        ensures
            self.wal_metadata_sequence > 0,
            self.wal_sequence == self.wal_metadata_sequence + 2 * self.history@.len(),
            history_audited(self.history@),
            0 <= i < j < self.history@.len() ==> self.history@[i].report.command_id
                != self.history@[j].report.command_id,
    {
        if 0 <= i < j < self.history@.len() {
            assert(entry_audited(self.history@, i));
            assert(entry_audited(self.history@, j));
        }
    }

    /// A successor is of the same log and definition, not shorter, and begins with
    /// the commands and reports of its predecessor.
    pub proof fn law_successor_extends_history(&self, previous: &Self, i: int)
        requires
            self.succeeds(previous),
        ensures
            self.wal_metadata_sequence == previous.wal_metadata_sequence,
            self.definition == previous.definition,
            self.wal_sequence >= previous.wal_sequence,
            self.history@.len() >= previous.history@.len(),
            0 <= i < previous.history@.len() ==> {
                let now = self.history@[i];
                let before = previous.history@[i];
                &&& now.command == before.command
                &&& now.report.command_id == before.report.command_id
                &&& now.report.command_sequence == before.report.command_sequence
                &&& now.report.outcome == before.report.outcome
                &&& now.report.events@ == before.report.events@
            },
    {
    }

    /// Succession is transitive.
    pub proof fn law_succession_is_transitive(&self, middle: &Self, first: &Self)
        requires
            self.succeeds(middle),
            middle.succeeds(first),
        ensures
            self.succeeds(first),
    {
        assert forall|i: int| 0 <= i < first.history@.len() implies (
        #[trigger] self.history@[i]).same(&first.history@[i]) by {
            assert(middle.history@[i].same(&first.history@[i]));
            assert(self.history@[i].same(&middle.history@[i]));
        }
    }

    /// A capture of an engine after a command succeeds the capture before it.
    pub proof fn law_later_capture_succeeds(
        &self,
        previous: &Self,
        before: &CallAuctionEngine,
        after: &CallAuctionEngine,
        command: CallAuctionCommand,
        report: CallAuctionExecutionReport,
    )
        requires
            after.submits_from(before, command, report),
            before.captured_by(previous),
            after.captured_by(self),
            self.wal_metadata_sequence == previous.wal_metadata_sequence,
            self.wal_sequence >= previous.wal_sequence,
        ensures
            self.succeeds(previous),
            self.history@.len() == previous.history@.len() + 1,
    {
        assert forall|i: int| 0 <= i < previous.history@.len() implies (
        #[trigger] self.history@[i]).same(&previous.history@[i]) by {
            assert(after.history@.drop_last()[i] == before.history@[i]);
        }
    }
}

impl CallAuctionEngine {
    /// A checkpoint of an engine holds its definition, phase, counters, every
    /// active order, every accepted identity and the whole history.
    pub proof fn law_capture_holds_live_state(
        &self,
        checkpoint: &CallAuctionCheckpoint,
        id: OrderId,
    )
        requires
            self.wf(),
            self.captured_by(checkpoint),
        ensures
            checkpoint.definition == self.book.definition,
            checkpoint.phase.phase == self.phase,
            checkpoint.phase.revision == self.phase_revision,
            checkpoint.phase.active_auction_id == self.active_auction_id,
            checkpoint.phase.last_auction_id == self.last_auction_id,
            checkpoint.book_revision == self.book.state_revision,
            checkpoint.next_priority_sequence == self.book.next_priority_sequence,
            checkpoint.next_trade_id == self.book.next_trade_id,
            checkpoint.history@ == self.history@,
            self.book.active().dom().contains(id) <==> exists|i: int|
                0 <= i < checkpoint.active_orders@.len() && (
                #[trigger] checkpoint.active_orders@[i]).order_id == id,
            self.book.accepted().contains(id) <==> exists|i: int|
                0 <= i < checkpoint.accepted_order_ids@.len()
                    && #[trigger] checkpoint.accepted_order_ids@[i] == id,
            forall|i: int|
                0 <= i < checkpoint.active_orders@.len() ==> (
                #[trigger] checkpoint.active_orders@[i])
                    == self.book.active()[checkpoint.active_orders@[i].order_id],
    {
        self.book.law_active_orders_are_listed(id, 0, 0);
        self.book.law_accepted_identities_are_listed(id, 0, 0);
        assert forall|i: int| 0 <= i < checkpoint.active_orders@.len() implies (
        #[trigger] checkpoint.active_orders@[i])
            == self.book.active()[checkpoint.active_orders@[i].order_id] by {
            self.book.law_active_orders_are_listed(id, i, i);
        }
    }
}

impl CallAuctionRiskManagedEngine {
    /// A command that its caller declined was one that would have been accepted,
    /// and changes no order, counter, phase, history or risk.
    pub proof fn law_declined_command_changes_nothing<T>(
        &self,
        after: &Self,
        command: CallAuctionCommand,
        observed: T,
        accepts: spec_fn(bool) -> bool,
        observation: T,
    )
        requires
            after.conditionally(
                self,
                command,
                observed,
                accepts,
                Ok(ConditionalCallAuctionCommandOutcome::Declined(observation)),
            ),
        ensures
            accepts(false),
            observation == observed,
            self.risk.refusal(command) is None,
            self.engine.decide(command) == Ok::<
                Option<CallAuctionRejectReason>,
                CallAuctionEngineError,
            >(None),
            after.engine.book.active() == self.engine.book.active(),
            after.engine.book.state_revision == self.engine.book.state_revision,
            after.engine.phase == self.engine.phase,
            after.engine.phase_revision == self.engine.phase_revision,
            after.engine.history@ == self.engine.history@,
            after.engine.next_command_sequence == self.engine.next_command_sequence,
            after.risk == self.risk,
    {
    }

    /// A command that reports with an observation was shown to its caller, who
    /// accepted it, and then did what submitting it does.
    pub proof fn law_observed_command_was_accepted<T>(
        &self,
        after: &Self,
        command: CallAuctionCommand,
        observed: T,
        accepts: spec_fn(bool) -> bool,
        observation: T,
        report: CallAuctionExecutionReport,
    )
        requires
            after.conditionally(
                self,
                command,
                observed,
                accepts,
                Ok(
                    ConditionalCallAuctionCommandOutcome::Reported {
                        observation: Some(observation),
                        report,
                    },
                ),
            ),
        ensures
            accepts(true),
            observation == observed,
            report.outcome == CallAuctionCommandOutcome::Accepted,
            after.engine.submits_from(&self.engine, command, report),
    {
        self.law_refusal_is_the_only_difference(after, command, report);
    }

    /// The same of a command whose observation is borrowed.
    pub proof fn law_shown_command_is_decided(
        &self,
        after: &Self,
        command: CallAuctionCommand,
        accepts: spec_fn(bool) -> bool,
        r: Result<ConditionalCallAuctionOutcome, CallAuctionEngineError>,
    )
        requires
            after.conditionally_shown(self, command, accepts, r),
        ensures
            r matches Ok(ConditionalCallAuctionOutcome::Declined) ==> {
                &&& accepts(false)
                &&& after.engine.book.active() == self.engine.book.active()
                &&& after.engine.phase == self.engine.phase
                &&& after.engine.phase_revision == self.engine.phase_revision
                &&& after.engine.history@ == self.engine.history@
                &&& after.risk == self.risk
            },
            r is Err ==> {
                &&& after.engine.book.active() == self.engine.book.active()
                &&& after.engine.phase == self.engine.phase
                &&& after.engine.history@ == self.engine.history@
                &&& after.risk == self.risk
            },
    {
    }
}

/// Decoded values that form a report are sequenced, owned and contiguous; a phase
/// change among them follows the phase graph, and an amendment reduces.
pub proof fn law_decoded_report_is_whole(
    command_id: CommandId,
    command_sequence: u64,
    outcome: CallAuctionCommandOutcome,
    events: Seq<CallAuctionEvent>,
    k: int,
)
    requires
        decoded_report(command_id, command_sequence, outcome, events),
    ensures
        command_sequence > 0,
        events.len() > 0,
        events[0].sequence > 0,
        0 <= k < events.len() ==> events[k].command_id == command_id && events[k].sequence
            == events[0].sequence + k,
        outcome is Rejected ==> events.len() == 1 && events[0].kind
            == CallAuctionEventKind::CommandRejected(outcome->Rejected_0),
        outcome == CallAuctionCommandOutcome::Accepted && events.len() == 1
            ==> match events[0].kind {
            CallAuctionEventKind::PhaseChanged { previous, current, revision, .. } => {
                &&& revision > 0
                &&& previous != current
                &&& previous == CallAuctionPhase::Closed ==> current == CallAuctionPhase::Collecting
            },
            CallAuctionEventKind::OrderCancelled { reason, .. } => reason
                == CallAuctionCancellationReason::UserRequested,
            CallAuctionEventKind::OrderAmended { order, previous_quantity, book_revision } => {
                order.quantity.lots < previous_quantity.lots && book_revision > 0
            },
            CallAuctionEventKind::OrderAccepted(_) => true,
            CallAuctionEventKind::MassCancelCompleted { cancelled_order_count, .. } => {
                cancelled_order_count == 0
            },
            _ => false,
        },
{
}

/// A phase change of the phase graph, alone in a trace, forms an accepted report.
pub proof fn law_phase_reports_decode(
    command_id: CommandId,
    command_sequence: u64,
    event: CallAuctionEvent,
)
    requires
        command_sequence > 0,
        0 < event.sequence < u64::MAX,
        event.command_id == command_id,
        event.kind is PhaseChanged,
        event.kind->PhaseChanged_revision > 0,
        match (event.kind->PhaseChanged_previous, event.kind->PhaseChanged_current) {
            (CallAuctionPhase::Closed, CallAuctionPhase::Collecting) => true,
            (CallAuctionPhase::Collecting, CallAuctionPhase::Frozen) => true,
            (CallAuctionPhase::Collecting, CallAuctionPhase::Closed) => true,
            (CallAuctionPhase::Frozen, CallAuctionPhase::Collecting) => true,
            (CallAuctionPhase::Frozen, CallAuctionPhase::Closed) => true,
            _ => false,
        },
    ensures
        decoded_report(
            command_id,
            command_sequence,
            CallAuctionCommandOutcome::Accepted,
            seq![event],
        ),
{
}

impl CallAuctionPhaseSnapshot {
    /// A retained uncross that an audit follows as accepted closes the frozen
    /// active cycle, one revision later.
    pub proof fn law_audited_uncross_closes_cycle(
        self,
        entry: CallAuctionCommandReportCheckpoint,
        instrument_id: InstrumentId,
        instrument_version: InstrumentVersion,
        next: Self,
    )
        requires
            entry.command is Uncross,
            entry.report.outcome == CallAuctionCommandOutcome::Accepted,
            self.observed(entry, instrument_id, instrument_version) == Some(next),
        ensures
            ({
                let uncross = entry.command->Uncross_0;
                &&& uncross.expected_phase_revision == self.revision
                &&& self.phase == CallAuctionPhase::Frozen
                &&& self.active_auction_id == Some(uncross.auction_id)
                &&& next.phase == CallAuctionPhase::Closed
                &&& next.active_auction_id is None
                &&& next.last_auction_id == self.last_auction_id
                &&& next.revision == self.revision + 1
            }),
    {
    }

    /// A retained command that is neither a phase control nor an uncross, or that
    /// was rejected, leaves phase and cycle as they were; submissions, amendments
    /// and replacements are accepted during collection only.
    pub proof fn law_audited_orders_keep_phase(
        self,
        entry: CallAuctionCommandReportCheckpoint,
        instrument_id: InstrumentId,
        instrument_version: InstrumentVersion,
        next: Self,
    )
        requires
            self.observed(entry, instrument_id, instrument_version) == Some(next),
        ensures
            entry.report.outcome is Rejected ==> next == self,
            !(entry.command is PhaseControl) && !(entry.command is Uncross) ==> next == self,
            entry.report.outcome == CallAuctionCommandOutcome::Accepted && (entry.command is Submit
                || entry.command is Amend || entry.command is Replace) ==> self.phase
                == CallAuctionPhase::Collecting,
    {
    }
}

impl CallAuctionEngine {
    /// An audited engine has numbered its commands and events without gaps, and is
    /// closed exactly when no cycle is active.
    pub proof fn law_audited_engine_is_numbered(&self)
        requires
            self.audited(),
        ensures
            self.next_command_sequence == self.history@.len() + 1,
            self.history@.len() == 0 ==> self.next_event_sequence == 1,
            self.history@.len() > 0 ==> {
                let events = self.history@[self.history@.len() - 1].report.events@;
                &&& events.len() > 0
                &&& self.next_event_sequence == events[events.len() - 1].sequence + 1
            },
            self.phase == CallAuctionPhase::Closed <==> self.active_auction_id is None,
    {
        if self.history@.len() > 0 {
            let last = self.history@.len() - 1;
            assert(entry_audited(self.history@, last));
            let events = self.history@[last].report.events@;
            assert(events[events.len() - 1].sequence == next_event_after(
                self.history@,
                last as nat,
            ) + events.len() - 1);
        }
    }
}

impl CallAuctionRiskManagedEngine {
    /// What a caller is shown of a mass cancel is every active order of the account
    /// on the named side, or on both, as it is.
    pub proof fn law_shown_mass_cancel_is_scoped(
        &self,
        command: CallAuctionMassCancel,
        observation: CallAuctionMassCancelObservation,
        id: OrderId,
        i: int,
    )
        requires
            self.wf(),
            self.shows_mass_cancel(command, observation),
        ensures
            ({
                let orders = observation.orders@;
                let active = self.engine.book.active();
                let meant = active[id].account_id == command.account_id && match command.scope {
                    MassCancelScope::All => true,
                    MassCancelScope::Side(Side::Buy) => active[id].side == Side::Buy,
                    MassCancelScope::Side(Side::Sell) => active[id].side == Side::Sell,
                };
                &&& active.dom().contains(id) && meant <==> exists|k: int|
                    0 <= k < orders.len() && (#[trigger] orders[k]).order_id == id
                &&& 0 <= i < orders.len() ==> orders[i] == active[orders[i].order_id]
                &&& observation.account_id == command.account_id
                &&& observation.scope == command.scope
            }),
    {
        let book = &self.engine.book;
        let orders = observation.orders@;
        book.lemma_selected_listed(command.account_id, command.scope);
        let picked = book.selected(command.account_id, command.scope);
        if exists|k: int| 0 <= k < orders.len() && (#[trigger] orders[k]).order_id == id {
            let k = choose|k: int| 0 <= k < orders.len() && (#[trigger] orders[k]).order_id == id;
            assert(picked.contains(orders[k].order_id));
        }
        if picked.contains(id) {
            let k = choose|k: int| 0 <= k < orders.len() && (#[trigger] orders[k]).order_id == id;
            assert(orders[k].order_id == id);
        }
        if 0 <= i < orders.len() {
            assert(picked.contains(orders[i].order_id));
        }
    }
}

} // verus!
