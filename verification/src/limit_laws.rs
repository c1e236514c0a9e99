//! Which finite resource policies are coherent, and what they leave room for.

use vstd::prelude::*;

use crate::auction_engine::CallAuctionEngine;
use crate::book_types::{book_limits_fault, CallAuctionBookLimitsError, CallAuctionBookLimitsSpec};
use crate::domain::OrderId;
use crate::engine_types::{
    engine_limits_fault, CallAuctionCommand, CallAuctionEngineCapacity, CallAuctionEngineError,
    CallAuctionEngineLimits, CallAuctionEngineLimitsError, CallAuctionEngineLimitsSpec,
    CallAuctionExecutionReport, CallAuctionPhase, CallAuctionRejectReason,
};
use crate::market_data_publication::source_limits_fault;
use crate::market_data_types::{
    market_data_limits_fault, CallAuctionMarketDataLimits, CallAuctionMarketDataLimitsError,
    CallAuctionMarketDataLimitsSpec,
};

verus! {

/// A book policy is coherent exactly when every bound is positive, levels are at
/// most active orders, and active orders at most accepted identities; a zero is
/// named before an inversion.
pub proof fn law_book_limits(spec: CallAuctionBookLimitsSpec)
    ensures
        ({
            let fault = book_limits_fault(spec);
            let orders = spec.max_active_orders;
            let levels = spec.max_price_levels_per_side;
            let ids = spec.max_accepted_order_ids;
            let uncrosses = spec.max_prepared_uncrosses;
            let positive = orders > 0 && levels > 0 && ids > 0 && uncrosses > 0;
            &&& fault is None <==> uncrosses > 0 && 0 < levels <= orders <= ids
            &&& orders == 0 ==> fault == Some(CallAuctionBookLimitsError::ZeroActiveOrders)
            &&& orders > 0 && levels == 0 ==> fault == Some(
                CallAuctionBookLimitsError::ZeroPriceLevels,
            )
            &&& orders > 0 && levels > 0 && ids == 0 ==> fault == Some(
                CallAuctionBookLimitsError::ZeroAcceptedOrderIds,
            )
            &&& orders > 0 && levels > 0 && ids > 0 && uncrosses == 0 ==> fault == Some(
                CallAuctionBookLimitsError::ZeroPreparedUncrosses,
            )
            &&& positive && levels > orders ==> fault == Some(
                CallAuctionBookLimitsError::PriceLevelsExceedActiveOrders,
            )
            &&& positive && levels <= orders && orders > ids ==> fault == Some(
                CallAuctionBookLimitsError::ActiveOrdersExceedAcceptedOrderIds,
            )
        }),
{
}

/// An engine policy is coherent exactly when the reserved tail can cancel every
/// active order and still freeze and close, ordinary commands are left besides,
/// and one report can hold a fill and a cancellation of every active order.
pub proof fn law_engine_limits(spec: CallAuctionEngineLimitsSpec)
    ensures
        ({
            let fault = engine_limits_fault(spec);
            let orders = spec.book.active_orders;
            let reserve = spec.terminal_command_reserve;
            &&& fault is None <==> orders + 2 <= reserve && reserve < spec.max_retained_commands
                && 2 * orders + 1 <= spec.max_report_events
            &&& spec.max_retained_commands == 0 ==> fault == Some(
                CallAuctionEngineLimitsError::ZeroRetainedCommands,
            )
            &&& spec.max_retained_commands > 0 && orders + 2 <= usize::MAX && reserve < orders + 2
                ==> match fault {
                Some(CallAuctionEngineLimitsError::TerminalReserveBelowRequired {
                    configured,
                    required,
                }) => configured == reserve && required == orders + 2,
                _ => false,
            }
            &&& spec.max_retained_commands > 0 && orders + 2 <= reserve
                && spec.max_retained_commands <= reserve ==> fault == Some(
                CallAuctionEngineLimitsError::TerminalReserveExhaustsHistory,
            )
            &&& orders + 2 <= reserve < spec.max_retained_commands && 2 * orders + 1 <= usize::MAX
                && spec.max_report_events < 2 * orders + 1 ==> match fault {
                Some(CallAuctionEngineLimitsError::ReportEventsBelowRequired {
                    configured,
                    required,
                }) => configured == spec.max_report_events && required == 2 * orders + 1,
                _ => false,
            }
        }),
{
}

/// A market-data policy is coherent exactly when levels are positive and at most
/// active orders, and one batch can hold a trade and a cancellation of every
/// active order and a completion.
pub proof fn law_market_data_limits(spec: CallAuctionMarketDataLimitsSpec)
    ensures
        ({
            let fault = market_data_limits_fault(spec);
            let orders = spec.max_active_orders;
            let levels = spec.max_price_levels_per_side;
            &&& fault is None <==> 0 < levels <= orders && 2 * orders + 1 <= spec.max_batch_updates
            &&& orders == 0 ==> fault == Some(CallAuctionMarketDataLimitsError::ZeroActiveOrders)
            &&& orders > 0 && levels == 0 ==> fault == Some(
                CallAuctionMarketDataLimitsError::ZeroPriceLevels,
            )
            &&& orders > 0 && levels > 0 && spec.max_batch_updates == 0 ==> fault == Some(
                CallAuctionMarketDataLimitsError::ZeroBatchUpdates,
            )
            &&& orders > 0 && spec.max_batch_updates > 0 && levels > orders ==> fault == Some(
                CallAuctionMarketDataLimitsError::PriceLevelsExceedActiveOrders,
            )
            &&& 0 < levels <= orders && 0 < spec.max_batch_updates < 2 * orders + 1 <= usize::MAX
                ==> fault == Some(CallAuctionMarketDataLimitsError::BatchUpdatesBelowUncrossMaximum)
        }),
{
}

/// A publisher's policy suits an engine exactly when it bounds orders, levels and
/// batches no tighter than the engine bounds orders, levels and report events.
pub proof fn law_publisher_covers_source(
    selected: CallAuctionMarketDataLimits,
    source: CallAuctionEngineLimits,
)
    ensures
        source_limits_fault(selected, source) is None <==> selected.max_active_orders
            >= source.book.active_orders && selected.max_price_levels_per_side
            >= source.book.price_levels_per_side && selected.max_batch_updates
            >= source.report_events,
{
}

impl CallAuctionEngine {
    /// Once the ordinary history is used up, the reserved tail takes accepted
    /// cancellations, uncrosses, freezes and closes, and nothing else: other
    /// commands, and whatever would be rejected, are turned away.
    pub proof fn law_reserve_is_for_closing(&self, command: CallAuctionCommand)
        requires
            self.wf(),
            self.decide(command) is Ok,
            self.limits.retained_commands - self.limits.terminal_command_reserve
                <= self.history@.len(),
            self.history@.len() < self.limits.retained_commands,
        ensures
            ({
                let accepted = self.decide(command) == Ok::<
                    Option<CallAuctionRejectReason>,
                    CallAuctionEngineError,
                >(None);
                let closing = match command {
                    CallAuctionCommand::Cancel(_) => true,
                    CallAuctionCommand::Uncross(_) => true,
                    CallAuctionCommand::PhaseControl(control) => control.target_phase
                        == CallAuctionPhase::Frozen || control.target_phase
                        == CallAuctionPhase::Closed,
                    CallAuctionCommand::Submit(_) => false,
                    CallAuctionCommand::MassCancel(_) => false,
                    CallAuctionCommand::Amend(_) => false,
                    CallAuctionCommand::Replace(_) => false,
                };
                self.prepare_fault(command) == Some(
                    CallAuctionEngineError::CapacityExhausted(
                        CallAuctionEngineCapacity::AdmissionCommandHistory,
                    ),
                ) <==> !(accepted && closing)
            }),
    {
    }

    /// A full history takes no command, and while ordinary history, sequences and
    /// a report of the command's events have room, none is turned away.
    pub proof fn law_ordinary_history_takes_commands(&self, command: CallAuctionCommand)
        requires
            self.wf(),
            self.decide(command) is Ok,
        ensures
            self.history@.len() >= self.limits.retained_commands ==> self.prepare_fault(command)
                == Some(
                CallAuctionEngineError::CapacityExhausted(
                    CallAuctionEngineCapacity::CommandHistory,
                ),
            ),
            self.history@.len() < self.limits.retained_commands
                - self.limits.terminal_command_reserve && self.planned_events(command)
                <= self.limits.report_events && self.next_command_sequence < u64::MAX
                && self.next_event_sequence + self.planned_events(command) <= u64::MAX
                ==> self.prepare_fault(command) is None,
    {
    }

    /// A retry of a retained command gets the retained report, marked as replayed
    /// and otherwise the same.
    pub proof fn law_retry_repeats_report(
        &self,
        command: CallAuctionCommand,
        report: CallAuctionExecutionReport,
    )
        requires
            self.replays(command, report),
        ensures
            self.reports@.dom().contains(command.key()),
            ({
                let kept = self.history@[self.reports@[command.key()] as int];
                &&& kept.command == command
                &&& report.replayed
                &&& report.command_id == kept.report.command_id
                &&& report.command_sequence == kept.report.command_sequence
                &&& report.outcome == kept.report.outcome
                &&& report.events == kept.report.events
            }),
    {
    }

    /// A command that an engine has sequenced is retried to the same report.
    pub proof fn law_sequenced_command_is_retried(
        &self,
        after: &Self,
        command: CallAuctionCommand,
        report: CallAuctionExecutionReport,
        again: CallAuctionExecutionReport,
    )
        requires
            after.submits_from(self, command, report),
            after.replays(command, again),
            self.history@.len() <= usize::MAX,
        ensures
            again.replayed,
            again.command_id == report.command_id,
            again.command_sequence == report.command_sequence,
            again.outcome == report.outcome,
            again.events@ == report.events@,
    {
    }

    /// A new engine is closed at revision zero without a cycle, holds no order and
    /// no history, and starts its sequences, priorities and trades at one.
    pub proof fn law_new_engine_is_empty(&self)
        requires
            self.is_new(),
        ensures
            self.phase == CallAuctionPhase::Closed,
            self.phase_revision == 0,
            self.active_auction_id is None,
            self.last_auction_id is None,
            self.next_command_sequence == 1,
            self.next_event_sequence == 1,
            self.history@.len() == 0,
            self.book.state_revision == 0,
            self.book.next_priority_sequence == 1,
            self.book.next_trade_id == 1,
            forall|id: OrderId|
                !(#[trigger] self.book.active().dom().contains(id)),
            forall|id: OrderId| !(#[trigger] self.book.accepted().contains(id)),
    {
    }
}

} // verus!
