//! Which event traces a sequenced command can have.

use vstd::prelude::*;

use crate::auction::AuctionClearing;
use crate::book_types::{CallAuctionOrder, CallAuctionOrderSnapshot};
use crate::domain::CommandId;
use crate::engine_types::{
    CallAuctionCancellationReason, CallAuctionCommand, CallAuctionCommandOutcome,
    CallAuctionCommandReportCheckpoint, CallAuctionEvent, CallAuctionEventKind,
    CallAuctionEventTrace, CallAuctionExecutionReport, CallAuctionMassCancel,
    CallAuctionUncrossCommand,
};
use crate::phase_audit::{phase_transition_is_valid, transition_allowed};

verus! {

/// The trade that an event reports.
pub open spec fn trade_lots(event: CallAuctionEvent) -> int {
    match event.kind {
        CallAuctionEventKind::Trade(trade) => trade.quantity.lots as int,
        _ => 0,
    }
}

/// Identity of the trade that an event reports.
pub open spec fn trade_number(event: CallAuctionEvent) -> int {
    match event.kind {
        CallAuctionEventKind::Trade(trade) => trade.trade_id.value as int,
        _ => 0,
    }
}

/// Lots that the first `count` events trade.
pub open spec fn traded_lots(events: Seq<CallAuctionEvent>, count: nat) -> int
    decreases count,
{
    if count == 0 {
        0
    } else {
        traded_lots(events, (count - 1) as nat) + trade_lots(events[count - 1])
    }
}

/// The first `count` events are trades at one price with consecutive identities.
pub open spec fn trades_in_order(
    events: Seq<CallAuctionEvent>,
    count: int,
    clearing: AuctionClearing,
) -> bool {
    &&& forall|i: int|
        0 <= i < count ==> ((#[trigger] events[i]).kind matches CallAuctionEventKind::Trade(trade)
            && trade.price == clearing.price)
    &&& forall|i: int, j: int|
        0 <= i < j < count ==> #[trigger] trade_number(events[j]) == #[trigger] trade_number(
            events[i],
        ) + (j - i)
}

/// Trades, then remainder cancellations, then the completion that counts them.
pub open spec fn uncross_body(
    events: Seq<CallAuctionEvent>,
    clearing: AuctionClearing,
    trade_count: u64,
    cancellation_count: u64,
) -> bool {
    &&& events.len() - 1 == trade_count + cancellation_count
    &&& trades_in_order(events, trade_count as int, clearing)
    &&& forall|i: int|
        trade_count <= i < events.len() - 1 ==> (#[trigger] events[i]).kind is RemainderCancelled
    &&& traded_lots(events, trade_count as nat) == clearing.executable_quantity
}

/// Lots that the first `count` events cancel.
pub open spec fn cancelled_lots(events: Seq<CallAuctionEvent>, count: nat) -> int
    decreases count,
{
    if count == 0 {
        0
    } else {
        cancelled_lots(events, (count - 1) as nat) + match events[count - 1].kind {
            CallAuctionEventKind::OrderCancelled { order, .. } => order.quantity.lots as int,
            _ => 0,
        }
    }
}

/// Identity of the order that an event cancels.
pub open spec fn cancelled_number(event: CallAuctionEvent) -> int {
    match event.kind {
        CallAuctionEventKind::OrderCancelled { order, .. } => order.order_id.value as int,
        _ => 0,
    }
}

/// Selected cancellations by ascending identity, then the completion that
/// counts them.
pub open spec fn mass_cancel_grammar(
    events: Seq<CallAuctionEvent>,
    command: CallAuctionMassCancel,
) -> bool {
    let count = events.len() - 1;
    &&& events.len() > 0
    &&& (events.last().kind matches CallAuctionEventKind::MassCancelCompleted {
        account_id,
        scope,
        cancelled_order_count,
        cancelled_quantity_lots,
        ..
    } && account_id == command.account_id && scope == command.scope && cancelled_order_count
        == count && cancelled_quantity_lots == cancelled_lots(events, count as nat))
    &&& forall|i: int|
        0 <= i < count ==> ((#[trigger] events[i]).kind matches CallAuctionEventKind::OrderCancelled {
            order,
            reason: CallAuctionCancellationReason::MassCancel,
        } && order.account_id == command.account_id && command.scope.selects(order.side))
    &&& forall|i: int, j: int|
        0 <= i < j < count ==> #[trigger] cancelled_number(events[i]) < #[trigger] cancelled_number(
            events[j],
        )
}

/// The trace of an uncross command.
pub open spec fn uncross_grammar(
    events: Seq<CallAuctionEvent>,
    command: CallAuctionUncrossCommand,
) -> bool {
    &&& events.len() > 0
    &&& command.expected_phase_revision < u64::MAX
    &&& (events.last().kind matches CallAuctionEventKind::UncrossCompleted {
        auction_id,
        clearing,
        policy,
        trade_count,
        cancellation_count,
        phase_revision,
        ..
    } && auction_id == command.auction_id && policy == command.uncross_policy && phase_revision
        == command.expected_phase_revision + 1 && uncross_body(
        events,
        clearing,
        trade_count,
        cancellation_count,
    ))
}

/// An accepted snapshot repeats the order that was submitted.
pub open spec fn accepts(snapshot: CallAuctionOrderSnapshot, order: CallAuctionOrder) -> bool {
    &&& snapshot.order_id == order.order_id
    &&& snapshot.account_id == order.account_id
    &&& snapshot.side == order.side
    &&& snapshot.constraint == order.constraint
    &&& snapshot.quantity == order.quantity
}

/// The trace of an accepted command.
pub open spec fn accepted_grammar(
    command: CallAuctionCommand,
    events: Seq<CallAuctionEvent>,
) -> bool {
    match command {
        CallAuctionCommand::PhaseControl(control) => {
            &&& control.expected_phase_revision < u64::MAX
            &&& events.len() == 1
            &&& (events[0].kind matches CallAuctionEventKind::PhaseChanged {
                auction_id,
                current,
                revision,
                ..
            } && auction_id == control.auction_id && current == control.target_phase && revision
                == control.expected_phase_revision + 1)
        },
        CallAuctionCommand::Submit(submit) => {
            &&& events.len() == 1
            &&& (events[0].kind matches CallAuctionEventKind::OrderAccepted(snapshot) && accepts(
                snapshot,
                submit.order,
            ))
        },
        CallAuctionCommand::Cancel(cancel) => {
            &&& events.len() == 1
            &&& (events[0].kind matches CallAuctionEventKind::OrderCancelled {
                order,
                reason: CallAuctionCancellationReason::UserRequested,
            } && order.order_id == cancel.order_id && order.account_id == cancel.account_id)
        },
        CallAuctionCommand::MassCancel(mass_cancel) => mass_cancel_grammar(events, mass_cancel),
        CallAuctionCommand::Amend(amend) => {
            &&& events.len() == 1
            &&& (events[0].kind matches CallAuctionEventKind::OrderAmended {
                order,
                previous_quantity,
                ..
            } && order.order_id == amend.order_id && order.account_id == amend.account_id
                && order.quantity == amend.new_quantity && order.quantity.lots
                < previous_quantity.lots)
        },
        CallAuctionCommand::Replace(replace) => {
            &&& events.len() == 2
            &&& (events[0].kind matches CallAuctionEventKind::OrderCancelled {
                order,
                reason: CallAuctionCancellationReason::Replaced,
            } && order.order_id == replace.target_order_id && order.account_id
                == replace.account_id)
            &&& (events[1].kind matches CallAuctionEventKind::OrderAccepted(snapshot) && accepts(
                snapshot,
                replace.replacement,
            ))
        },
        CallAuctionCommand::Uncross(uncross) => uncross_grammar(events, uncross),
    }
}

/// The report of a retained command has a trace that the command can have.
pub open spec fn report_grammar(entry: CallAuctionCommandReportCheckpoint) -> bool {
    let events = entry.report.events@;
    &&& !entry.report.replayed
    &&& events.len() > 0
    &&& match entry.report.outcome {
        CallAuctionCommandOutcome::Rejected(reason) => events.len() == 1 && events[0].kind
            == CallAuctionEventKind::CommandRejected(reason),
        CallAuctionCommandOutcome::Accepted => accepted_grammar(entry.command, events),
    }
}

/// Checks trades at one price with consecutive identities and their total.
fn check_trades(events: &[CallAuctionEvent], count: usize, clearing: AuctionClearing) -> (r: bool)
    requires
        count <= events@.len(),
    ensures
        r == (trades_in_order(events@, count as int, clearing) && traded_lots(events@, count as nat)
            == clearing.executable_quantity),
{
    let mut index: usize = 0;
    let mut traded: u128 = 0;
    let mut previous: Option<u64> = None;
    while index < count
        invariant
            index <= count <= events@.len(),
            trades_in_order(events@, index as int, clearing),
            traded == traded_lots(events@, index as nat),
            index == 0 ==> previous is None,
            index > 0 ==> previous == Some(trade_number(events@[index - 1]) as u64) && trade_number(
                events@[index - 1],
            ) <= u64::MAX,
        decreases count - index,
    {
        let trade = match events[index].kind {
            CallAuctionEventKind::Trade(trade) => trade,
            _ => {
                return false;
            },
        };
        if trade.price != clearing.price {
            return false;
        }
        if let Some(value) = previous {
            if value.checked_add(1) != Some(trade.trade_id.value) {
                assert(index > 0);
                assert(trade_number(events@[index as int]) != trade_number(events@[index - 1]) + 1);
                return false;
            }
        }
        previous = Some(trade.trade_id.value);
        traded = match traded.checked_add(trade.quantity.lots as u128) {
            Some(value) => value,
            None => {
                proof {
                    lemma_traded_monotone(events@, index as nat + 1, count as nat);
                }
                return false;
            },
        };
        index += 1;
        proof {
            assert forall|i: int, j: int| 0 <= i < j < index implies #[trigger] trade_number(
                events@[j],
            ) == #[trigger] trade_number(events@[i]) + (j - i) by {
                if j == index - 1 && i < j - 1 {
                    assert(trade_number(events@[j - 1]) == trade_number(events@[i]) + (j - 1 - i));
                }
            }
        }
    }
    traded == clearing.executable_quantity
}

proof fn lemma_traded_monotone(events: Seq<CallAuctionEvent>, few: nat, many: nat)
    requires
        few <= many,
    ensures
        0 <= traded_lots(events, few) <= traded_lots(events, many),
    decreases many,
{
    if few < many {
        lemma_traded_monotone(events, few, (many - 1) as nat);
    } else if few > 0 {
        lemma_traded_monotone(events, (few - 1) as nat, (few - 1) as nat);
    }
}

/// Checks trades, remainder cancellations and their counts.
fn check_uncross_body(
    events: &[CallAuctionEvent],
    clearing: AuctionClearing,
    trade_count: u64,
    cancellation_count: u64,
) -> (r: bool)
    requires
        events@.len() > 0,
    ensures
        r == uncross_body(events@, clearing, trade_count, cancellation_count),
{
    let body: usize = events.len() - 1;
    match trade_count.checked_add(cancellation_count) {
        Some(count) => {
            if count != body as u64 {
                return false;
            }
        },
        None => {
            return false;
        },
    }
    let trades: usize = trade_count as usize;
    if !check_trades(events, trades, clearing) {
        return false;
    }
    let mut index: usize = trades;
    while index < body
        invariant
            body == events@.len() - 1,
            trades == trade_count,
            trades <= index <= body,
            forall|i: int| trades <= i < index ==> (#[trigger] events@[i]).kind is RemainderCancelled,
        decreases body - index,
    {
        match events[index].kind {
            CallAuctionEventKind::RemainderCancelled(_) => {},
            _ => {
                return false;
            },
        }
        index += 1;
    }
    true
}

/// Checks the trace of a retained uncross.
fn cached_uncross_grammar_is_valid(
    events: &[CallAuctionEvent],
    uncross: CallAuctionUncrossCommand,
) -> (r: bool)
    requires
        events@.len() > 0,
    ensures
        r == uncross_grammar(events@, uncross),
{
    if uncross.expected_phase_revision == u64::MAX {
        return false;
    }
    match events[events.len() - 1].kind {
        CallAuctionEventKind::UncrossCompleted {
            auction_id,
            clearing,
            policy,
            trade_count,
            cancellation_count,
            phase_revision,
            ..
        } => check_uncross_body(events, clearing, trade_count, cancellation_count) && auction_id
            == uncross.auction_id && policy == uncross.uncross_policy && phase_revision
            == uncross.expected_phase_revision + 1,
        _ => false,
    }
}

proof fn lemma_cancelled_monotone(events: Seq<CallAuctionEvent>, few: nat, many: nat)
    requires
        few <= many,
    ensures
        0 <= cancelled_lots(events, few) <= cancelled_lots(events, many),
    decreases many,
{
    if few < many {
        lemma_cancelled_monotone(events, few, (many - 1) as nat);
    } else if few > 0 {
        lemma_cancelled_monotone(events, (few - 1) as nat, (few - 1) as nat);
    }
}

/// Checks the trace of a retained mass cancel.
fn cached_mass_cancel_grammar_is_valid(
    events: &[CallAuctionEvent],
    command: CallAuctionMassCancel,
) -> (r: bool)
    requires
        events@.len() > 0,
    ensures
        r == mass_cancel_grammar(events@, command),
{
    let count: usize = events.len() - 1;
    let lots: u128 = match events[count].kind {
        CallAuctionEventKind::MassCancelCompleted {
            account_id,
            scope,
            cancelled_order_count,
            cancelled_quantity_lots,
            ..
        } => {
            if account_id != command.account_id || scope != command.scope || cancelled_order_count
                != count as u64 {
                return false;
            }
            cancelled_quantity_lots
        },
        _ => {
            return false;
        },
    };
    let mut index: usize = 0;
    let mut total: u128 = 0;
    let mut previous: Option<u64> = None;
    while index < count
        invariant
            count == events@.len() - 1,
            index <= count,
            total == cancelled_lots(events@, index as nat),
            index == 0 ==> previous is None,
            index > 0 ==> (previous matches Some(value) && value == cancelled_number(
                events@[index - 1],
            )),
            forall|i: int|
                0 <= i < index ==> ((
                #[trigger] events@[i]).kind matches CallAuctionEventKind::OrderCancelled {
                    order,
                    reason: CallAuctionCancellationReason::MassCancel,
                } && order.account_id == command.account_id && command.scope.selects(order.side)),
            forall|i: int, j: int|
                0 <= i < j < index ==> #[trigger] cancelled_number(events@[i])
                    < #[trigger] cancelled_number(events@[j]),
            events@.last().kind matches CallAuctionEventKind::MassCancelCompleted {
                cancelled_quantity_lots,
                ..
            } && cancelled_quantity_lots == lots,
        decreases count - index,
    {
        let order = match events[index].kind {
            CallAuctionEventKind::OrderCancelled {
                order,
                reason: CallAuctionCancellationReason::MassCancel,
            } => order,
            _ => {
                return false;
            },
        };
        if order.account_id != command.account_id || !command.scope.includes(order.side) {
            return false;
        }
        if let Some(value) = previous {
            if value >= order.order_id.value {
                assert(cancelled_number(events@[index - 1]) >= cancelled_number(
                    events@[index as int],
                ));
                return false;
            }
        }
        previous = Some(order.order_id.value);
        total = match total.checked_add(order.quantity.lots as u128) {
            Some(value) => value,
            None => {
                proof {
                    lemma_cancelled_monotone(events@, index as nat + 1, count as nat);
                }
                return false;
            },
        };
        index += 1;
        proof {
            assert forall|i: int, j: int| 0 <= i < j < index implies #[trigger] cancelled_number(
                events@[i],
            ) < #[trigger] cancelled_number(events@[j]) by {
                if j == index - 1 && i < j - 1 {
                    assert(cancelled_number(events@[i]) < cancelled_number(events@[j - 1]));
                }
            }
        }
    }
    total == lots
}

/// Returns whether an accepted snapshot repeats the order that was submitted.
fn accepts_order(snapshot: CallAuctionOrderSnapshot, order: CallAuctionOrder) -> (r: bool)
    ensures
        r == accepts(snapshot, order),
{
    snapshot.order_id == order.order_id && snapshot.account_id == order.account_id && snapshot.side
        == order.side && snapshot.constraint == order.constraint && snapshot.quantity
        == order.quantity
}

/// Returns whether an accepted command can have a trace.
fn accepted_grammar_is_valid(command: CallAuctionCommand, events: &[CallAuctionEvent]) -> (r: bool)
    requires
        events@.len() > 0,
    ensures
        r == accepted_grammar(command, events@),
{
    match command {
        CallAuctionCommand::PhaseControl(control) => {
            if control.expected_phase_revision == u64::MAX || events.len() != 1 {
                return false;
            }
            match events[0].kind {
                CallAuctionEventKind::PhaseChanged { auction_id, current, revision, .. } => {
                    auction_id == control.auction_id && current == control.target_phase && revision
                        == control.expected_phase_revision + 1
                },
                _ => false,
            }
        },
        CallAuctionCommand::Submit(submit) => {
            if events.len() != 1 {
                return false;
            }
            match events[0].kind {
                CallAuctionEventKind::OrderAccepted(snapshot) => accepts_order(
                    snapshot,
                    submit.order,
                ),
                _ => false,
            }
        },
        CallAuctionCommand::Cancel(cancel) => {
            if events.len() != 1 {
                return false;
            }
            match events[0].kind {
                CallAuctionEventKind::OrderCancelled {
                    order,
                    reason: CallAuctionCancellationReason::UserRequested,
                } => order.order_id == cancel.order_id && order.account_id == cancel.account_id,
                _ => false,
            }
        },
        CallAuctionCommand::MassCancel(mass_cancel) => cached_mass_cancel_grammar_is_valid(
            events,
            mass_cancel,
        ),
        CallAuctionCommand::Amend(amend) => {
            if events.len() != 1 {
                return false;
            }
            match events[0].kind {
                CallAuctionEventKind::OrderAmended { order, previous_quantity, .. } => {
                    order.order_id == amend.order_id && order.account_id == amend.account_id
                        && order.quantity == amend.new_quantity && order.quantity.lots
                        < previous_quantity.lots
                },
                _ => false,
            }
        },
        CallAuctionCommand::Replace(replace) => {
            if events.len() != 2 {
                return false;
            }
            let removed = match events[0].kind {
                CallAuctionEventKind::OrderCancelled {
                    order,
                    reason: CallAuctionCancellationReason::Replaced,
                } => order.order_id == replace.target_order_id && order.account_id
                    == replace.account_id,
                _ => false,
            };
            let admitted = match events[1].kind {
                CallAuctionEventKind::OrderAccepted(snapshot) => accepts_order(
                    snapshot,
                    replace.replacement,
                ),
                _ => false,
            };
            removed && admitted
        },
        CallAuctionCommand::Uncross(uncross) => cached_uncross_grammar_is_valid(events, uncross),
    }
}

/// Returns whether a retained command can have its report.
pub(crate) fn cached_report_grammar_is_valid(entry: &CallAuctionCommandReportCheckpoint) -> (r: bool)
    ensures
        r == report_grammar(*entry),
{
    let events = entry.report.events.as_slice();
    if entry.report.replayed || events.len() == 0 {
        return false;
    }
    match entry.report.outcome {
        CallAuctionCommandOutcome::Rejected(reason) => events.len() == 1 && events[0].kind
            == CallAuctionEventKind::CommandRejected(reason),
        CallAuctionCommandOutcome::Accepted => accepted_grammar_is_valid(entry.command, events),
    }
}

/// A trace that some accepted uncross can have.
pub open spec fn decoded_uncross(events: Seq<CallAuctionEvent>) -> bool {
    &&& events.len() > 0
    &&& (events.last().kind matches CallAuctionEventKind::UncrossCompleted {
        clearing,
        trade_count,
        cancellation_count,
        book_revision,
        phase_revision,
        ..
    } && trade_count > 0 && book_revision != 0 && phase_revision != 0 && uncross_body(
        events,
        clearing,
        trade_count,
        cancellation_count,
    ))
}

/// A trace that some accepted mass cancel can have.
pub open spec fn decoded_mass_cancel(events: Seq<CallAuctionEvent>) -> bool {
    &&& events.len() > 0
    &&& (events.last().kind matches CallAuctionEventKind::MassCancelCompleted {
        account_id,
        scope,
        ..
    } && mass_cancel_grammar(events, mass_cancel_of(events[0], account_id, scope)))
}

/// A command with the account and scope that a completion names.
pub open spec fn mass_cancel_of(
    event: CallAuctionEvent,
    account_id: crate::domain::AccountId,
    scope: crate::domain::MassCancelScope,
) -> CallAuctionMassCancel {
    CallAuctionMassCancel {
        command_id: event.command_id,
        instrument_id: crate::domain::InstrumentId { value: 1 },
        instrument_version: crate::domain::InstrumentVersion { value: 1 },
        account_id,
        scope,
        received_at: event.occurred_at,
    }
}

/// A trace that some accepted command can have.
pub open spec fn decoded_accepted(events: Seq<CallAuctionEvent>) -> bool {
    if events.len() == 1 && events[0].kind is PhaseChanged {
        events[0].kind matches CallAuctionEventKind::PhaseChanged {
            previous,
            current,
            revision,
            ..
        } && transition_allowed(previous, current) && revision != 0
    } else if events.len() == 1 && events[0].kind is OrderAccepted {
        true
    } else if events.len() == 1 && (events[0].kind matches CallAuctionEventKind::OrderCancelled {
        reason,
        ..
    } && reason == CallAuctionCancellationReason::UserRequested) {
        true
    } else if events.len() == 1 && events[0].kind is OrderAmended {
        events[0].kind matches CallAuctionEventKind::OrderAmended {
            order,
            previous_quantity,
            book_revision,
        } && order.quantity.lots < previous_quantity.lots && book_revision != 0
    } else if events.len() == 2 && events[1].kind is OrderAccepted {
        events[0].kind matches CallAuctionEventKind::OrderCancelled { reason, .. } && reason
            == CallAuctionCancellationReason::Replaced
    } else {
        decoded_mass_cancel(events) || decoded_uncross(events)
    }
}

fn decoded_uncross_event_grammar_is_valid(events: &[CallAuctionEvent]) -> (r: bool)
    requires
        events@.len() > 0,
    ensures
        r == decoded_uncross(events@),
{
    match events[events.len() - 1].kind {
        CallAuctionEventKind::UncrossCompleted {
            clearing,
            trade_count,
            cancellation_count,
            book_revision,
            phase_revision,
            ..
        } => trade_count > 0 && book_revision != 0 && phase_revision != 0 && check_uncross_body(
            events,
            clearing,
            trade_count,
            cancellation_count,
        ),
        _ => false,
    }
}

fn decoded_mass_cancel_event_grammar_is_valid(events: &[CallAuctionEvent]) -> (r: bool)
    requires
        events@.len() > 0,
    ensures
        r == decoded_mass_cancel(events@),
{
    match events[events.len() - 1].kind {
        CallAuctionEventKind::MassCancelCompleted { account_id, scope, .. } => {
            cached_mass_cancel_grammar_is_valid(
                events,
                CallAuctionMassCancel {
                    command_id: events[0].command_id,
                    instrument_id: crate::domain::InstrumentId { value: 1 },
                    instrument_version: crate::domain::InstrumentVersion { value: 1 },
                    account_id,
                    scope,
                    received_at: events[0].occurred_at,
                },
            )
        },
        _ => false,
    }
}

/// Returns whether some accepted command can have a trace.
fn decoded_accepted_event_grammar_is_valid(events: &[CallAuctionEvent]) -> (r: bool)
    requires
        events@.len() > 0,
    ensures
        r == decoded_accepted(events@),
{
    if events.len() == 1 {
        match events[0].kind {
            CallAuctionEventKind::PhaseChanged { previous, current, revision, .. } => {
                return phase_transition_is_valid(previous, current) && revision != 0;
            },
            CallAuctionEventKind::OrderAccepted(_) => {
                return true;
            },
            CallAuctionEventKind::OrderCancelled {
                reason: CallAuctionCancellationReason::UserRequested,
                ..
            } => {
                return true;
            },
            CallAuctionEventKind::OrderAmended { order, previous_quantity, book_revision } => {
                return order.quantity.lots < previous_quantity.lots && book_revision != 0;
            },
            _ => {},
        }
    }
    if events.len() == 2 {
        if let CallAuctionEventKind::OrderAccepted(_) = events[1].kind {
            return match events[0].kind {
                CallAuctionEventKind::OrderCancelled {
                    reason: CallAuctionCancellationReason::Replaced,
                    ..
                } => true,
                _ => false,
            };
        }
    }
    decoded_mass_cancel_event_grammar_is_valid(events) || decoded_uncross_event_grammar_is_valid(
        events,
    )
}

/// Events of one command with consecutive sequences.
pub open spec fn events_bound(
    events: Seq<CallAuctionEvent>,
    command_id: CommandId,
    first: int,
) -> bool {
    forall|i: int|
        0 <= i < events.len() ==> (#[trigger] events[i]).sequence == first + i
            && events[i].command_id == command_id
}

/// Whether decoded values form a report.
pub open spec fn decoded_report(
    command_id: CommandId,
    command_sequence: u64,
    outcome: CallAuctionCommandOutcome,
    events: Seq<CallAuctionEvent>,
) -> bool {
    &&& command_sequence != 0
    &&& events.len() > 0
    &&& events[0].sequence != 0
    &&& events_bound(events, command_id, events[0].sequence as int)
    &&& events[0].sequence + events.len() <= u64::MAX
    &&& match outcome {
        CallAuctionCommandOutcome::Rejected(reason) => events.len() == 1 && events[0].kind
            == CallAuctionEventKind::CommandRejected(reason),
        CallAuctionCommandOutcome::Accepted => decoded_accepted(events),
    }
}

impl CallAuctionExecutionReport {
    /// Assembles a report from decoded values.
    pub fn from_decoded(
        command_id: CommandId,
        command_sequence: u64,
        outcome: CallAuctionCommandOutcome,
        events: Vec<CallAuctionEvent>,
        replayed: bool,
    ) -> (r: Result<Self, &'static str>)
        ensures
            match r {
                Ok(report) => {
                    &&& decoded_report(command_id, command_sequence, outcome, events@)
                    &&& report.command_id == command_id
                    &&& report.command_sequence == command_sequence
                    &&& report.outcome == outcome
                    &&& report.events@ == events@
                    &&& report.replayed == replayed
                },
                Err(_) => !decoded_report(command_id, command_sequence, outcome, events@),
            },
    {
        if command_sequence == 0 || events.len() == 0 {
            return Err("call-auction report has a zero sequence or empty event trace");
        }
        let first: u64 = events[0].sequence;
        if first == 0 {
            return Err("call-auction event sequence is zero");
        }
        let mut expected: u64 = first;
        let mut index: usize = 0;
        while index < events.len()
            invariant
                events@.len() > 0,
                first == events@[0].sequence,
                index <= events@.len(),
                expected == first + index,
                forall|i: int|
                    0 <= i < index ==> (#[trigger] events@[i]).sequence == first + i
                        && events@[i].command_id == command_id,
            decreases events@.len() - index,
        {
            if events[index].sequence != expected || events[index].command_id != command_id {
                return Err("call-auction event trace is noncontiguous or misbound");
            }
            expected = match expected.checked_add(1) {
                Some(value) => value,
                None => {
                    return Err("call-auction event sequence overflows");
                },
            };
            index += 1;
        }
        match outcome {
            CallAuctionCommandOutcome::Rejected(reason) => {
                if events.len() != 1 || events[0].kind != CallAuctionEventKind::CommandRejected(
                    reason,
                ) {
                    return Err("call-auction rejected report grammar is inconsistent");
                }
            },
            CallAuctionCommandOutcome::Accepted => {
                if !decoded_accepted_event_grammar_is_valid(events.as_slice()) {
                    return Err("call-auction accepted report grammar is inconsistent");
                }
            },
        }
        Ok(
            CallAuctionExecutionReport {
                command_id,
                command_sequence,
                outcome,
                events: CallAuctionEventTrace::from_decoded(events),
                replayed,
            },
        )
    }
}

} // verus!
