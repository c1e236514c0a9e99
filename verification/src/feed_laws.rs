//! What public market data says of each event, and what a follower takes of it.

use vstd::prelude::*;

use crate::auction::AuctionOrderConstraint;
use crate::auction_engine::CallAuctionEngine;
use crate::domain::Side;
use crate::engine_types::{
    CallAuctionCancellationReason, CallAuctionCommand, CallAuctionCommandOutcome, CallAuctionEvent,
    CallAuctionEventKind, CallAuctionExecutionReport, CallAuctionPhase,
};
use crate::instrument::InstrumentDefinition;
use crate::market_data_publisher::CallAuctionMarketDataPublisher;
use crate::market_data_replay::{
    batch_entries, CallAuctionMarketDataReplay, CallAuctionMarketDataReplayBatch,
    CallAuctionMarketDataReplayBuffer, CallAuctionMarketDataReplayError,
};
use crate::market_data_replica::{
    batch_whole, is_acceptance, is_mass_cancel, is_mass_removal, is_replacement, level_valid,
    link_fault, mass_cancel_whole, mass_lots, replacement_whole, CallAuctionMarketDataReplica,
};
use crate::market_data_state::{PublicBook, PublicState};
use crate::market_data_types::{
    kind_feasible, CallAuctionBookChangeReason, CallAuctionMarketDataBatch,
    CallAuctionMarketDataError, CallAuctionMarketDataKind, CallAuctionMarketDataLevel,
    CallAuctionMarketDataLimits, CallAuctionMarketDataSnapshot, CallAuctionMarketDataUpdate,
};
use crate::publication_laws::{law_book_shows_orders, shows};
use crate::publisher_model::PublisherState;
use crate::replica_batches::lemma_linked;

verus! {

/// Quantity that a public book shows on one side at one constraint.
pub open spec fn shown_quantity(
    book: PublicBook,
    side: Side,
    constraint: AuctionOrderConstraint,
) -> int {
    match (side, constraint) {
        (Side::Buy, AuctionOrderConstraint::Market) => book.market_buy.quantity as int,
        (Side::Sell, AuctionOrderConstraint::Market) => book.market_sell.quantity as int,
        (Side::Buy, AuctionOrderConstraint::Limit(price)) => if book.bids.dom().contains(price) {
            book.bids[price].quantity as int
        } else {
            0
        },
        (Side::Sell, AuctionOrderConstraint::Limit(price)) => if book.asks.dom().contains(price) {
            book.asks[price].quantity as int
        } else {
            0
        },
    }
}

/// Orders that a public book shows on one side at one constraint.
pub open spec fn shown_orders(
    book: PublicBook,
    side: Side,
    constraint: AuctionOrderConstraint,
) -> int {
    match (side, constraint) {
        (Side::Buy, AuctionOrderConstraint::Market) => book.market_buy.order_count as int,
        (Side::Sell, AuctionOrderConstraint::Market) => book.market_sell.order_count as int,
        (Side::Buy, AuctionOrderConstraint::Limit(price)) => if book.bids.dom().contains(price) {
            book.bids[price].order_count as int
        } else {
            0
        },
        (Side::Sell, AuctionOrderConstraint::Limit(price)) => if book.asks.dom().contains(price) {
            book.asks[price].order_count as int
        } else {
            0
        },
    }
}

impl PublicState {
    /// A book change that a follower takes names the new interest of one side and
    /// constraint: an acceptance adds its lots and an order, a reduction takes lots
    /// and no order, a removal takes lots and an order. All other interest, the
    /// phase and the trades stay. Acceptances, reductions and replacements belong
    /// to collection, remainders to a frozen cycle; acceptances, reductions and
    /// owner cancellations move the revision by one, others leave it.
    pub proof fn law_book_update_moves_one_level(
        self,
        definition: InstrumentDefinition,
        maximum: usize,
        update: CallAuctionMarketDataUpdate,
        next: PublicState,
        reason: CallAuctionBookChangeReason,
        lots: u64,
        level: CallAuctionMarketDataLevel,
        side: Side,
        constraint: AuctionOrderConstraint,
    )
        requires
            update.kind matches CallAuctionMarketDataKind::Book {
                reason: r,
                quantity: q,
                level: l,
            } && r == reason && q.lots == lots && l == level,
            self.after(definition, maximum, update) == Some(next),
        ensures
            ({
                let quantity = shown_quantity(self.book, level.side, level.constraint);
                let orders = shown_orders(self.book, level.side, level.constraint);
                &&& shown_quantity(next.book, level.side, level.constraint) == level.quantity
                &&& shown_orders(next.book, level.side, level.constraint) == level.order_count
                &&& level.quantity == 0 <==> level.order_count == 0
                &&& match reason {
                    CallAuctionBookChangeReason::Accepted => level.quantity == quantity + lots
                        && level.order_count == orders + 1,
                    CallAuctionBookChangeReason::Amended => level.quantity == quantity - lots
                        && level.order_count == orders,
                    CallAuctionBookChangeReason::UserCancelled => level.quantity == quantity - lots
                        && level.order_count == orders - 1,
                    CallAuctionBookChangeReason::Replaced => level.quantity == quantity - lots
                        && level.order_count == orders - 1,
                    CallAuctionBookChangeReason::MassCancelled => level.quantity == quantity - lots
                        && level.order_count == orders - 1,
                    CallAuctionBookChangeReason::UncrossRemainder => level.quantity == quantity
                        - lots && level.order_count == orders - 1,
                }
            }),
            side != level.side || constraint != level.constraint ==> shown_quantity(
                next.book,
                side,
                constraint,
            ) == shown_quantity(self.book, side, constraint) && shown_orders(
                next.book,
                side,
                constraint,
            ) == shown_orders(self.book, side, constraint),
            match level.constraint {
                AuctionOrderConstraint::Market => true,
                AuctionOrderConstraint::Limit(limit) => {
                    &&& limit.raw as int % definition.price.tick_size as int == 0
                    &&& definition.price.minimum.raw <= limit.raw
                    &&& limit.raw <= definition.price.maximum.raw
                },
            },
            reason == CallAuctionBookChangeReason::Accepted || reason
                == CallAuctionBookChangeReason::Amended || reason
                == CallAuctionBookChangeReason::Replaced ==> self.phase.phase
                == CallAuctionPhase::Collecting,
            reason == CallAuctionBookChangeReason::UncrossRemainder ==> self.phase.phase
                == CallAuctionPhase::Frozen,
            next.book_revision == self.book_revision + (if reason
                == CallAuctionBookChangeReason::Accepted || reason
                == CallAuctionBookChangeReason::Amended || reason
                == CallAuctionBookChangeReason::UserCancelled {
                1int
            } else {
                0
            }),
            next.phase == self.phase,
            next.last_trade_id == self.last_trade_id,
            next.sequence == update.sequence,
    {
    }

    /// A trade that a follower takes belongs to the frozen active cycle, carries
    /// the next trade identity and takes its lots from one buy and one sell level,
    /// each with the same orders as before or one less. Phase and revision stay.
    pub proof fn law_trade_update_takes_both_sides(
        self,
        definition: InstrumentDefinition,
        maximum: usize,
        update: CallAuctionMarketDataUpdate,
        next: PublicState,
    )
        requires
            update.kind is Trade,
            self.after(definition, maximum, update) == Some(next),
        ensures
            ({
                let print = update.kind->Trade_print;
                let buy = update.kind->Trade_buy;
                let sell = update.kind->Trade_sell;
                let bought = shown_orders(self.book, Side::Buy, buy.constraint);
                let sold = shown_orders(self.book, Side::Sell, sell.constraint);
                &&& self.phase.phase == CallAuctionPhase::Frozen
                &&& self.phase.active_auction_id == Some(print.auction_id)
                &&& next.last_trade_id == Some(print.trade_id)
                &&& match self.last_trade_id {
                    None => print.trade_id.value == 1,
                    Some(last) => print.trade_id.value == last.value + 1,
                }
                &&& buy.side == Side::Buy
                &&& sell.side == Side::Sell
                &&& shown_quantity(next.book, Side::Buy, buy.constraint) == shown_quantity(
                    self.book,
                    Side::Buy,
                    buy.constraint,
                ) - print.quantity.lots
                &&& shown_quantity(next.book, Side::Sell, sell.constraint) == shown_quantity(
                    self.book,
                    Side::Sell,
                    sell.constraint,
                ) - print.quantity.lots
                &&& bought - 1 <= shown_orders(next.book, Side::Buy, buy.constraint) <= bought
                &&& sold - 1 <= shown_orders(next.book, Side::Sell, sell.constraint) <= sold
                &&& next.trace.trade_count == self.trace.trade_count + 1
                &&& next.trace.executed_quantity == self.trace.executed_quantity
                    + print.quantity.lots
                &&& next.trace.price == Some(print.price)
                &&& self.trace.price is None || self.trace.price == Some(print.price)
            }),
            next.phase == self.phase,
            next.book_revision == self.book_revision,
            next.sequence == update.sequence,
    {
    }

    /// A phase change that a follower takes leaves the phase that it had for
    /// another, one revision later: from closed only into collection under the
    /// next cycle, otherwise for the active cycle, which closing ends.
    pub proof fn law_phase_update_follows_graph(
        self,
        definition: InstrumentDefinition,
        maximum: usize,
        update: CallAuctionMarketDataUpdate,
        next: PublicState,
    )
        requires
            update.kind is PhaseChanged,
            self.after(definition, maximum, update) == Some(next),
        ensures
            ({
                let cycle = update.kind->PhaseChanged_auction_id;
                let current = update.kind->PhaseChanged_current;
                &&& self.phase.phase == update.kind->PhaseChanged_previous
                &&& self.phase.phase != current
                &&& next.phase.phase == current
                &&& next.phase.revision == self.phase.revision + 1
                &&& self.phase.phase == CallAuctionPhase::Closed ==> {
                    &&& current == CallAuctionPhase::Collecting
                    &&& next.phase.active_auction_id == Some(cycle)
                    &&& next.phase.last_auction_id == Some(cycle)
                    &&& match self.phase.last_auction_id {
                        None => cycle.value == 1,
                        Some(last) => cycle.value == last.value + 1,
                    }
                }
                &&& self.phase.phase != CallAuctionPhase::Closed ==> {
                    &&& self.phase.active_auction_id == Some(cycle)
                    &&& next.phase.last_auction_id == self.phase.last_auction_id
                    &&& current == CallAuctionPhase::Closed ==> next.phase.active_auction_id is None
                    &&& current != CallAuctionPhase::Closed ==> next.phase.active_auction_id
                        == Some(cycle)
                }
            }),
            next.book == self.book,
            next.book_revision == self.book_revision,
            next.last_trade_id == self.last_trade_id,
            next.sequence == update.sequence,
    {
    }

    /// A reopened cycle is a phase change that a follower takes.
    pub proof fn law_reopening_is_followed(
        self,
        definition: InstrumentDefinition,
        maximum: usize,
        update: CallAuctionMarketDataUpdate,
    )
        requires
            update.kind is PhaseChanged,
            self.phase.phase == CallAuctionPhase::Frozen,
            update.kind->PhaseChanged_previous == CallAuctionPhase::Frozen,
            update.kind->PhaseChanged_current == CallAuctionPhase::Collecting,
            self.phase.active_auction_id == Some(update.kind->PhaseChanged_auction_id),
            update.kind->PhaseChanged_revision == self.phase.revision + 1,
            update.kind->PhaseChanged_revision <= update.sequence,
        ensures
            self.after(definition, maximum, update) is Some,
    {
    }

    /// A completed uncross that a follower takes closes the frozen active cycle,
    /// one revision of phase and book later, and states the trades, removals,
    /// quantity and price that the follower has seen.
    pub proof fn law_completion_update_closes_cycle(
        self,
        definition: InstrumentDefinition,
        maximum: usize,
        update: CallAuctionMarketDataUpdate,
        next: PublicState,
    )
        requires
            update.kind is UncrossCompleted,
            self.after(definition, maximum, update) == Some(next),
        ensures
            ({
                let clearing = update.kind->UncrossCompleted_clearing;
                &&& self.phase.phase == CallAuctionPhase::Frozen
                &&& self.phase.active_auction_id == Some(
                    update.kind->UncrossCompleted_auction_id,
                )
                &&& next.phase.phase == CallAuctionPhase::Closed
                &&& next.phase.active_auction_id is None
                &&& next.phase.revision == self.phase.revision + 1
                &&& next.book_revision == self.book_revision + 1
                &&& self.trace.trade_count == update.kind->UncrossCompleted_trade_count
                &&& self.trace.cancellation_count
                    == update.kind->UncrossCompleted_cancellation_count
                &&& self.trace.executed_quantity == clearing.executable_quantity
                &&& self.trace.price == Some(clearing.price)
                &&& next.trace.trade_count == 0
                &&& next.trace.executed_quantity == 0
            }),
            next.book == self.book,
            next.last_trade_id == self.last_trade_id,
            next.sequence == update.sequence,
    {
    }
}

impl CallAuctionMarketDataReplica {
    /// A replica takes a batch only as the continuation of what it has: every
    /// update of its instrument and version, with consecutive sequences from the
    /// next one on. It is then at the last of them, one command later.
    pub proof fn law_replica_takes_continuation(
        &self,
        after: &Self,
        updates: Seq<CallAuctionMarketDataUpdate>,
        r: Result<(), CallAuctionMarketDataError>,
        k: int,
    )
        requires
            after.batch_applied(self, updates, r),
            r is Ok,
        ensures
            updates.len() > 0,
            updates.len() <= self.limits.max_batch_updates,
            0 <= k < updates.len() ==> {
                &&& updates[k].sequence == self.last_event_sequence + 1 + k
                &&& updates[k].instrument_id == self.definition.instrument_id
                &&& updates[k].instrument_version == self.definition.version
            },
            after.last_event_sequence == self.last_event_sequence + updates.len(),
            after.last_command_sequence == self.last_command_sequence + 1,
            !after.poisoned,
    {
        lemma_linked(self.definition, updates, (self.last_event_sequence + 1) as u64, 0);
        let count = updates.len();
        let last = updates[count - 1];
        let state = self.public().after_all(
            self.definition,
            self.limits.max_price_levels_per_side,
            updates,
            (count - 1) as nat,
        );
        assert(self.public_after(updates) is Some);
        assert(state is Some);
        assert(after.public().sequence == last.sequence);
    }

    /// A batch that skips or repeats a sequence is refused as a gap, and the
    /// replica stays as it was.
    pub proof fn law_replica_refuses_gaps(
        &self,
        after: &Self,
        updates: Seq<CallAuctionMarketDataUpdate>,
        r: Result<(), CallAuctionMarketDataError>,
    )
        requires
            after.batch_applied(self, updates, r),
            0 < updates.len() <= self.limits.max_batch_updates,
            self.last_command_sequence < u64::MAX,
            self.last_event_sequence < u64::MAX,
            updates[0].instrument_id == self.definition.instrument_id,
            updates[0].instrument_version == self.definition.version,
            updates[0].sequence != self.last_event_sequence + 1,
        ensures
            match r {
                Err(CallAuctionMarketDataError::SequenceGap { expected, actual }) => expected
                    == self.last_event_sequence + 1 && actual == updates[0].sequence,
                _ => false,
            },
            after.public() == self.public(),
            after.last_command_sequence == self.last_command_sequence,
    {
        assert(link_fault(
            self.definition,
            updates,
            (self.last_event_sequence + 1) as u64,
            0,
        ) is Some);
    }
}

impl PublisherState {
    /// What is published of an event is anonymous and says what the event did to
    /// one level: an accepted order joins it, a cancelled, displaced, mass-removed
    /// or remaindered one leaves it, an amended one gives up the difference. A
    /// rejected command has no public change.
    pub proof fn law_published_step_tells_event(
        self,
        command: CallAuctionCommand,
        kind: CallAuctionEventKind,
        limits: CallAuctionMarketDataLimits,
        next: PublisherState,
        public: CallAuctionMarketDataKind,
    )
        requires
            self.step(command, kind, limits) == Some((next, public)),
        ensures
            match kind {
                CallAuctionEventKind::OrderAccepted(order) => {
                    let level = public->Book_level;
                    &&& public is Book
                    &&& public->Book_reason == CallAuctionBookChangeReason::Accepted
                    &&& public->Book_quantity == order.quantity
                    &&& level.side == order.side
                    &&& level.constraint == order.constraint
                    &&& level.quantity == shown_quantity(self.book, order.side, order.constraint)
                        + order.quantity.lots
                    &&& level.order_count == shown_orders(self.book, order.side, order.constraint)
                        + 1
                    &&& next.book_revision == self.book_revision + 1
                },
                CallAuctionEventKind::OrderCancelled { order, reason } => {
                    let level = public->Book_level;
                    &&& public is Book
                    &&& public->Book_reason == match reason {
                        CallAuctionCancellationReason::UserRequested => {
                            CallAuctionBookChangeReason::UserCancelled
                        },
                        CallAuctionCancellationReason::Replaced => {
                            CallAuctionBookChangeReason::Replaced
                        },
                        CallAuctionCancellationReason::MassCancel => {
                            CallAuctionBookChangeReason::MassCancelled
                        },
                        CallAuctionCancellationReason::UncrossRemainder => {
                            CallAuctionBookChangeReason::UncrossRemainder
                        },
                    }
                    &&& public->Book_quantity == order.quantity
                    &&& level.side == order.side
                    &&& level.constraint == order.constraint
                    &&& level.quantity == shown_quantity(self.book, order.side, order.constraint)
                        - order.quantity.lots
                    &&& level.order_count == shown_orders(self.book, order.side, order.constraint)
                        - 1
                },
                CallAuctionEventKind::OrderAmended { order, previous_quantity, book_revision } => {
                    let level = public->Book_level;
                    let less = previous_quantity.lots - order.quantity.lots;
                    &&& public is Book
                    &&& public->Book_reason == CallAuctionBookChangeReason::Amended
                    &&& public->Book_quantity.lots == less
                    &&& less > 0
                    &&& level.side == order.side
                    &&& level.constraint == order.constraint
                    &&& level.quantity == shown_quantity(self.book, order.side, order.constraint)
                        - less
                    &&& order.quantity.lots > 0 ==> level.order_count == shown_orders(
                        self.book,
                        order.side,
                        order.constraint,
                    )
                    &&& next.book_revision == self.book_revision + 1
                },
                CallAuctionEventKind::Trade(trade) => {
                    let print = public->Trade_print;
                    &&& public is Trade
                    &&& print.trade_id == trade.trade_id
                    &&& print.price == trade.price
                    &&& print.quantity == trade.quantity
                    &&& command is Uncross
                    &&& print.auction_id == command->Uncross_0.auction_id
                    &&& public->Trade_buy.side == Side::Buy
                    &&& public->Trade_sell.side == Side::Sell
                    &&& public->Trade_buy.constraint == self.orders[trade.buy_order_id].constraint
                    &&& public->Trade_sell.constraint == self.orders[trade.sell_order_id].constraint
                },
                CallAuctionEventKind::RemainderCancelled(cancellation) => {
                    let level = public->Book_level;
                    &&& public is Book
                    &&& public->Book_reason == CallAuctionBookChangeReason::UncrossRemainder
                    &&& public->Book_quantity == cancellation.quantity
                    &&& level.side == cancellation.side
                    &&& level.constraint == cancellation.constraint
                    &&& level.quantity == shown_quantity(
                        self.book,
                        cancellation.side,
                        cancellation.constraint,
                    ) - cancellation.quantity.lots
                    &&& level.order_count == shown_orders(
                        self.book,
                        cancellation.side,
                        cancellation.constraint,
                    ) - 1
                },
                CallAuctionEventKind::PhaseChanged { auction_id, previous, current, revision } => {
                    public == CallAuctionMarketDataKind::PhaseChanged {
                        auction_id,
                        previous,
                        current,
                        revision,
                    }
                },
                CallAuctionEventKind::UncrossCompleted {
                    auction_id,
                    clearing,
                    trade_count,
                    cancellation_count,
                    book_revision,
                    phase_revision,
                    ..
                } => public == CallAuctionMarketDataKind::UncrossCompleted {
                    auction_id,
                    clearing,
                    trade_count,
                    cancellation_count,
                    book_revision,
                    phase_revision,
                },
                CallAuctionEventKind::MassCancelCompleted {
                    cancelled_order_count,
                    cancelled_quantity_lots,
                    book_revision,
                    ..
                } => public == CallAuctionMarketDataKind::MassCancelCompleted {
                    cancelled_order_count,
                    cancelled_quantity_lots,
                    book_revision,
                },
                CallAuctionEventKind::CommandRejected(_) => public
                    == CallAuctionMarketDataKind::NoPublicChange && next == self,
            },
    {
    }
}

impl CallAuctionMarketDataPublisher {
    /// A published batch has one update for each event of the report, with its
    /// sequence and time, for the publisher's instrument; the publisher is then at
    /// the report's command and its last event.
    pub proof fn law_batch_follows_report(
        &self,
        after: &Self,
        command: CallAuctionCommand,
        report: CallAuctionExecutionReport,
        engine: &CallAuctionEngine,
        batch: CallAuctionMarketDataBatch,
        k: int,
    )
        requires
            after.published(self, command, report, engine, Ok(batch)),
            !report.replayed,
        ensures
            batch.updates@.len() == report.events@.len(),
            0 <= k < batch.updates@.len() ==> {
                &&& batch.updates@[k].sequence == report.events@[k].sequence
                &&& batch.updates@[k].sequence == self.last_event_sequence + 1 + k
                &&& batch.updates@[k].occurred_at == report.events@[k].occurred_at
                &&& batch.updates@[k].instrument_id == self.instrument_id
                &&& batch.updates@[k].instrument_version == self.instrument_version
            },
            report.command_sequence == self.last_command_sequence + 1,
            after.last_command_sequence == report.command_sequence,
            after.last_event_sequence == self.last_event_sequence + report.events@.len(),
            !batch.replayed,
    {
        self.fresh().lemma_steps_prefix(
            command,
            report.events@,
            self.limits,
            report.events@.len(),
            report.events@.len(),
        );
    }

    /// A replayed report that the publisher has already covered publishes nothing
    /// and changes nothing.
    pub proof fn law_replayed_report_is_silent(
        &self,
        after: &Self,
        command: CallAuctionCommand,
        report: CallAuctionExecutionReport,
        engine: &CallAuctionEngine,
        batch: CallAuctionMarketDataBatch,
    )
        requires
            after.published(self, command, report, engine, Ok(batch)),
            report.replayed,
        ensures
            batch.updates@.len() == 0,
            batch.replayed,
            *after == *self,
            report.command_sequence <= self.last_command_sequence,
    {
    }
}

impl CallAuctionMarketDataSnapshot {
    /// A valid image shows each occupied limit price once, bids falling and asks
    /// rising, never empty, and its counters do not run ahead of its boundary.
    pub proof fn law_valid_image_is_ranked(&self, first: int, second: int)
        requires
            self.valid(),
        ensures
            0 <= first < second < self.bids@.len() ==> match (
                self.bids@[first].constraint,
                self.bids@[second].constraint,
            ) {
                (AuctionOrderConstraint::Limit(high), AuctionOrderConstraint::Limit(low)) => {
                    high.raw > low.raw
                },
                _ => false,
            },
            0 <= first < second < self.asks@.len() ==> match (
                self.asks@[first].constraint,
                self.asks@[second].constraint,
            ) {
                (AuctionOrderConstraint::Limit(low), AuctionOrderConstraint::Limit(high)) => {
                    low.raw < high.raw
                },
                _ => false,
            },
            0 <= first < self.bids@.len() ==> self.bids@[first].side == Side::Buy
                && self.bids@[first].quantity > 0 && self.bids@[first].order_count > 0,
            0 <= first < self.asks@.len() ==> self.asks@[first].side == Side::Sell
                && self.asks@[first].quantity > 0 && self.asks@[first].order_count > 0,
            self.market_buy.side == Side::Buy && self.market_buy.constraint is Market,
            self.market_sell.side == Side::Sell && self.market_sell.constraint is Market,
            self.book_revision <= self.command_sequence <= self.as_of_sequence,
            self.phase.revision <= self.command_sequence,
            self.phase.phase == CallAuctionPhase::Closed <==> self.phase.active_auction_id is None,
    {
        if 0 <= first < second < self.bids@.len() {
            assert(self.bids@[first].constraint is Limit && self.bids@[second].constraint is Limit);
        }
        if 0 <= first < second < self.asks@.len() {
            assert(self.asks@[first].constraint is Limit && self.asks@[second].constraint is Limit);
        }
    }
}

impl CallAuctionMarketDataReplayBuffer {
    /// A new batch is taken only right behind the latest update, and the window
    /// then holds the newest updates up to its maximum, in order: an update that
    /// was retained stays while it is among them.
    pub proof fn law_window_keeps_newest(
        &self,
        after: &Self,
        batch: CallAuctionMarketDataBatch,
        count: usize,
        back: int,
    )
        requires
            self.audited(),
            after.pushed(self, batch, Ok(count)),
            count > 0,
            0 <= back < after.retained().len(),
        ensures
            ({
                let updates = batch.updates@;
                let kept = after.retained();
                &&& count == updates.len()
                &&& updates[0].sequence == self.latest + 1
                &&& after.latest == self.latest + updates.len()
                &&& kept.len() == (if self.retained().len() + updates.len() <= self.maximum {
                    (self.retained().len() + updates.len()) as int
                } else {
                    self.maximum as int
                })
                &&& back < updates.len() ==> kept[kept.len() - 1 - back].update
                    == updates[updates.len() - 1 - back]
                &&& back >= updates.len() ==> kept[kept.len() - 1 - back]
                    == self.retained()[self.retained().len() - 1 - (back - updates.len())]
            }),
    {
        let updates = batch.updates@;
        assert(updates[updates.len() - 1].sequence == updates[0].sequence + updates.len() - 1);
    }

    /// A batch that leaves a gap is refused, and one that repeats what the window
    /// holds changes nothing.
    pub proof fn law_window_refuses_gaps(
        &self,
        after: &Self,
        batch: CallAuctionMarketDataBatch,
        r: Result<usize, CallAuctionMarketDataReplayError>,
    )
        requires
            after.pushed(self, batch, r),
            !batch.replayed,
            batch.updates@.len() > 0,
        ensures
            batch.updates@[0].sequence > self.latest + 1 ==> r is Err && *after == *self,
            batch.updates@[0].sequence <= self.latest ==> *after == *self && (r is Err || r
                == Ok::<usize, CallAuctionMarketDataReplayError>(0)),
    {
    }

    /// The batches of a replay lie one behind the other from its start on.
    #[verifier::rlimit(60)]
    proof fn lemma_replay_start(
        &self,
        replay: CallAuctionMarketDataReplay,
        start: int,
        maximum: usize,
        index: int,
    )
        requires
            self.replays(replay, start, maximum),
            0 <= index < replay.batches@.len(),
        ensures
            start <= replay.batches@[index].start,
            replay.batches@[index].wf(),
            replay.batches@[index].buffer == self,
            index == 0 ==> replay.batches@[index].start == start,
            index > 0 ==> replay.batches@[index - 1].start + replay.batches@[index - 1].count
                == replay.batches@[index].start,
            replay.update_count <= maximum,
        decreases index,
    {
        if index > 0 {
            self.lemma_replay_start(replay, start, maximum, index - 1);
            assert(replay.batches@[index - 1].start + replay.batches@[index - 1].count
                == replay.batches@[index - 1 + 1].start);
        }
    }

    /// An update of a batch is the retained update at its place.
    proof fn lemma_batch_update(&self, batch: CallAuctionMarketDataReplayBatch, k: int)
        requires
            self.audited(),
            batch.wf(),
            batch.buffer == self,
            0 <= k < batch.count,
        ensures
            batch.content().len() == batch.count,
            batch.content()[k].sequence == self.latest - self.retained().len() + 1 + batch.start
                + k,
            batch.content()[k].instrument_id == self.instrument_id,
            batch.content()[k].instrument_version == self.instrument_version,
            batch.start + batch.count <= self.retained().len(),
    {
        assert(self.entry_ok(batch.start + k));
    }

    /// A replay hands out whole batches from right behind the cursor on, in
    /// sequence, and no more updates than asked for.
    #[verifier::rlimit(60)]
    pub proof fn law_replay_is_contiguous(
        &self,
        replay: CallAuctionMarketDataReplay,
        after: u64,
        maximum: usize,
        index: int,
        k: int,
    )
        requires
            self.audited(),
            after <= self.latest,
            self.position_after(after) >= 0,
            self.replays(replay, self.position_after(after), maximum),
            0 <= index < replay.batches@.len(),
            0 <= k < replay.batches@[index].content().len(),
        ensures
            replay.update_count <= maximum,
            ({
                let batch = replay.batches@[index];
                let update = batch.content()[k];
                let before = replay.batches@[index - 1].content();
                &&& after < update.sequence <= self.latest
                &&& index == 0 ==> update.sequence == after + 1 + k
                &&& index > 0 ==> update.sequence == before[before.len() - 1].sequence + 1 + k
                &&& update.instrument_id == self.instrument_id
                &&& update.instrument_version == self.instrument_version
            }),
    {
        let start = self.position_after(after);
        let batch = replay.batches@[index];
        self.lemma_replay_start(replay, start, maximum, index);
        self.lemma_batch_update(batch, k);
        if index > 0 {
            let previous = replay.batches@[index - 1];
            self.lemma_replay_start(replay, start, maximum, index - 1);
            self.lemma_batch_update(previous, previous.count - 1);
        }
    }
}

/// A batch with the removal of a replacement is that removal and one acceptance; a
/// batch with a part of a mass cancel is its removals and a completion that counts
/// and sums them; and all of it happened at one time.
pub proof fn law_whole_batches(updates: Seq<CallAuctionMarketDataUpdate>, k: int)
    requires
        batch_whole(updates),
        0 <= k < updates.len(),
    ensures
        ({
            let kind = updates[k].kind;
            let count = updates.len() - 1;
            let last = updates[count].kind;
            let replaced = kind is Book && kind->Book_reason
                == CallAuctionBookChangeReason::Replaced;
            let massed = kind is MassCancelCompleted || kind is Book && kind->Book_reason
                == CallAuctionBookChangeReason::MassCancelled;
            &&& replaced ==> {
                &&& updates.len() == 2
                &&& k == 0
                &&& updates[1].kind is Book
                &&& updates[1].kind->Book_reason == CallAuctionBookChangeReason::Accepted
                &&& updates[1].occurred_at == updates[0].occurred_at
            }
            &&& massed ==> {
                &&& last is MassCancelCompleted
                &&& last->MassCancelCompleted_cancelled_order_count == count
                &&& last->MassCancelCompleted_cancelled_quantity_lots == lots_removed(
                    updates,
                    count as nat,
                )
                &&& updates[k].occurred_at == updates[0].occurred_at
                &&& k < count ==> kind is Book
                &&& k == count ==> kind is MassCancelCompleted
            }
        }),
{
    let count = (updates.len() - 1) as nat;
    let kind = updates[k].kind;
    assert(is_replacement(kind) == (kind is Book && kind->Book_reason
        == CallAuctionBookChangeReason::Replaced));
    assert(is_mass_cancel(kind) == (kind is MassCancelCompleted || kind is Book
        && kind->Book_reason == CallAuctionBookChangeReason::MassCancelled));
    if is_replacement(kind) {
        assert(replacement_whole(updates));
        assert(is_replacement(updates[0].kind));
        assert(is_acceptance(updates[1].kind));
        assert(updates[1].occurred_at == updates[0].occurred_at);
    }
    if is_mass_cancel(kind) {
        assert(mass_cancel_whole(updates));
        lemma_lots_removed(updates, count);
        if k < count {
            assert(is_mass_removal(updates[k].kind));
        }
    }
}

/// Lots of the book removals among the first `count` updates.
pub open spec fn lots_removed(updates: Seq<CallAuctionMarketDataUpdate>, count: nat) -> int
    decreases count,
{
    if count == 0 {
        0
    } else {
        lots_removed(updates, (count - 1) as nat) + match updates[count - 1].kind {
            CallAuctionMarketDataKind::Book { quantity, .. } => quantity.lots as int,
            _ => 0,
        }
    }
}

proof fn lemma_lots_removed(updates: Seq<CallAuctionMarketDataUpdate>, count: nat)
    requires
        count <= updates.len(),
        forall|i: int| 0 <= i < count ==> is_mass_removal((#[trigger] updates[i]).kind),
    ensures
        lots_removed(updates, count) == mass_lots(updates, count),
    decreases count,
{
    if count > 0 {
        lemma_lots_removed(updates, (count - 1) as nat);
        assert(is_mass_removal(updates[count - 1].kind));
    }
}

impl CallAuctionMarketDataReplica {
    /// Only removals of replacements and mass cancels and the completions of the
    /// latter need their whole batch.
    pub proof fn law_single_updates(kind: CallAuctionMarketDataKind)
        ensures
            Self::needs_batch(kind) <==> match kind {
                CallAuctionMarketDataKind::Book { reason, .. } => reason
                    == CallAuctionBookChangeReason::Replaced || reason
                    == CallAuctionBookChangeReason::MassCancelled,
                CallAuctionMarketDataKind::MassCancelCompleted { .. } => true,
                _ => false,
            },
    {
    }
}

impl CallAuctionMarketDataPublisher {
    /// A publisher that mirrors an engine is at its last command and event, in its
    /// phase and revision, and shows each side and constraint as the engine's
    /// collection holds it.
    pub proof fn law_mirror_shows_engine(&self, engine: &CallAuctionEngine, side: Side)
        requires
            engine.book.wf(),
            self.mirrors(engine),
        ensures
            self.last_command_sequence + 1 == engine.next_command_sequence,
            self.last_event_sequence + 1 == engine.next_event_sequence,
            self.phase.phase == engine.phase,
            self.phase.revision == engine.phase_revision,
            self.phase.active_auction_id == engine.active_auction_id,
            self.phase.last_auction_id == engine.last_auction_id,
            self.book_revision == engine.book.state_revision,
            engine.book.next_trade_id == 1 ==> self.last_trade_id is None,
            engine.book.next_trade_id > 1 ==> self.last_trade_id is Some
                && self.last_trade_id->0.value + 1 == engine.book.next_trade_id,
            shows(engine.book.active(), self.state().book),
    {
        law_book_shows_orders(&engine.book);
    }
}

impl CallAuctionMarketDataPublisher {
    /// A poisoned publisher publishes nothing, and a publisher that refuses a
    /// report of another command, instrument or sequence publishes nothing of it.
    pub proof fn law_refused_report_publishes_nothing(
        &self,
        after: &Self,
        command: CallAuctionCommand,
        report: CallAuctionExecutionReport,
        engine: &CallAuctionEngine,
        r: Result<CallAuctionMarketDataBatch, CallAuctionMarketDataError>,
    )
        requires
            after.published(self, command, report, engine, r),
        ensures
            self.poisoned ==> r is Err && *after == *self,
            r is Ok ==> {
                &&& !self.poisoned
                &&& report.command_id == command.key()
                &&& report.events@.len() > 0
                &&& report.events@[0].command_id == report.command_id
            },
            !self.poisoned && !report.replayed && report.command_sequence
                != self.last_command_sequence + 1 ==> r is Err && after.last_event_sequence
                == self.last_event_sequence && after.last_command_sequence
                == self.last_command_sequence,
    {
    }
}

/// An update can occur at its sequence only if levels count and sum together, a
/// trade has a buy and a sell level and an identity within the sequence, a phase
/// change changes the phase at a revision within the sequence, an uncross executed
/// something, and a mass cancel counts and sums together.
pub proof fn law_feasible_updates(sequence: u64, kind: CallAuctionMarketDataKind)
    requires
        kind_feasible(sequence, kind),
    ensures
        match kind {
            CallAuctionMarketDataKind::NoPublicChange => true,
            CallAuctionMarketDataKind::Book { level, .. } => level.quantity == 0
                <==> level.order_count == 0,
            CallAuctionMarketDataKind::Trade { print, buy, sell } => {
                &&& buy.side == Side::Buy && sell.side == Side::Sell
                &&& buy.quantity == 0 <==> buy.order_count == 0
                &&& sell.quantity == 0 <==> sell.order_count == 0
                &&& print.trade_id.value <= sequence
            },
            CallAuctionMarketDataKind::PhaseChanged { previous, current, revision, .. } => {
                previous != current && 0 < revision <= sequence
            },
            CallAuctionMarketDataKind::UncrossCompleted {
                clearing,
                trade_count,
                phase_revision,
                ..
            } => clearing.executable_quantity > 0 && trade_count > 0 && 0 < phase_revision
                <= sequence,
            CallAuctionMarketDataKind::MassCancelCompleted {
                cancelled_order_count,
                cancelled_quantity_lots,
                book_revision,
            } => (cancelled_order_count == 0 <==> cancelled_quantity_lots == 0) && book_revision
                <= sequence,
        },
{
}

impl CallAuctionMarketDataReplica {
    /// An audited replica shows only occupied levels on the tick grid inside the
    /// collar, no more than its limit on each side, and its command, revision and
    /// trade counters do not run ahead of its last event.
    pub proof fn law_audited_replica_is_sound(&self, i: int)
        requires
            self.audited(),
        ensures
            self.bids.entries@.len() <= self.limits.max_price_levels_per_side,
            self.asks.entries@.len() <= self.limits.max_price_levels_per_side,
            0 <= i < self.bids.entries@.len() ==> {
                let (price, level) = self.bids.entries@[i];
                &&& level.quantity > 0 && level.order_count > 0
                &&& price.raw as int % self.definition.price.tick_size as int == 0
                &&& self.definition.price.minimum.raw <= price.raw
                &&& price.raw <= self.definition.price.maximum.raw
            },
            0 <= i < self.asks.entries@.len() ==> {
                let (price, level) = self.asks.entries@[i];
                &&& level.quantity > 0 && level.order_count > 0
                &&& price.raw as int % self.definition.price.tick_size as int == 0
                &&& self.definition.price.minimum.raw <= price.raw
                &&& price.raw <= self.definition.price.maximum.raw
            },
            self.market_buy.quantity == 0 <==> self.market_buy.order_count == 0,
            self.market_sell.quantity == 0 <==> self.market_sell.order_count == 0,
            self.last_command_sequence <= self.last_event_sequence,
            self.book_revision <= self.last_event_sequence,
            self.phase.revision <= self.last_event_sequence,
            self.phase.phase == CallAuctionPhase::Closed <==> self.phase.active_auction_id is None,
    {
        if 0 <= i < self.bids.entries@.len() {
            assert(level_valid(self.definition, self.bids.entries@[i]));
        }
        if 0 <= i < self.asks.entries@.len() {
            assert(level_valid(self.definition, self.asks.entries@[i]));
        }
    }
}

impl CallAuctionMarketDataReplayBuffer {
    /// A repeated batch is taken as such only if the window holds exactly its
    /// updates at their sequences; one that it has let go of, and one that differs,
    /// are refused.
    pub proof fn law_repeated_batch_is_identical(
        &self,
        after: &Self,
        batch: CallAuctionMarketDataBatch,
        r: Result<usize, CallAuctionMarketDataReplayError>,
        k: int,
    )
        requires
            self.audited(),
            after.pushed(self, batch, r),
            !batch.replayed,
            batch.updates@.len() > 0,
            batch.updates@[0].sequence <= self.latest,
        ensures
            ({
                let updates = batch.updates@;
                let held = self.retained();
                let earliest = self.latest - held.len() + 1;
                &&& r is Ok && 0 <= k < updates.len() ==> {
                    &&& earliest <= updates[k].sequence <= self.latest
                    &&& held[updates[k].sequence - earliest].update == updates[k]
                }
                &&& r matches Err(CallAuctionMarketDataReplayError::EvictedOverlap { sequence })
                    ==> sequence == updates[0].sequence && sequence < earliest
                &&& r matches Err(CallAuctionMarketDataReplayError::Collision { sequence })
                    ==> sequence == updates[0].sequence && sequence >= earliest
            }),
    {
        let updates = batch.updates@;
        if r is Ok && 0 <= k < updates.len() {
            assert(updates[k].sequence == updates[0].sequence + k);
            let entry = batch_entries(updates)[k];
            assert(entry.update == updates[k]);
        }
    }
}

impl PublisherState {
    /// Completion of an uncross or a mass cancel comes from its completion event.
    proof fn lemma_completed_by_event(
        self,
        command: CallAuctionCommand,
        events: Seq<CallAuctionEvent>,
        limits: CallAuctionMarketDataLimits,
        count: nat,
    )
        requires
            !self.uncross.completed,
            !self.mass.completed,
            self.steps(command, events, limits, count) is Some,
        ensures
            ({
                let (state, _) = self.steps(command, events, limits, count)->0;
                &&& state.uncross.completed ==> exists|k: int|
                    0 <= k < count && (#[trigger] events[k]).kind is UncrossCompleted
                &&& state.mass.completed ==> exists|k: int|
                    0 <= k < count && (#[trigger] events[k]).kind is MassCancelCompleted
            }),
        decreases count,
    {
        if count > 0 {
            self.lemma_completed_by_event(command, events, limits, (count - 1) as nat);
            let (before, _) = self.steps(command, events, limits, (count - 1) as nat)->0;
            let kind = events[count - 1].kind;
            let (state, _) = self.steps(command, events, limits, count)->0;
            if !before.uncross.completed && state.uncross.completed {
                assert(kind is UncrossCompleted);
            }
            if !before.mass.completed && state.mass.completed {
                assert(kind is MassCancelCompleted);
            }
        }
    }
}

impl CallAuctionMarketDataPublisher {
    /// An accepted uncross or mass cancel is published only with its completion.
    pub proof fn law_published_commands_are_complete(
        &self,
        after: &Self,
        command: CallAuctionCommand,
        report: CallAuctionExecutionReport,
        engine: &CallAuctionEngine,
        batch: CallAuctionMarketDataBatch,
    )
        requires
            after.published(self, command, report, engine, Ok(batch)),
            !report.replayed,
            report.outcome == CallAuctionCommandOutcome::Accepted,
        ensures
            command is Uncross ==> exists|k: int|
                0 <= k < report.events@.len() && (
                #[trigger] report.events@[k]).kind is UncrossCompleted,
            command is MassCancel ==> exists|k: int|
                0 <= k < report.events@.len() && (
                #[trigger] report.events@[k]).kind is MassCancelCompleted,
    {
        self.fresh().lemma_completed_by_event(
            command,
            report.events@,
            self.limits,
            report.events@.len(),
        );
    }
}

} // verus!
