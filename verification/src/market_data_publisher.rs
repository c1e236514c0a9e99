//! The adapter from private auction traces to anonymized public state.

use vstd::prelude::*;

use crate::auction::{AuctionClearing, AuctionOrderConstraint};
use crate::book_types::{CallAuctionCancellation, CallAuctionOrderSnapshot, CallAuctionTrade};
use crate::domain::{
    AccountId, AuctionId, InstrumentId, InstrumentVersion, MassCancelScope, OrderId, Price,
    Quantity, Side, TradeId,
};
use crate::engine_types::{
    CallAuctionCancellationReason, CallAuctionCommand, CallAuctionEventKind, CallAuctionPhase,
    CallAuctionPhaseSnapshot,
};
use crate::market_data_state::{
    arena_of, arena_status, index_status, level_excess, level_from_aggregate, next_trade,
    set_bounded_limit_level, side_resource, transition_cycle, Aggregate, CycleTrace, PublicBook,
    PublicState,
};
use crate::market_data_types::{
    CallAuctionBookChangeReason, CallAuctionMarketDataArenaStatus, CallAuctionMarketDataError,
    CallAuctionMarketDataHashIndex, CallAuctionMarketDataHashIndexStatus, CallAuctionMarketDataKind,
    CallAuctionMarketDataLevel, CallAuctionMarketDataLimits, CallAuctionMarketDataResource,
    CallAuctionTradePrint,
};
use crate::ordered_map::OrderedMap;
use crate::publisher_model::{
    aggregate_plus, MassCancelProgress, PublishedLevel, PublishedStep, PublisherState, TrackedOrder,
    UncrossProgress,
};

verus! {

/// Stateful adapter from private auction traces to anonymized public state.
#[derive(Debug)]
pub struct CallAuctionMarketDataPublisher {
    /// Resource policy.
    pub limits: CallAuctionMarketDataLimits,
    /// Published instrument.
    pub instrument_id: InstrumentId,
    /// Published instrument version.
    pub instrument_version: InstrumentVersion,
    /// Phase and cycle state.
    pub phase: CallAuctionPhaseSnapshot,
    /// Collection-book revision.
    pub book_revision: u64,
    /// Market-constrained buy interest.
    pub market_buy: Aggregate,
    /// Market-constrained sell interest.
    pub market_sell: Aggregate,
    /// Limit bids.
    pub bids: OrderedMap<Price, Aggregate>,
    /// Limit asks.
    pub asks: OrderedMap<Price, Aggregate>,
    /// Active orders.
    pub orders: OrderedMap<OrderId, TrackedOrder>,
    /// Leaves of the orders that the uncross under way has touched, before it.
    pub uncross_sources: OrderedMap<OrderId, u64>,
    /// Progress of the uncross under way.
    pub uncross: UncrossProgress,
    /// Progress of the mass cancellation under way.
    pub mass_cancel: MassCancelProgress,
    /// Final published command sequence.
    pub last_command_sequence: u64,
    /// Final published event sequence.
    pub last_event_sequence: u64,
    /// Final published trade.
    pub last_trade_id: Option<TradeId>,
    /// Whether a trace failure invalidated incremental state.
    pub poisoned: bool,
}

/// The outcome of one step agrees with the model.
pub open spec fn step_agrees(
    step: PublishedStep,
    after: PublisherState,
    r: Result<CallAuctionMarketDataKind, CallAuctionMarketDataError>,
) -> bool {
    match r {
        Ok(kind) => step == Some((after, kind)),
        Err(_) => step is None,
    }
}

/// The outcome of one level change agrees with the model.
pub open spec fn level_agrees(
    change: PublishedLevel,
    after: PublisherState,
    r: Result<CallAuctionMarketDataLevel, CallAuctionMarketDataError>,
) -> bool {
    match r {
        Ok(level) => change == Some((after, level)),
        Err(_) => change is None,
    }
}

impl CallAuctionMarketDataPublisher {
    /// State while a command is published.
    pub open spec fn state(&self) -> PublisherState {
        PublisherState {
            book: PublicBook {
                market_buy: self.market_buy,
                market_sell: self.market_sell,
                bids: self.bids@,
                asks: self.asks@,
            },
            phase: self.phase,
            book_revision: self.book_revision,
            last_trade_id: self.last_trade_id,
            orders: self.orders@,
            sources: self.uncross_sources@,
            uncross: self.uncross,
            mass: self.mass_cancel,
        }
    }

    /// Public state.
    pub open spec fn public(&self) -> PublicState {
        self.state().public(self.last_event_sequence)
    }

    /// Every index is ordered.
    pub open spec fn wf(&self) -> bool {
        &&& self.bids.wf()
        &&& self.asks.wf()
        &&& self.orders.wf()
        &&& self.uncross_sources.wf()
    }

    /// Limits, identity and capacities are unchanged.
    pub open spec fn same_shell(&self, old: &Self) -> bool {
        &&& self.limits == old.limits
        &&& self.instrument_id == old.instrument_id
        &&& self.instrument_version == old.instrument_version
        &&& self.bids.maximum == old.bids.maximum
        &&& self.bids.reserved == old.bids.reserved
        &&& self.asks.maximum == old.asks.maximum
        &&& self.asks.reserved == old.asks.reserved
        &&& self.orders.maximum == old.orders.maximum
        &&& self.orders.reserved == old.orders.reserved
        &&& self.uncross_sources.maximum == old.uncross_sources.maximum
        &&& self.uncross_sources.reserved == old.uncross_sources.reserved
    }

    /// Shell, sequences and poisoning are unchanged.
    pub open spec fn framed(&self, old: &Self) -> bool {
        &&& self.same_shell(old)
        &&& self.last_command_sequence == old.last_command_sequence
        &&& self.last_event_sequence == old.last_event_sequence
        &&& self.poisoned == old.poisoned
    }

    /// Returns this publisher's immutable finite resource envelope.
    #[must_use]
    pub fn limits(&self) -> (r: CallAuctionMarketDataLimits)
        ensures
            r == self.limits,
    {
        self.limits
    }

    /// Returns limit-price storage telemetry for one side.
    #[must_use]
    pub fn price_level_arena_status(&self, side: Side) -> (r: CallAuctionMarketDataArenaStatus)
        ensures
            ({
                let levels = match side {
                    Side::Buy => self.bids,
                    Side::Sell => self.asks,
                };
                r == arena_of(&levels)
            }),
    {
        match side {
            Side::Buy => arena_status(&self.bids),
            Side::Sell => arena_status(&self.asks),
        }
    }

    /// Returns publisher index telemetry, or `None` for replica-only scratch.
    #[must_use]
    pub fn hash_index_status(&self, index: CallAuctionMarketDataHashIndex) -> (r: Option<
        CallAuctionMarketDataHashIndexStatus,
    >)
        ensures
            r == match index {
                CallAuctionMarketDataHashIndex::TrackedOrders => Some(
                    CallAuctionMarketDataHashIndexStatus {
                        configured_entries: self.orders.maximum,
                        allocated_entries: self.orders.reserved,
                        occupied_entries: self.orders.entries@.len() as usize,
                    },
                ),
                CallAuctionMarketDataHashIndex::PublisherUncrossSources => Some(
                    CallAuctionMarketDataHashIndexStatus {
                        configured_entries: self.uncross_sources.maximum,
                        allocated_entries: self.uncross_sources.reserved,
                        occupied_entries: self.uncross_sources.entries@.len() as usize,
                    },
                ),
                CallAuctionMarketDataHashIndex::ReplicaBatchLevels => None,
            },
    {
        match index {
            CallAuctionMarketDataHashIndex::TrackedOrders => Some(index_status(&self.orders)),
            CallAuctionMarketDataHashIndex::PublisherUncrossSources => Some(
                index_status(&self.uncross_sources),
            ),
            CallAuctionMarketDataHashIndex::ReplicaBatchLevels => None,
        }
    }

    /// Returns the final published source-event sequence.
    #[must_use]
    pub fn last_sequence(&self) -> (r: u64)
        ensures
            r == self.last_event_sequence,
    {
        self.last_event_sequence
    }

    /// Returns the final published committed-command sequence.
    #[must_use]
    pub fn last_command_sequence(&self) -> (r: u64)
        ensures
            r == self.last_command_sequence,
    {
        self.last_command_sequence
    }

    /// Returns whether a trace failure invalidated incremental state.
    #[must_use]
    pub fn is_poisoned(&self) -> (r: bool)
        ensures
            r == self.poisoned,
    {
        self.poisoned
    }

    fn aggregate_value(&self, side: Side, constraint: AuctionOrderConstraint) -> (r: Aggregate)
        requires
            self.wf(),
        ensures
            r == self.state().book.at(side, constraint),
    {
        match (side, constraint) {
            (Side::Buy, AuctionOrderConstraint::Market) => self.market_buy,
            (Side::Sell, AuctionOrderConstraint::Market) => self.market_sell,
            (Side::Buy, AuctionOrderConstraint::Limit(price)) => match self.bids.get(price) {
                Some(aggregate) => aggregate,
                None => Aggregate::empty(),
            },
            (Side::Sell, AuctionOrderConstraint::Limit(price)) => match self.asks.get(price) {
                Some(aggregate) => aggregate,
                None => Aggregate::empty(),
            },
        }
    }

    fn set_aggregate(
        &mut self,
        side: Side,
        constraint: AuctionOrderConstraint,
        aggregate: Aggregate,
    ) -> (r: Result<(), CallAuctionMarketDataError>)
        requires
            old(self).wf(),
        ensures
            final(self).wf(),
            final(self).framed(old(self)),
            ({
                let room = old(self).state().book.room(
                    side,
                    constraint,
                    aggregate,
                    old(self).limits.max_price_levels_per_side,
                );
                match r {
                    Ok(_) => room && final(self).state() == (PublisherState {
                        book: old(self).state().book.with(side, constraint, aggregate),
                        ..old(self).state()
                    }),
                    Err(error) => !room && error == level_excess(
                        side,
                        old(self).state().book.depth(side),
                        old(self).limits.max_price_levels_per_side,
                    ),
                }
            }),
    {
        let maximum: usize = self.limits.max_price_levels_per_side;
        match (side, constraint) {
            (Side::Buy, AuctionOrderConstraint::Market) => {
                self.market_buy = aggregate;
                Ok(())
            },
            (Side::Sell, AuctionOrderConstraint::Market) => {
                self.market_sell = aggregate;
                Ok(())
            },
            (Side::Buy, AuctionOrderConstraint::Limit(price)) => set_bounded_limit_level(
                &mut self.bids,
                Side::Buy,
                price,
                aggregate,
                maximum,
            ),
            (Side::Sell, AuctionOrderConstraint::Limit(price)) => set_bounded_limit_level(
                &mut self.asks,
                Side::Sell,
                price,
                aggregate,
                maximum,
            ),
        }
    }

    fn preflight_new_limit_level(&self, side: Side, constraint: AuctionOrderConstraint) -> (r:
        Result<(), CallAuctionMarketDataError>)
        requires
            self.wf(),
        ensures
            match r {
                Ok(_) => self.state().level_opens(
                    side,
                    constraint,
                    self.limits.max_price_levels_per_side,
                ),
                Err(error) => {
                    &&& !self.state().level_opens(
                        side,
                        constraint,
                        self.limits.max_price_levels_per_side,
                    )
                    &&& error == level_excess(
                        side,
                        self.state().book.depth(side),
                        self.limits.max_price_levels_per_side,
                    )
                },
            },
    {
        let price = match constraint {
            AuctionOrderConstraint::Limit(price) => price,
            AuctionOrderConstraint::Market => {
                return Ok(());
            },
        };
        let known: bool = match side {
            Side::Buy => self.bids.contains_key(price),
            Side::Sell => self.asks.contains_key(price),
        };
        let count: usize = match side {
            Side::Buy => self.bids.len(),
            Side::Sell => self.asks.len(),
        };
        if !known && count >= self.limits.max_price_levels_per_side {
            return Err(
                CallAuctionMarketDataError::CapacityExceeded {
                    resource: side_resource(side),
                    maximum: self.limits.max_price_levels_per_side,
                    attempted: count.saturating_add(1),
                },
            );
        }
        Ok(())
    }

    fn add_level(&mut self, side: Side, constraint: AuctionOrderConstraint, quantity: u64) -> (r:
        Result<CallAuctionMarketDataLevel, CallAuctionMarketDataError>)
        requires
            old(self).wf(),
        ensures
            final(self).wf(),
            final(self).framed(old(self)),
            ({
                let aggregate = old(self).state().book.at(side, constraint);
                let next = aggregate_plus(aggregate, quantity);
                let fits = aggregate.quantity + quantity <= u128::MAX && aggregate.order_count
                    < u64::MAX && next.shaped() && old(self).state().book.room(
                    side,
                    constraint,
                    next,
                    old(self).limits.max_price_levels_per_side,
                );
                match r {
                    Ok(level) => fits && level == next.level(side, constraint)
                        && final(self).state() == (PublisherState {
                        book: old(self).state().book.with(side, constraint, next),
                        ..old(self).state()
                    }),
                    Err(error) => !fits && old(self).state().addition_refused(
                        side,
                        constraint,
                        quantity,
                        old(self).limits.max_price_levels_per_side,
                        error,
                    ),
                }
            }),
    {
        let mut aggregate = self.aggregate_value(side, constraint);
        aggregate.quantity =
        match aggregate.quantity.checked_add(quantity as u128) {
            Some(total) => total,
            None => {
                return Err(CallAuctionMarketDataError::ArithmeticOverflow);
            },
        };
        aggregate.order_count =
        match aggregate.order_count.checked_add(1) {
            Some(count) => count,
            None => {
                return Err(CallAuctionMarketDataError::ArithmeticOverflow);
            },
        };
        if let Err(error) = self.set_aggregate(side, constraint, aggregate) {
            return Err(error);
        }
        level_from_aggregate(side, constraint, aggregate)
    }

    fn decrement_order(&mut self, order_id: OrderId, quantity: u64) -> (r: Result<
        CallAuctionMarketDataLevel,
        CallAuctionMarketDataError,
    >)
        requires
            old(self).wf(),
        ensures
            final(self).wf(),
            final(self).framed(old(self)),
            level_agrees(
                old(self).state().reduced(
                    order_id,
                    quantity,
                    old(self).limits.max_price_levels_per_side,
                ),
                final(self).state(),
                r,
            ),
            r matches Err(error) ==> old(self).state().reduction_refused(
                order_id,
                quantity,
                old(self).limits.max_price_levels_per_side,
                error,
            ),
    {
        let order = match self.orders.get(order_id) {
            Some(order) => order,
            None => {
                return Err(
                    CallAuctionMarketDataError::TraceMismatch(
                        "auction execution target is absent",
                    ),
                );
            },
        };
        if quantity == 0 || quantity > order.leaves {
            return Err(
                CallAuctionMarketDataError::TraceMismatch(
                    "auction execution quantity exceeds tracked leaves",
                ),
            );
        }
        let removes_order: bool = quantity == order.leaves;
        let mut result = self.aggregate_value(order.side, order.constraint);
        result.quantity =
        match result.quantity.checked_sub(quantity as u128) {
            Some(left) => left,
            None => {
                return Err(
                    CallAuctionMarketDataError::TraceMismatch(
                        "auction aggregate underflowed during execution",
                    ),
                );
            },
        };
        if removes_order {
            result.order_count =
            match result.order_count.checked_sub(1) {
                Some(left) => left,
                None => {
                    return Err(
                        CallAuctionMarketDataError::TraceMismatch(
                            "auction aggregate order count underflowed",
                        ),
                    );
                },
            };
        }
        if removes_order {
            let _ = self.orders.remove(order_id);
        } else {
            let _ = self.orders.insert(
                order_id,
                TrackedOrder { leaves: order.leaves - quantity, ..order },
            );
        }
        if let Err(error) = self.set_aggregate(order.side, order.constraint, result) {
            return Err(error);
        }
        level_from_aggregate(order.side, order.constraint, result)
    }

    fn remove_order(&mut self, order_id: OrderId, quantity: u64) -> (r: Result<
        CallAuctionMarketDataLevel,
        CallAuctionMarketDataError,
    >)
        requires
            old(self).wf(),
        ensures
            final(self).wf(),
            final(self).framed(old(self)),
            level_agrees(
                old(self).state().removed(
                    order_id,
                    quantity,
                    old(self).limits.max_price_levels_per_side,
                ),
                final(self).state(),
                r,
            ),
            r matches Err(error) ==> old(self).state().removal_refused(
                order_id,
                quantity,
                old(self).limits.max_price_levels_per_side,
                error,
            ),
    {
        match self.orders.get(order_id) {
            Some(order) => {
                if order.leaves != quantity {
                    return Err(
                        CallAuctionMarketDataError::TraceMismatch(
                            "auction removal quantity differs from tracked leaves",
                        ),
                    );
                }
            },
            None => {
                return Err(
                    CallAuctionMarketDataError::TraceMismatch("auction removal target is absent"),
                );
            },
        }
        self.decrement_order(order_id, quantity)
    }

    fn remember_source(&mut self, order_id: OrderId, leaves: u64) -> (r: Result<
        (),
        CallAuctionMarketDataError,
    >)
        requires
            old(self).wf(),
        ensures
            final(self).wf(),
            final(self).framed(old(self)),
            ({
                let next = old(self).state().remembered(
                    order_id,
                    leaves,
                    old(self).limits.max_active_orders,
                );
                match r {
                    Ok(_) => next == Some(final(self).state()),
                    Err(error) => next is None && old(self).state().memory_refused(
                        order_id,
                        old(self).limits.max_active_orders,
                        error,
                    ),
                }
            }),
    {
        if let Some(source) = self.uncross_sources.get(order_id) {
            if source < leaves {
                return Err(
                    CallAuctionMarketDataError::TraceMismatch(
                        "auction order leaves increased during one uncross",
                    ),
                );
            }
            return Ok(());
        }
        if self.uncross_sources.len() >= self.limits.max_active_orders {
            return Err(
                CallAuctionMarketDataError::CapacityExceeded {
                    resource: CallAuctionMarketDataResource::UncrossSourceOrders,
                    maximum: self.limits.max_active_orders,
                    attempted: self.uncross_sources.len().saturating_add(1),
                },
            );
        }
        let _ = self.uncross_sources.insert(order_id, leaves);
        Ok(())
    }

    fn apply_phase(
        &mut self,
        command: CallAuctionCommand,
        auction_id: AuctionId,
        previous: CallAuctionPhase,
        current: CallAuctionPhase,
        revision: u64,
    ) -> (r: Result<CallAuctionMarketDataKind, CallAuctionMarketDataError>)
        requires
            old(self).wf(),
        ensures
            final(self).wf(),
            final(self).framed(old(self)),
            step_agrees(
                old(self).state().phased(command, auction_id, previous, current, revision),
                final(self).state(),
                r,
            ),
            r matches Err(error) ==> old(self).state().phase_refused(
                command,
                auction_id,
                previous,
                current,
                revision,
                error,
            ),
    {
        let source = match command {
            CallAuctionCommand::PhaseControl(source) => source,
            _ => {
                return Err(
                    CallAuctionMarketDataError::TraceMismatch(
                        "non-phase command emitted a phase transition",
                    ),
                );
            },
        };
        let expected_revision: u64 = match self.phase.revision.checked_add(1) {
            Some(expected) => expected,
            None => {
                return Err(CallAuctionMarketDataError::ArithmeticOverflow);
            },
        };
        if source.auction_id != auction_id || source.target_phase != current || self.phase.phase
            != previous || source.expected_phase_revision != self.phase.revision || revision
            != expected_revision {
            return Err(
                CallAuctionMarketDataError::TraceMismatch(
                    "phase update contradicts the command or publisher state",
                ),
            );
        }
        match transition_cycle(self.phase, auction_id, previous, current) {
            Ok((active, last)) => {
                self.phase = CallAuctionPhaseSnapshot::from_parts(current, revision, active, last);
                Ok(
                    CallAuctionMarketDataKind::PhaseChanged {
                        auction_id,
                        previous,
                        current,
                        revision,
                    },
                )
            },
            Err(error) => Err(error),
        }
    }

    fn apply_accept(&mut self, command: CallAuctionCommand, order: CallAuctionOrderSnapshot) -> (r:
        Result<CallAuctionMarketDataKind, CallAuctionMarketDataError>)
        requires
            old(self).wf(),
        ensures
            final(self).wf(),
            final(self).framed(old(self)),
            step_agrees(
                old(self).state().accepted(command, order, old(self).limits),
                final(self).state(),
                r,
            ),
            r matches Err(error) ==> old(self).state().acceptance_refused(
                command,
                order,
                old(self).limits,
                error,
            ),
    {
        let (auction_id, expected_phase_revision, submitted) = match command {
            CallAuctionCommand::Submit(source) => (
                source.auction_id,
                source.expected_phase_revision,
                source.order,
            ),
            CallAuctionCommand::Replace(source) => {
                if source.account_id != source.replacement.account_id || self.orders.contains_key(
                    source.target_order_id,
                ) {
                    return Err(
                        CallAuctionMarketDataError::TraceMismatch(
                            "replacement acceptance precedes its source cancellation",
                        ),
                    );
                }
                (source.auction_id, source.expected_phase_revision, source.replacement)
            },
            _ => {
                return Err(
                    CallAuctionMarketDataError::TraceMismatch(
                        "non-submit command emitted an accepted order",
                    ),
                );
            },
        };
        if self.phase.phase != CallAuctionPhase::Collecting || self.phase.active_auction_id != Some(
            auction_id,
        ) || expected_phase_revision != self.phase.revision || order.order_id != submitted.order_id
            || order.account_id != submitted.account_id || order.side != submitted.side
            || order.constraint != submitted.constraint || order.quantity != submitted.quantity
            || order.priority_class != submitted.priority_class || order.priority_sequence == 0
            || self.orders.contains_key(order.order_id) {
            return Err(
                CallAuctionMarketDataError::TraceMismatch(
                    "accepted order contradicts its command or collection state",
                ),
            );
        }
        if self.orders.len() >= self.limits.max_active_orders {
            return Err(
                CallAuctionMarketDataError::CapacityExceeded {
                    resource: CallAuctionMarketDataResource::TrackedOrders,
                    maximum: self.limits.max_active_orders,
                    attempted: self.orders.len().saturating_add(1),
                },
            );
        }
        if let Err(error) = self.preflight_new_limit_level(order.side, order.constraint) {
            return Err(error);
        }
        let _ = self.orders.insert(order.order_id, TrackedOrder::from_snapshot(order));
        let level = match self.add_level(order.side, order.constraint, order.quantity.lots) {
            Ok(level) => level,
            Err(error) => {
                return Err(error);
            },
        };
        match self.book_revision.checked_add(1) {
            Some(revision) => {
                self.book_revision = revision;
            },
            None => {
                return Err(CallAuctionMarketDataError::ArithmeticOverflow);
            },
        }
        Ok(
            CallAuctionMarketDataKind::Book {
                reason: CallAuctionBookChangeReason::Accepted,
                quantity: order.quantity,
                level,
            },
        )
    }

    fn apply_user_cancel(
        &mut self,
        command: CallAuctionCommand,
        order: CallAuctionOrderSnapshot,
    ) -> (r: Result<CallAuctionMarketDataKind, CallAuctionMarketDataError>)
        requires
            old(self).wf(),
        ensures
            final(self).wf(),
            final(self).framed(old(self)),
            step_agrees(
                old(self).state().cancelled(
                    command,
                    order,
                    old(self).limits.max_price_levels_per_side,
                ),
                final(self).state(),
                r,
            ),
            r matches Err(error) ==> old(self).state().cancel_refused(
                command,
                order,
                old(self).limits.max_price_levels_per_side,
                error,
            ),
    {
        let source = match command {
            CallAuctionCommand::Cancel(source) => source,
            _ => {
                return Err(
                    CallAuctionMarketDataError::TraceMismatch(
                        "non-cancel command emitted a user cancellation",
                    ),
                );
            },
        };
        let known = match self.orders.get(order.order_id) {
            Some(known) => known,
            None => {
                return Err(
                    CallAuctionMarketDataError::TraceMismatch("cancelled auction order is absent"),
                );
            },
        };
        if source.order_id != order.order_id || source.account_id != order.account_id
            || TrackedOrder::from_snapshot(order) != known {
            return Err(
                CallAuctionMarketDataError::TraceMismatch(
                    "cancelled order contradicts its command or tracked state",
                ),
            );
        }
        let level = match self.remove_order(order.order_id, order.quantity.lots) {
            Ok(level) => level,
            Err(error) => {
                return Err(error);
            },
        };
        match self.book_revision.checked_add(1) {
            Some(revision) => {
                self.book_revision = revision;
            },
            None => {
                return Err(CallAuctionMarketDataError::ArithmeticOverflow);
            },
        }
        Ok(
            CallAuctionMarketDataKind::Book {
                reason: CallAuctionBookChangeReason::UserCancelled,
                quantity: order.quantity,
                level,
            },
        )
    }

    fn apply_amend(
        &mut self,
        command: CallAuctionCommand,
        order: CallAuctionOrderSnapshot,
        previous_quantity: Quantity,
        book_revision: u64,
    ) -> (r: Result<CallAuctionMarketDataKind, CallAuctionMarketDataError>)
        requires
            old(self).wf(),
        ensures
            final(self).wf(),
            final(self).framed(old(self)),
            step_agrees(
                old(self).state().amended(
                    command,
                    order,
                    previous_quantity,
                    book_revision,
                    old(self).limits.max_price_levels_per_side,
                ),
                final(self).state(),
                r,
            ),
            r matches Err(error) ==> old(self).state().amend_refused(
                command,
                order,
                previous_quantity,
                book_revision,
                old(self).limits.max_price_levels_per_side,
                error,
            ),
    {
        let source = match command {
            CallAuctionCommand::Amend(source) => source,
            _ => {
                return Err(
                    CallAuctionMarketDataError::TraceMismatch(
                        "non-amend command emitted an amended order",
                    ),
                );
            },
        };
        let known = match self.orders.get(order.order_id) {
            Some(known) => known,
            None => {
                return Err(
                    CallAuctionMarketDataError::TraceMismatch("amended auction order is absent"),
                );
            },
        };
        let expected_revision: u64 = match self.book_revision.checked_add(1) {
            Some(expected) => expected,
            None => {
                return Err(CallAuctionMarketDataError::ArithmeticOverflow);
            },
        };
        if self.phase.phase != CallAuctionPhase::Collecting || self.phase.active_auction_id != Some(
            source.auction_id,
        ) || self.phase.revision != source.expected_phase_revision || source.account_id
            != order.account_id || source.order_id != order.order_id || source.new_quantity
            != order.quantity || known.account_id != order.account_id || known.side != order.side
            || known.constraint != order.constraint || known.priority_class != order.priority_class
            || known.priority_sequence != order.priority_sequence || known.leaves
            != previous_quantity.lots || order.quantity.lots >= previous_quantity.lots
            || book_revision != expected_revision {
            return Err(
                CallAuctionMarketDataError::TraceMismatch(
                    "amended order contradicts its command, event, or tracked state",
                ),
            );
        }
        let delta_lots: u64 = previous_quantity.lots - order.quantity.lots;
        let level = match self.decrement_order(order.order_id, delta_lots) {
            Ok(level) => level,
            Err(error) => {
                return Err(error);
            },
        };
        self.book_revision = book_revision;
        Ok(
            CallAuctionMarketDataKind::Book {
                reason: CallAuctionBookChangeReason::Amended,
                quantity: Quantity { lots: delta_lots },
                level,
            },
        )
    }

    fn apply_replace_cancel(
        &mut self,
        command: CallAuctionCommand,
        order: CallAuctionOrderSnapshot,
    ) -> (r: Result<CallAuctionMarketDataKind, CallAuctionMarketDataError>)
        requires
            old(self).wf(),
        ensures
            final(self).wf(),
            final(self).framed(old(self)),
            step_agrees(
                old(self).state().displaced(
                    command,
                    order,
                    old(self).limits.max_price_levels_per_side,
                ),
                final(self).state(),
                r,
            ),
            r matches Err(error) ==> old(self).state().displacement_refused(
                command,
                order,
                old(self).limits.max_price_levels_per_side,
                error,
            ),
    {
        let source = match command {
            CallAuctionCommand::Replace(source) => source,
            _ => {
                return Err(
                    CallAuctionMarketDataError::TraceMismatch(
                        "non-replace command emitted a replacement cancellation",
                    ),
                );
            },
        };
        let known = match self.orders.get(order.order_id) {
            Some(known) => known,
            None => {
                return Err(
                    CallAuctionMarketDataError::TraceMismatch("replaced auction order is absent"),
                );
            },
        };
        if source.target_order_id != order.order_id || source.account_id != order.account_id
            || source.replacement.account_id != source.account_id || TrackedOrder::from_snapshot(
            order,
        ) != known {
            return Err(
                CallAuctionMarketDataError::TraceMismatch(
                    "replaced order contradicts its command or tracked state",
                ),
            );
        }
        match self.remove_order(order.order_id, order.quantity.lots) {
            Ok(level) => Ok(
                CallAuctionMarketDataKind::Book {
                    reason: CallAuctionBookChangeReason::Replaced,
                    quantity: order.quantity,
                    level,
                },
            ),
            Err(error) => Err(error),
        }
    }

    fn apply_mass_cancel(
        &mut self,
        command: CallAuctionCommand,
        order: CallAuctionOrderSnapshot,
    ) -> (r: Result<CallAuctionMarketDataKind, CallAuctionMarketDataError>)
        requires
            old(self).wf(),
        ensures
            final(self).wf(),
            final(self).framed(old(self)),
            step_agrees(
                old(self).state().mass_removed(
                    command,
                    order,
                    old(self).limits.max_price_levels_per_side,
                ),
                final(self).state(),
                r,
            ),
            r matches Err(error) ==> old(self).state().mass_removal_refused(
                command,
                order,
                old(self).limits.max_price_levels_per_side,
                error,
            ),
    {
        let source = match command {
            CallAuctionCommand::MassCancel(source) => source,
            _ => {
                return Err(
                    CallAuctionMarketDataError::TraceMismatch(
                        "non-mass-cancel command emitted a mass cancellation",
                    ),
                );
            },
        };
        let known = match self.orders.get(order.order_id) {
            Some(known) => known,
            None => {
                return Err(
                    CallAuctionMarketDataError::TraceMismatch(
                        "mass-cancelled auction order is absent",
                    ),
                );
            },
        };
        let out_of_order: bool = match self.mass_cancel.previous_order_id {
            Some(previous) => previous.value >= order.order_id.value,
            None => false,
        };
        if self.mass_cancel.completed || source.account_id != order.account_id
            || !source.scope.includes(order.side) || out_of_order || TrackedOrder::from_snapshot(
            order,
        ) != known {
            return Err(
                CallAuctionMarketDataError::TraceMismatch(
                    "mass-cancelled order contradicts its command, canonical order, or tracked state",
                ),
            );
        }
        let level = match self.remove_order(order.order_id, order.quantity.lots) {
            Ok(level) => level,
            Err(error) => {
                return Err(error);
            },
        };
        let order_count: u64 = match self.mass_cancel.order_count.checked_add(1) {
            Some(count) => count,
            None => {
                return Err(CallAuctionMarketDataError::ArithmeticOverflow);
            },
        };
        let quantity_lots: u128 = match self.mass_cancel.quantity_lots.checked_add(
            order.quantity.lots as u128,
        ) {
            Some(total) => total,
            None => {
                return Err(CallAuctionMarketDataError::ArithmeticOverflow);
            },
        };
        self.mass_cancel =
        MassCancelProgress {
            order_count,
            quantity_lots,
            previous_order_id: Some(order.order_id),
            completed: false,
        };
        Ok(
            CallAuctionMarketDataKind::Book {
                reason: CallAuctionBookChangeReason::MassCancelled,
                quantity: order.quantity,
                level,
            },
        )
    }

    fn complete_mass_cancel(
        &mut self,
        command: CallAuctionCommand,
        account_id: AccountId,
        scope: MassCancelScope,
        cancelled_order_count: u64,
        cancelled_quantity_lots: u128,
        book_revision: u64,
    ) -> (r: Result<CallAuctionMarketDataKind, CallAuctionMarketDataError>)
        requires
            old(self).wf(),
        ensures
            final(self).wf(),
            final(self).framed(old(self)),
            step_agrees(
                old(self).state().mass_completed(
                    command,
                    account_id,
                    scope,
                    cancelled_order_count,
                    cancelled_quantity_lots,
                    book_revision,
                ),
                final(self).state(),
                r,
            ),
            r matches Err(error) ==> old(self).state().mass_completion_refused(
                command,
                cancelled_order_count,
                error,
            ),
    {
        let source = match command {
            CallAuctionCommand::MassCancel(source) => source,
            _ => {
                return Err(
                    CallAuctionMarketDataError::TraceMismatch(
                        "non-mass-cancel command emitted mass-cancel completion",
                    ),
                );
            },
        };
        let expected_book_revision: u64 = if cancelled_order_count == 0 {
            self.book_revision
        } else {
            match self.book_revision.checked_add(1) {
                Some(expected) => expected,
                None => {
                    return Err(CallAuctionMarketDataError::ArithmeticOverflow);
                },
            }
        };
        if self.mass_cancel.completed || source.account_id != account_id || source.scope != scope
            || self.mass_cancel.order_count != cancelled_order_count
            || self.mass_cancel.quantity_lots != cancelled_quantity_lots || book_revision
            != expected_book_revision {
            return Err(
                CallAuctionMarketDataError::TraceMismatch(
                    "mass-cancel completion contradicts its command or removal trace",
                ),
            );
        }
        self.book_revision = book_revision;
        self.mass_cancel.completed = true;
        Ok(
            CallAuctionMarketDataKind::MassCancelCompleted {
                cancelled_order_count,
                cancelled_quantity_lots,
                book_revision,
            },
        )
    }

    fn advance_trade_id(&mut self, actual: TradeId) -> (r: Result<(), CallAuctionMarketDataError>)
        ensures
            match r {
                Ok(_) => next_trade(old(self).last_trade_id) == Some(actual.value) && *final(self) == (CallAuctionMarketDataPublisher {
                    last_trade_id: Some(actual),
                    ..*old(self)
                }),
                Err(error) => {
                    &&& next_trade(old(self).last_trade_id) != Some(actual.value)
                    &&& if next_trade(old(self).last_trade_id) is None {
                        error == CallAuctionMarketDataError::ArithmeticOverflow
                    } else {
                        error.mismatches("auction trade identifier is not contiguous"@)
                    }
                    &&& *final(self) == *old(self)
                },
            },
    {
        let expected: u64 = match self.last_trade_id {
            Some(previous) => match previous.value.checked_add(1) {
                Some(value) => value,
                None => {
                    return Err(CallAuctionMarketDataError::ArithmeticOverflow);
                },
            },
            None => 1,
        };
        if actual.value != expected {
            return Err(
                CallAuctionMarketDataError::TraceMismatch(
                    "auction trade identifier is not contiguous",
                ),
            );
        }
        self.last_trade_id = Some(actual);
        Ok(())
    }

    fn apply_trade(&mut self, command: CallAuctionCommand, trade: CallAuctionTrade) -> (r: Result<
        CallAuctionMarketDataKind,
        CallAuctionMarketDataError,
    >)
        requires
            old(self).wf(),
        ensures
            final(self).wf(),
            final(self).framed(old(self)),
            step_agrees(
                old(self).state().traded(command, trade, old(self).limits),
                final(self).state(),
                r,
            ),
            r matches Err(error) ==> old(self).state().trade_refused(
                command,
                trade,
                old(self).limits,
                error,
            ),
    {
        let ghost entry = self.state();
        let source = match command {
            CallAuctionCommand::Uncross(source) => source,
            _ => {
                return Err(
                    CallAuctionMarketDataError::TraceMismatch(
                        "non-uncross command emitted an auction trade",
                    ),
                );
            },
        };
        if self.phase.phase != CallAuctionPhase::Frozen || self.phase.active_auction_id != Some(
            source.auction_id,
        ) || trade.price.raw < source.price_band.minimum.raw || trade.price.raw
            > source.price_band.maximum.raw {
            return Err(
                CallAuctionMarketDataError::TraceMismatch(
                    "auction trade contradicts frozen-cycle context",
                ),
            );
        }
        if let Err(error) = self.advance_trade_id(trade.trade_id) {
            return Err(error);
        }
        let buy_order = match self.orders.get(trade.buy_order_id) {
            Some(order) => order,
            None => {
                return Err(
                    CallAuctionMarketDataError::TraceMismatch("auction trade buy order is absent"),
                );
            },
        };
        let sell_order = match self.orders.get(trade.sell_order_id) {
            Some(order) => order,
            None => {
                return Err(
                    CallAuctionMarketDataError::TraceMismatch("auction trade sell order is absent"),
                );
            },
        };
        if buy_order.side != Side::Buy || sell_order.side != Side::Sell || buy_order.account_id
            != trade.buy_account_id || sell_order.account_id != trade.sell_account_id {
            return Err(
                CallAuctionMarketDataError::TraceMismatch(
                    "auction trade identities or owners contradict tracked state",
                ),
            );
        }
        proof {
            assert(entry.trades(command, trade));
            assert(self.state() == (PublisherState {
                last_trade_id: Some(trade.trade_id),
                ..entry
            }));
        }
        if let Err(error) = self.remember_source(trade.buy_order_id, buy_order.leaves) {
            return Err(error);
        }
        if let Err(error) = self.remember_source(trade.sell_order_id, sell_order.leaves) {
            return Err(error);
        }
        let lots: u64 = trade.quantity.lots;
        let buy = match self.decrement_order(trade.buy_order_id, lots) {
            Ok(level) => level,
            Err(error) => {
                return Err(error);
            },
        };
        let sell = match self.decrement_order(trade.sell_order_id, lots) {
            Ok(level) => level,
            Err(error) => {
                return Err(error);
            },
        };
        match self.uncross.trace.add_trade(trade.price, lots) {
            Some(trace) => {
                self.uncross.trace = trace;
            },
            None => {
                if !self.uncross.trace.can_count(lots) {
                    return Err(CallAuctionMarketDataError::ArithmeticOverflow);
                }
                return Err(
                    CallAuctionMarketDataError::TraceMismatch(
                        "one uncross printed multiple clearing prices",
                    ),
                );
            },
        }
        Ok(
            CallAuctionMarketDataKind::Trade {
                print: CallAuctionTradePrint {
                    auction_id: source.auction_id,
                    trade_id: trade.trade_id,
                    price: trade.price,
                    quantity: trade.quantity,
                },
                buy,
                sell,
            },
        )
    }

    fn apply_remainder(
        &mut self,
        command: CallAuctionCommand,
        cancellation: CallAuctionCancellation,
    ) -> (r: Result<CallAuctionMarketDataKind, CallAuctionMarketDataError>)
        requires
            old(self).wf(),
        ensures
            final(self).wf(),
            final(self).framed(old(self)),
            step_agrees(
                old(self).state().remainder(command, cancellation, old(self).limits),
                final(self).state(),
                r,
            ),
            r matches Err(error) ==> old(self).state().remainder_refused(
                command,
                cancellation,
                old(self).limits,
                error,
            ),
    {
        match command {
            CallAuctionCommand::Uncross(_) => {},
            _ => {
                return Err(
                    CallAuctionMarketDataError::TraceMismatch(
                        "non-uncross command emitted a remainder cancellation",
                    ),
                );
            },
        }
        let known = match self.orders.get(cancellation.order_id) {
            Some(known) => known,
            None => {
                return Err(
                    CallAuctionMarketDataError::TraceMismatch("auction remainder order is absent"),
                );
            },
        };
        if known.account_id != cancellation.account_id || known.side != cancellation.side
            || known.constraint != cancellation.constraint || known.leaves
            != cancellation.quantity.lots {
            return Err(
                CallAuctionMarketDataError::TraceMismatch(
                    "auction remainder contradicts tracked state",
                ),
            );
        }
        if let Err(error) = self.remember_source(cancellation.order_id, known.leaves) {
            return Err(error);
        }
        let source_quantity: u64 = self.uncross_sources.fetch(cancellation.order_id);
        if source_quantity.checked_sub(cancellation.quantity.lots) != Some(
            cancellation.executed_quantity_lots,
        ) {
            return Err(
                CallAuctionMarketDataError::TraceMismatch(
                    "auction remainder does not reconcile to this uncross source quantity",
                ),
            );
        }
        let level = match self.remove_order(cancellation.order_id, cancellation.quantity.lots) {
            Ok(level) => level,
            Err(error) => {
                return Err(error);
            },
        };
        match self.uncross.trace.add_removal() {
            Some(trace) => {
                self.uncross.trace = trace;
            },
            None => {
                return Err(CallAuctionMarketDataError::ArithmeticOverflow);
            },
        }
        Ok(
            CallAuctionMarketDataKind::Book {
                reason: CallAuctionBookChangeReason::UncrossRemainder,
                quantity: cancellation.quantity,
                level,
            },
        )
    }

    fn complete_uncross(
        &mut self,
        auction_id: AuctionId,
        clearing: AuctionClearing,
        trade_count: u64,
        cancellation_count: u64,
        book_revision: u64,
        phase_revision: u64,
    ) -> (r: Result<CallAuctionMarketDataKind, CallAuctionMarketDataError>)
        requires
            old(self).wf(),
        ensures
            final(self).wf(),
            final(self).framed(old(self)),
            step_agrees(
                old(self).state().uncrossed(
                    auction_id,
                    clearing,
                    trade_count,
                    cancellation_count,
                    book_revision,
                    phase_revision,
                ),
                final(self).state(),
                r,
            ),
            r matches Err(error) ==> old(self).state().uncross_refused(
                error,
            ),
    {
        let expected_book_revision: u64 = match self.book_revision.checked_add(1) {
            Some(expected) => expected,
            None => {
                return Err(CallAuctionMarketDataError::ArithmeticOverflow);
            },
        };
        let expected_phase_revision: u64 = match self.phase.revision.checked_add(1) {
            Some(expected) => expected,
            None => {
                return Err(CallAuctionMarketDataError::ArithmeticOverflow);
            },
        };
        let printed = CycleTrace {
            trade_count,
            cancellation_count,
            executed_quantity: clearing.executable_quantity,
            price: Some(clearing.price),
        };
        if self.uncross.completed || self.phase.phase != CallAuctionPhase::Frozen
            || self.phase.active_auction_id != Some(auction_id) || self.uncross.trace != printed
            || book_revision != expected_book_revision || phase_revision
            != expected_phase_revision {
            return Err(
                CallAuctionMarketDataError::TraceMismatch(
                    "uncross completion contradicts its public trace or phase state",
                ),
            );
        }
        self.book_revision = book_revision;
        self.phase =
        CallAuctionPhaseSnapshot::from_parts(
            CallAuctionPhase::Closed,
            phase_revision,
            None,
            Some(auction_id),
        );
        self.uncross.completed = true;
        Ok(
            CallAuctionMarketDataKind::UncrossCompleted {
                auction_id,
                clearing,
                trade_count,
                cancellation_count,
                book_revision,
                phase_revision,
            },
        )
    }

    /// Follows one private event.
    pub(crate) fn apply_event(&mut self, command: CallAuctionCommand, kind: CallAuctionEventKind)
        -> (r: Result<CallAuctionMarketDataKind, CallAuctionMarketDataError>)
        requires
            old(self).wf(),
        ensures
            final(self).wf(),
            final(self).framed(old(self)),
            step_agrees(
                old(self).state().step(command, kind, old(self).limits),
                final(self).state(),
                r,
            ),
            r matches Err(error) ==> old(self).state().step_refused(
                command,
                kind,
                old(self).limits,
                error,
            ),
    {
        match kind {
            CallAuctionEventKind::PhaseChanged { auction_id, previous, current, revision } =>
                self.apply_phase(command, auction_id, previous, current, revision),
            CallAuctionEventKind::OrderAccepted(order) => self.apply_accept(command, order),
            CallAuctionEventKind::OrderCancelled { order, reason } => match reason {
                CallAuctionCancellationReason::UserRequested => self.apply_user_cancel(
                    command,
                    order,
                ),
                CallAuctionCancellationReason::Replaced => self.apply_replace_cancel(
                    command,
                    order,
                ),
                CallAuctionCancellationReason::MassCancel => self.apply_mass_cancel(command, order),
                CallAuctionCancellationReason::UncrossRemainder => Err(
                    CallAuctionMarketDataError::TraceMismatch(
                        "standalone auction cancellation has an uncross-remainder reason",
                    ),
                ),
            },
            CallAuctionEventKind::Trade(trade) => self.apply_trade(command, trade),
            CallAuctionEventKind::RemainderCancelled(cancellation) => self.apply_remainder(
                command,
                cancellation,
            ),
            CallAuctionEventKind::UncrossCompleted {
                auction_id,
                clearing,
                policy,
                trade_count,
                cancellation_count,
                book_revision,
                phase_revision,
            } => {
                let source = match command {
                    CallAuctionCommand::Uncross(source) => source,
                    _ => {
                        return Err(
                            CallAuctionMarketDataError::TraceMismatch(
                                "non-uncross command emitted completion",
                            ),
                        );
                    },
                };
                if source.auction_id != auction_id || source.uncross_policy != policy {
                    return Err(
                        CallAuctionMarketDataError::TraceMismatch(
                            "uncross completion differs from its source command",
                        ),
                    );
                }
                self.complete_uncross(
                    auction_id,
                    clearing,
                    trade_count,
                    cancellation_count,
                    book_revision,
                    phase_revision,
                )
            },
            CallAuctionEventKind::MassCancelCompleted {
                account_id,
                scope,
                cancelled_order_count,
                cancelled_quantity_lots,
                book_revision,
            } => self.complete_mass_cancel(
                command,
                account_id,
                scope,
                cancelled_order_count,
                cancelled_quantity_lots,
                book_revision,
            ),
            CallAuctionEventKind::OrderAmended { order, previous_quantity, book_revision } =>
                self.apply_amend(command, order, previous_quantity, book_revision),
            CallAuctionEventKind::CommandRejected(_) => Ok(
                CallAuctionMarketDataKind::NoPublicChange,
            ),
        }
    }
}

} // verus!
