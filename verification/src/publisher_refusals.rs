//! Why a private auction trace is not published.

use vstd::prelude::*;

use crate::auction::AuctionOrderConstraint;
use crate::book_types::{CallAuctionCancellation, CallAuctionOrderSnapshot, CallAuctionTrade};
use crate::domain::{AuctionId, OrderId, Quantity, Side};
use crate::engine_types::{
    CallAuctionCancellationReason, CallAuctionCommand, CallAuctionEvent, CallAuctionEventKind,
    CallAuctionPhase,
};
use crate::market_data_state::{cycle_text, level_excess, next_trade, one_more};
use crate::market_data_types::{
    level_shape_text, CallAuctionMarketDataError, CallAuctionMarketDataLimits,
    CallAuctionMarketDataResource,
};
use crate::publisher_model::{
    aggregate_less, aggregate_plus, submission, PublisherState, TrackedOrder,
};

verus! {

impl PublisherState {
    /// A limit price has a level, or there may be one more.
    pub open spec fn level_opens(
        self,
        side: Side,
        constraint: AuctionOrderConstraint,
        maximum: usize,
    ) -> bool {
        constraint matches AuctionOrderConstraint::Limit(price) ==> self.book.depth(
            side,
        ).dom().contains(price) || self.book.depth(side).len() < maximum
    }

    /// The error of interest that cannot be added to a level.
    pub open spec fn addition_refused(
        self,
        side: Side,
        constraint: AuctionOrderConstraint,
        lots: u64,
        maximum: usize,
        error: CallAuctionMarketDataError,
    ) -> bool {
        let aggregate = self.book.at(side, constraint);
        let next = aggregate_plus(aggregate, lots);
        if aggregate.quantity + lots > u128::MAX || aggregate.order_count == u64::MAX {
            error == CallAuctionMarketDataError::ArithmeticOverflow
        } else if !self.book.room(side, constraint, next, maximum) {
            error == level_excess(side, self.book.depth(side), maximum)
        } else {
            error.refutes_update(level_shape_text())
        }
    }

    /// The error of an order that cannot be reduced.
    pub open spec fn reduction_refused(
        self,
        id: OrderId,
        lots: u64,
        maximum: usize,
        error: CallAuctionMarketDataError,
    ) -> bool {
        let order = self.orders[id];
        let aggregate = self.book.at(order.side, order.constraint);
        let removes = lots == order.leaves;
        let next = aggregate_less(aggregate, lots, removes);
        if !self.orders.dom().contains(id) {
            error.mismatches("auction execution target is absent"@)
        } else if !(0 < lots <= order.leaves) {
            error.mismatches("auction execution quantity exceeds tracked leaves"@)
        } else if lots > aggregate.quantity {
            error.mismatches("auction aggregate underflowed during execution"@)
        } else if removes && aggregate.order_count == 0 {
            error.mismatches("auction aggregate order count underflowed"@)
        } else if !self.book.room(order.side, order.constraint, next, maximum) {
            error == level_excess(order.side, self.book.depth(order.side), maximum)
        } else {
            error.refutes_update(level_shape_text())
        }
    }

    /// The error of an order that cannot be removed.
    pub open spec fn removal_refused(
        self,
        id: OrderId,
        lots: u64,
        maximum: usize,
        error: CallAuctionMarketDataError,
    ) -> bool {
        if !self.orders.dom().contains(id) {
            error.mismatches("auction removal target is absent"@)
        } else if self.orders[id].leaves != lots {
            error.mismatches("auction removal quantity differs from tracked leaves"@)
        } else {
            self.reduction_refused(id, lots, maximum, error)
        }
    }

    /// The error of leaves that cannot be remembered.
    pub open spec fn memory_refused(
        self,
        id: OrderId,
        maximum: usize,
        error: CallAuctionMarketDataError,
    ) -> bool {
        if self.sources.dom().contains(id) {
            error.mismatches("auction order leaves increased during one uncross"@)
        } else {
            error == (CallAuctionMarketDataError::CapacityExceeded {
                resource: CallAuctionMarketDataResource::UncrossSourceOrders,
                maximum,
                attempted: one_more(self.sources.len()),
            })
        }
    }

    /// The error of a refused phase transition.
    pub open spec fn phase_refused(
        self,
        command: CallAuctionCommand,
        auction_id: AuctionId,
        previous: CallAuctionPhase,
        current: CallAuctionPhase,
        revision: u64,
        error: CallAuctionMarketDataError,
    ) -> bool {
        match command {
            CallAuctionCommand::PhaseControl(source) => if self.phase.revision == u64::MAX {
                error == CallAuctionMarketDataError::ArithmeticOverflow
            } else if source.auction_id != auction_id || source.target_phase != current
                || self.phase.phase != previous || source.expected_phase_revision
                != self.phase.revision || revision != self.phase.revision + 1 {
                error.mismatches("phase update contradicts the command or publisher state"@)
            } else {
                error.refutes_update(cycle_text(self.phase, previous, current))
            },
            _ => error.mismatches("non-phase command emitted a phase transition"@),
        }
    }

    /// The error of a refused acceptance.
    pub open spec fn acceptance_refused(
        self,
        command: CallAuctionCommand,
        order: CallAuctionOrderSnapshot,
        limits: CallAuctionMarketDataLimits,
        error: CallAuctionMarketDataError,
    ) -> bool {
        let maximum = limits.max_price_levels_per_side;
        let aggregate = self.book.at(order.side, order.constraint);
        let next = aggregate_plus(aggregate, order.quantity.lots);
        if submission(command) is None {
            error.mismatches("non-submit command emitted an accepted order"@)
        } else if command matches CallAuctionCommand::Replace(source) && (source.account_id
            != source.replacement.account_id || self.orders.dom().contains(
            source.target_order_id,
        )) {
            error.mismatches("replacement acceptance precedes its source cancellation"@)
        } else if !self.accepts(command, order) {
            error.mismatches("accepted order contradicts its command or collection state"@)
        } else if self.orders.len() >= limits.max_active_orders {
            error == (CallAuctionMarketDataError::CapacityExceeded {
                resource: CallAuctionMarketDataResource::TrackedOrders,
                maximum: limits.max_active_orders,
                attempted: one_more(self.orders.len()),
            })
        } else if !self.level_opens(order.side, order.constraint, maximum) {
            error == level_excess(order.side, self.book.depth(order.side), maximum)
        } else if aggregate.quantity + order.quantity.lots > u128::MAX || aggregate.order_count
            == u64::MAX {
            error == CallAuctionMarketDataError::ArithmeticOverflow
        } else if !next.shaped() {
            error.refutes_update(level_shape_text())
        } else {
            error == CallAuctionMarketDataError::ArithmeticOverflow
        }
    }

    /// The error of a refused owner cancellation.
    pub open spec fn cancel_refused(
        self,
        command: CallAuctionCommand,
        order: CallAuctionOrderSnapshot,
        maximum: usize,
        error: CallAuctionMarketDataError,
    ) -> bool {
        match command {
            CallAuctionCommand::Cancel(source) => if !self.orders.dom().contains(order.order_id) {
                error.mismatches("cancelled auction order is absent"@)
            } else if source.order_id != order.order_id || source.account_id != order.account_id
                || !self.tracks(order) {
                error.mismatches("cancelled order contradicts its command or tracked state"@)
            } else if self.removed(order.order_id, order.quantity.lots, maximum) is None {
                self.removal_refused(order.order_id, order.quantity.lots, maximum, error)
            } else {
                error == CallAuctionMarketDataError::ArithmeticOverflow
            },
            _ => error.mismatches("non-cancel command emitted a user cancellation"@),
        }
    }

    /// The error of a refused reduction.
    pub open spec fn amend_refused(
        self,
        command: CallAuctionCommand,
        order: CallAuctionOrderSnapshot,
        previous: Quantity,
        book_revision: u64,
        maximum: usize,
        error: CallAuctionMarketDataError,
    ) -> bool {
        let known = self.orders[order.order_id];
        match command {
            CallAuctionCommand::Amend(source) => if !self.orders.dom().contains(order.order_id) {
                error.mismatches("amended auction order is absent"@)
            } else if self.book_revision == u64::MAX {
                error == CallAuctionMarketDataError::ArithmeticOverflow
            } else if self.phase.phase != CallAuctionPhase::Collecting
                || self.phase.active_auction_id != Some(source.auction_id) || self.phase.revision
                != source.expected_phase_revision || source.account_id != order.account_id
                || source.order_id != order.order_id || source.new_quantity != order.quantity
                || known != (TrackedOrder { leaves: previous.lots, ..TrackedOrder::of(order) })
                || order.quantity.lots >= previous.lots || book_revision != self.book_revision
                + 1 {
                error.mismatches("amended order contradicts its command, event, or tracked state"@)
            } else {
                self.reduction_refused(
                    order.order_id,
                    (previous.lots - order.quantity.lots) as u64,
                    maximum,
                    error,
                )
            },
            _ => error.mismatches("non-amend command emitted an amended order"@),
        }
    }

    /// The error of a refused removal before a replacement.
    pub open spec fn displacement_refused(
        self,
        command: CallAuctionCommand,
        order: CallAuctionOrderSnapshot,
        maximum: usize,
        error: CallAuctionMarketDataError,
    ) -> bool {
        match command {
            CallAuctionCommand::Replace(source) => if !self.orders.dom().contains(order.order_id) {
                error.mismatches("replaced auction order is absent"@)
            } else if source.target_order_id != order.order_id || source.account_id
                != order.account_id || source.replacement.account_id != source.account_id
                || !self.tracks(order) {
                error.mismatches("replaced order contradicts its command or tracked state"@)
            } else {
                self.removal_refused(order.order_id, order.quantity.lots, maximum, error)
            },
            _ => error.mismatches("non-replace command emitted a replacement cancellation"@),
        }
    }

    /// The error of a refused removal of a mass cancellation.
    pub open spec fn mass_removal_refused(
        self,
        command: CallAuctionCommand,
        order: CallAuctionOrderSnapshot,
        maximum: usize,
        error: CallAuctionMarketDataError,
    ) -> bool {
        match command {
            CallAuctionCommand::MassCancel(source) => if !self.orders.dom().contains(
                order.order_id,
            ) {
                error.mismatches("mass-cancelled auction order is absent"@)
            } else if self.mass.completed || source.account_id != order.account_id
                || !source.scope.selects(order.side) || (
            self.mass.previous_order_id matches Some(last) && last.value >= order.order_id.value)
                || !self.tracks(order) {
                error.mismatches(
                    "mass-cancelled order contradicts its command, canonical order, or tracked state"@,
                )
            } else if self.removed(order.order_id, order.quantity.lots, maximum) is None {
                self.removal_refused(order.order_id, order.quantity.lots, maximum, error)
            } else {
                error == CallAuctionMarketDataError::ArithmeticOverflow
            },
            _ => error.mismatches("non-mass-cancel command emitted a mass cancellation"@),
        }
    }

    /// The error of a refused completion of a mass cancellation.
    pub open spec fn mass_completion_refused(
        self,
        command: CallAuctionCommand,
        cancelled_order_count: u64,
        error: CallAuctionMarketDataError,
    ) -> bool {
        if !(command is MassCancel) {
            error.mismatches("non-mass-cancel command emitted mass-cancel completion"@)
        } else if cancelled_order_count != 0 && self.book_revision == u64::MAX {
            error == CallAuctionMarketDataError::ArithmeticOverflow
        } else {
            error.mismatches("mass-cancel completion contradicts its command or removal trace"@)
        }
    }

    /// The error of a trade whose orders cannot be remembered or executed, or
    /// that the trace of the uncross cannot take.
    pub open spec fn execution_refused(
        self,
        trade: CallAuctionTrade,
        limits: CallAuctionMarketDataLimits,
        error: CallAuctionMarketDataError,
    ) -> bool {
        let maximum = limits.max_price_levels_per_side;
        let (buy, sell) = (trade.buy_order_id, trade.sell_order_id);
        let lots = trade.quantity.lots;
        match self.remembered(buy, self.orders[buy].leaves, limits.max_active_orders) {
            None => self.memory_refused(buy, limits.max_active_orders, error),
            Some(opened) => match opened.remembered(
                sell,
                self.orders[sell].leaves,
                limits.max_active_orders,
            ) {
                None => opened.memory_refused(sell, limits.max_active_orders, error),
                Some(recalled) => match recalled.reduced(buy, lots, maximum) {
                    None => recalled.reduction_refused(buy, lots, maximum, error),
                    Some((bought, _)) => if bought.reduced(sell, lots, maximum) is None {
                        bought.reduction_refused(sell, lots, maximum, error)
                    } else if self.uncross.trace.trade_count == u64::MAX
                        || self.uncross.trace.executed_quantity + lots > u128::MAX {
                        error == CallAuctionMarketDataError::ArithmeticOverflow
                    } else {
                        error.mismatches("one uncross printed multiple clearing prices"@)
                    },
                },
            },
        }
    }

    /// The error of a refused trade.
    pub open spec fn trade_refused(
        self,
        command: CallAuctionCommand,
        trade: CallAuctionTrade,
        limits: CallAuctionMarketDataLimits,
        error: CallAuctionMarketDataError,
    ) -> bool {
        match command {
            CallAuctionCommand::Uncross(source) => if self.phase.phase != CallAuctionPhase::Frozen
                || self.phase.active_auction_id != Some(source.auction_id) || !(
            source.price_band.minimum.raw <= trade.price.raw <= source.price_band.maximum.raw) {
                error.mismatches("auction trade contradicts frozen-cycle context"@)
            } else if next_trade(self.last_trade_id) is None {
                error == CallAuctionMarketDataError::ArithmeticOverflow
            } else if next_trade(self.last_trade_id) != Some(trade.trade_id.value) {
                error.mismatches("auction trade identifier is not contiguous"@)
            } else if !self.orders.dom().contains(trade.buy_order_id) {
                error.mismatches("auction trade buy order is absent"@)
            } else if !self.orders.dom().contains(trade.sell_order_id) {
                error.mismatches("auction trade sell order is absent"@)
            } else if !self.trades(command, trade) {
                error.mismatches("auction trade identities or owners contradict tracked state"@)
            } else {
                self.execution_refused(trade, limits, error)
            },
            _ => error.mismatches("non-uncross command emitted an auction trade"@),
        }
    }

    /// The error of a refused remainder removal.
    pub open spec fn remainder_refused(
        self,
        command: CallAuctionCommand,
        cancellation: CallAuctionCancellation,
        limits: CallAuctionMarketDataLimits,
        error: CallAuctionMarketDataError,
    ) -> bool {
        let id = cancellation.order_id;
        let known = self.orders[id];
        let lots = cancellation.quantity.lots;
        let maximum = limits.max_price_levels_per_side;
        if !(command is Uncross) {
            error.mismatches("non-uncross command emitted a remainder cancellation"@)
        } else if !self.orders.dom().contains(id) {
            error.mismatches("auction remainder order is absent"@)
        } else if known.account_id != cancellation.account_id || known.side != cancellation.side
            || known.constraint != cancellation.constraint || known.leaves != lots {
            error.mismatches("auction remainder contradicts tracked state"@)
        } else {
            match self.remembered(id, known.leaves, limits.max_active_orders) {
                None => self.memory_refused(id, limits.max_active_orders, error),
                Some(recalled) => if recalled.sources[id] - lots
                    != cancellation.executed_quantity_lots {
                    error.mismatches(
                        "auction remainder does not reconcile to this uncross source quantity"@,
                    )
                } else if recalled.removed(id, lots, maximum) is None {
                    recalled.removal_refused(id, lots, maximum, error)
                } else {
                    error == CallAuctionMarketDataError::ArithmeticOverflow
                },
            }
        }
    }

    /// The error of a refused completion of an uncross.
    pub open spec fn uncross_refused(self, error: CallAuctionMarketDataError) -> bool {
        if self.book_revision == u64::MAX || self.phase.revision == u64::MAX {
            error == CallAuctionMarketDataError::ArithmeticOverflow
        } else {
            error.mismatches("uncross completion contradicts its public trace or phase state"@)
        }
    }

    /// The error of an event that disagrees with its command or this state.
    pub open spec fn step_refused(
        self,
        command: CallAuctionCommand,
        kind: CallAuctionEventKind,
        limits: CallAuctionMarketDataLimits,
        error: CallAuctionMarketDataError,
    ) -> bool {
        let maximum = limits.max_price_levels_per_side;
        match kind {
            CallAuctionEventKind::PhaseChanged { auction_id, previous, current, revision } =>
                self.phase_refused(command, auction_id, previous, current, revision, error),
            CallAuctionEventKind::OrderAccepted(order) => self.acceptance_refused(
                command,
                order,
                limits,
                error,
            ),
            CallAuctionEventKind::OrderCancelled { order, reason } => match reason {
                CallAuctionCancellationReason::UserRequested => self.cancel_refused(
                    command,
                    order,
                    maximum,
                    error,
                ),
                CallAuctionCancellationReason::Replaced => self.displacement_refused(
                    command,
                    order,
                    maximum,
                    error,
                ),
                CallAuctionCancellationReason::MassCancel => self.mass_removal_refused(
                    command,
                    order,
                    maximum,
                    error,
                ),
                CallAuctionCancellationReason::UncrossRemainder => error.mismatches(
                    "standalone auction cancellation has an uncross-remainder reason"@,
                ),
            },
            CallAuctionEventKind::Trade(trade) => self.trade_refused(command, trade, limits, error),
            CallAuctionEventKind::RemainderCancelled(cancellation) => self.remainder_refused(
                command,
                cancellation,
                limits,
                error,
            ),
            CallAuctionEventKind::UncrossCompleted { auction_id, policy, .. } => match command {
                CallAuctionCommand::Uncross(source) => if source.auction_id != auction_id
                    || source.uncross_policy != policy {
                    error.mismatches("uncross completion differs from its source command"@)
                } else {
                    self.uncross_refused(error)
                },
                _ => error.mismatches("non-uncross command emitted completion"@),
            },
            CallAuctionEventKind::MassCancelCompleted { cancelled_order_count, .. } =>
                self.mass_completion_refused(command, cancelled_order_count, error),
            CallAuctionEventKind::OrderAmended { order, previous_quantity, book_revision } =>
                self.amend_refused(
                    command,
                    order,
                    previous_quantity,
                    book_revision,
                    maximum,
                    error,
                ),
            CallAuctionEventKind::CommandRejected(_) => false,
        }
    }

    /// The error of the first event that disagrees among the first `count`.
    pub open spec fn steps_refused(
        self,
        command: CallAuctionCommand,
        events: Seq<CallAuctionEvent>,
        limits: CallAuctionMarketDataLimits,
        count: nat,
        error: CallAuctionMarketDataError,
    ) -> bool
        decreases count,
    {
        if count == 0 {
            false
        } else {
            match self.steps(command, events, limits, (count - 1) as nat) {
                Some((state, _)) => state.step_refused(
                    command,
                    events[count - 1].kind,
                    limits,
                    error,
                ),
                None => self.steps_refused(command, events, limits, (count - 1) as nat, error),
            }
        }
    }

    /// The first refused event decides the error of every longer prefix.
    pub proof fn lemma_first_refused(
        self,
        command: CallAuctionCommand,
        events: Seq<CallAuctionEvent>,
        limits: CallAuctionMarketDataLimits,
        few: nat,
        many: nat,
        error: CallAuctionMarketDataError,
    )
        requires
            few < many,
            self.steps(command, events, limits, few) matches Some((state, _)) && state.step(
                command,
                events[few as int].kind,
                limits,
            ) is None && state.step_refused(command, events[few as int].kind, limits, error),
        ensures
            self.steps(command, events, limits, many) is None,
            self.steps_refused(command, events, limits, many, error),
        decreases many,
    {
        if few + 1 < many {
            self.lemma_first_refused(command, events, limits, few, (many - 1) as nat, error);
        }
    }
}

} // verus!
