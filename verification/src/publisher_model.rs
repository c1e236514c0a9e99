//! What a private auction trace publishes.

use vstd::prelude::*;

use crate::auction::{AuctionClearing, AuctionOrderConstraint, AuctionPriorityClass};
use crate::book_types::{
    CallAuctionCancellation, CallAuctionOrder, CallAuctionOrderSnapshot, CallAuctionTrade,
};
use crate::domain::{AccountId, AuctionId, MassCancelScope, OrderId, Quantity, Side, TradeId};
use crate::engine_types::{
    CallAuctionCancellationReason, CallAuctionCommand, CallAuctionEvent, CallAuctionEventKind,
    CallAuctionPhase, CallAuctionPhaseSnapshot,
};
use crate::market_data_state::{
    cycle_after, next_trade, Aggregate, CycleTrace, PublicBook, PublicState,
};
use crate::market_data_types::{
    CallAuctionBookChangeReason, CallAuctionMarketDataKind, CallAuctionMarketDataLevel,
    CallAuctionMarketDataLimits, CallAuctionTradePrint,
};

verus! {

/// What the publisher knows of one active order.
#[derive(Clone, Copy, Debug, PartialEq, Eq, Structural)]
pub struct TrackedOrder {
    /// Owner account.
    pub account_id: AccountId,
    /// Order side.
    pub side: Side,
    /// Market or limit constraint.
    pub constraint: AuctionOrderConstraint,
    /// Active lots.
    pub leaves: u64,
    /// Within-price execution-priority tier.
    pub priority_class: AuctionPriorityClass,
    /// Strict time-priority sequence.
    pub priority_sequence: u64,
}

impl TrackedOrder {
    /// What the publisher keeps of an order.
    pub open spec fn of(order: CallAuctionOrderSnapshot) -> Self {
        TrackedOrder {
            account_id: order.account_id,
            side: order.side,
            constraint: order.constraint,
            leaves: order.quantity.lots,
            priority_class: order.priority_class,
            priority_sequence: order.priority_sequence,
        }
    }

    /// Returns what the publisher keeps of an order.
    pub(crate) fn from_snapshot(order: CallAuctionOrderSnapshot) -> (r: Self)
        ensures
            r == Self::of(order),
    {
        TrackedOrder {
            account_id: order.account_id,
            side: order.side,
            constraint: order.constraint,
            leaves: order.quantity.lots,
            priority_class: order.priority_class,
            priority_sequence: order.priority_sequence,
        }
    }
}

/// What an uncross command has published so far.
#[derive(Clone, Copy, Debug, PartialEq, Eq, Structural)]
pub struct UncrossProgress {
    /// Trades and removals so far.
    pub trace: CycleTrace,
    /// Whether the completion was published.
    pub completed: bool,
}

/// What a mass cancellation has published so far.
#[derive(Clone, Copy, Debug, PartialEq, Eq, Structural)]
pub struct MassCancelProgress {
    /// Removed orders.
    pub order_count: u64,
    /// Removed lots.
    pub quantity_lots: u128,
    /// Last removed order.
    pub previous_order_id: Option<OrderId>,
    /// Whether the completion was published.
    pub completed: bool,
}

/// No uncross progress.
pub open spec fn uncross_start() -> UncrossProgress {
    UncrossProgress { trace: CycleTrace::none(), completed: false }
}

/// No mass-cancellation progress.
pub open spec fn mass_start() -> MassCancelProgress {
    MassCancelProgress {
        order_count: 0,
        quantity_lots: 0,
        previous_order_id: None,
        completed: false,
    }
}

/// Publisher state while one command is published.
#[verifier::ext_equal]
pub struct PublisherState {
    /// Market and limit interest.
    pub book: PublicBook,
    /// Phase and cycle state.
    pub phase: CallAuctionPhaseSnapshot,
    /// Collection-book revision.
    pub book_revision: u64,
    /// Final printed trade.
    pub last_trade_id: Option<TradeId>,
    /// Active orders.
    pub orders: Map<OrderId, TrackedOrder>,
    /// Leaves of the orders that the uncross under way has touched, before it.
    pub sources: Map<OrderId, u64>,
    /// Progress of an uncross.
    pub uncross: UncrossProgress,
    /// Progress of a mass cancellation.
    pub mass: MassCancelProgress,
}

/// A published step: the state after it and the public payload.
pub type PublishedStep = Option<(PublisherState, CallAuctionMarketDataKind)>;

/// A published removal: the state after it and the public level.
pub type PublishedLevel = Option<(PublisherState, CallAuctionMarketDataLevel)>;

/// The order that an acceptance must repeat, and the cycle and phase revision
/// that its command observed.
pub open spec fn submission(command: CallAuctionCommand) -> Option<
    (AuctionId, u64, CallAuctionOrder),
> {
    match command {
        CallAuctionCommand::Submit(source) => Some(
            (source.auction_id, source.expected_phase_revision, source.order),
        ),
        CallAuctionCommand::Replace(source) => Some(
            (source.auction_id, source.expected_phase_revision, source.replacement),
        ),
        _ => None,
    }
}

/// Interest after an execution or removal.
pub open spec fn aggregate_less(aggregate: Aggregate, lots: u64, removes: bool) -> Aggregate {
    Aggregate {
        quantity: (aggregate.quantity - lots) as u128,
        order_count: if removes {
            (aggregate.order_count - 1) as u64
        } else {
            aggregate.order_count
        },
    }
}

/// Interest after an acceptance.
pub open spec fn aggregate_plus(aggregate: Aggregate, lots: u64) -> Aggregate {
    Aggregate {
        quantity: (aggregate.quantity + lots) as u128,
        order_count: (aggregate.order_count + 1) as u64,
    }
}

impl PublisherState {
    /// One order executed or reduced by some lots, when the order and its
    /// aggregate have them.
    pub open spec fn reduced(self, id: OrderId, lots: u64, maximum: usize) -> PublishedLevel {
        let order = self.orders[id];
        let aggregate = self.book.at(order.side, order.constraint);
        let removes = lots == order.leaves;
        let next = aggregate_less(aggregate, lots, removes);
        if self.orders.dom().contains(id) && 0 < lots <= order.leaves && lots <= aggregate.quantity
            && (removes ==> aggregate.order_count > 0) && next.shaped() && self.book.room(
            order.side,
            order.constraint,
            next,
            maximum,
        ) {
            Some(
                (
                    PublisherState {
                        orders: if removes {
                            self.orders.remove(id)
                        } else {
                            self.orders.insert(
                                id,
                                TrackedOrder { leaves: (order.leaves - lots) as u64, ..order },
                            )
                        },
                        book: self.book.with(order.side, order.constraint, next),
                        ..self
                    },
                    next.level(order.side, order.constraint),
                ),
            )
        } else {
            None
        }
    }

    /// One order removed, when exactly its leaves are removed.
    pub open spec fn removed(self, id: OrderId, lots: u64, maximum: usize) -> PublishedLevel {
        if self.orders.dom().contains(id) && self.orders[id].leaves == lots {
            self.reduced(id, lots, maximum)
        } else {
            None
        }
    }

    /// The leaves of an order before the uncross, remembered.
    pub open spec fn remembered(self, id: OrderId, leaves: u64, maximum: usize) -> Option<Self> {
        if self.sources.dom().contains(id) {
            if self.sources[id] < leaves {
                None
            } else {
                Some(self)
            }
        } else if self.sources.len() < maximum {
            Some(PublisherState { sources: self.sources.insert(id, leaves), ..self })
        } else {
            None
        }
    }

    /// A phase transition that its command asked for.
    pub open spec fn phased(
        self,
        command: CallAuctionCommand,
        auction_id: AuctionId,
        previous: CallAuctionPhase,
        current: CallAuctionPhase,
        revision: u64,
    ) -> PublishedStep {
        match command {
            CallAuctionCommand::PhaseControl(source) => {
                let cycle = cycle_after(self.phase, auction_id, previous, current);
                if source.auction_id == auction_id && source.target_phase == current
                    && self.phase.phase == previous && source.expected_phase_revision
                    == self.phase.revision && revision == self.phase.revision + 1 && cycle is Some {
                    let (active, last) = cycle->0;
                    Some(
                        (
                            PublisherState {
                                phase: CallAuctionPhaseSnapshot {
                                    phase: current,
                                    revision,
                                    active_auction_id: active,
                                    last_auction_id: last,
                                },
                                ..self
                            },
                            CallAuctionMarketDataKind::PhaseChanged {
                                auction_id,
                                previous,
                                current,
                                revision,
                            },
                        ),
                    )
                } else {
                    None
                }
            },
            _ => None,
        }
    }

    /// An accepted order repeats what its command submitted to the collection.
    pub open spec fn accepts(
        self,
        command: CallAuctionCommand,
        order: CallAuctionOrderSnapshot,
    ) -> bool {
        &&& submission(command) matches Some((auction_id, revision, submitted))
        &&& (command matches CallAuctionCommand::Replace(source) ==> source.account_id
            == source.replacement.account_id && !self.orders.dom().contains(
            source.target_order_id,
        ))
        &&& self.phase.phase == CallAuctionPhase::Collecting
        &&& self.phase.active_auction_id == Some(auction_id)
        &&& revision == self.phase.revision
        &&& order.order_id == submitted.order_id
        &&& order.account_id == submitted.account_id
        &&& order.side == submitted.side
        &&& order.constraint == submitted.constraint
        &&& order.quantity == submitted.quantity
        &&& order.priority_class == submitted.priority_class
        &&& order.priority_sequence != 0
        &&& !self.orders.dom().contains(order.order_id)
    }

    /// An acceptance, when there is room for the order and its level.
    pub open spec fn accepted(
        self,
        command: CallAuctionCommand,
        order: CallAuctionOrderSnapshot,
        limits: CallAuctionMarketDataLimits,
    ) -> PublishedStep {
        let aggregate = self.book.at(order.side, order.constraint);
        let next = aggregate_plus(aggregate, order.quantity.lots);
        if self.accepts(command, order) && self.orders.len() < limits.max_active_orders
            && aggregate.quantity + order.quantity.lots <= u128::MAX && aggregate.order_count
            < u64::MAX && next.shaped() && self.book.room(
            order.side,
            order.constraint,
            next,
            limits.max_price_levels_per_side,
        ) && self.book_revision < u64::MAX {
            Some(
                (
                    PublisherState {
                        orders: self.orders.insert(order.order_id, TrackedOrder::of(order)),
                        book: self.book.with(order.side, order.constraint, next),
                        book_revision: (self.book_revision + 1) as u64,
                        ..self
                    },
                    CallAuctionMarketDataKind::Book {
                        reason: CallAuctionBookChangeReason::Accepted,
                        quantity: order.quantity,
                        level: next.level(order.side, order.constraint),
                    },
                ),
            )
        } else {
            None
        }
    }

    /// Whether an order is known exactly as an event describes it.
    pub open spec fn tracks(self, order: CallAuctionOrderSnapshot) -> bool {
        self.orders.dom().contains(order.order_id) && self.orders[order.order_id]
            == TrackedOrder::of(order)
    }

    /// A removal that keeps the book revision.
    pub open spec fn withdrawn(
        self,
        order: CallAuctionOrderSnapshot,
        reason: CallAuctionBookChangeReason,
        maximum: usize,
    ) -> PublishedStep {
        match self.removed(order.order_id, order.quantity.lots, maximum) {
            Some((next, level)) => Some(
                (
                    next,
                    CallAuctionMarketDataKind::Book { reason, quantity: order.quantity, level },
                ),
            ),
            None => None,
        }
    }

    /// An owner cancellation.
    pub open spec fn cancelled(
        self,
        command: CallAuctionCommand,
        order: CallAuctionOrderSnapshot,
        maximum: usize,
    ) -> PublishedStep {
        match command {
            CallAuctionCommand::Cancel(source) => if source.order_id == order.order_id
                && source.account_id == order.account_id && self.tracks(order)
                && self.book_revision < u64::MAX {
                match self.withdrawn(order, CallAuctionBookChangeReason::UserCancelled, maximum) {
                    Some((next, kind)) => Some(
                        (
                            PublisherState {
                                book_revision: (self.book_revision + 1) as u64,
                                ..next
                            },
                            kind,
                        ),
                    ),
                    None => None,
                }
            } else {
                None
            },
            _ => None,
        }
    }

    /// A retained-priority reduction.
    pub open spec fn amended(
        self,
        command: CallAuctionCommand,
        order: CallAuctionOrderSnapshot,
        previous: Quantity,
        book_revision: u64,
        maximum: usize,
    ) -> PublishedStep {
        let known = self.orders[order.order_id];
        match command {
            CallAuctionCommand::Amend(source) => if self.orders.dom().contains(order.order_id)
                && self.phase.phase == CallAuctionPhase::Collecting && self.phase.active_auction_id
                == Some(source.auction_id) && self.phase.revision == source.expected_phase_revision
                && source.account_id == order.account_id && source.order_id == order.order_id
                && source.new_quantity == order.quantity && known == (TrackedOrder {
                leaves: previous.lots,
                ..TrackedOrder::of(order)
            }) && order.quantity.lots < previous.lots && book_revision == self.book_revision + 1 {
                let less = (previous.lots - order.quantity.lots) as u64;
                match self.reduced(order.order_id, less, maximum) {
                    Some((next, level)) => Some(
                        (
                            PublisherState { book_revision, ..next },
                            CallAuctionMarketDataKind::Book {
                                reason: CallAuctionBookChangeReason::Amended,
                                quantity: Quantity { lots: less },
                                level,
                            },
                        ),
                    ),
                    None => None,
                }
            } else {
                None
            },
            _ => None,
        }
    }

    /// The removal before a replacement.
    pub open spec fn displaced(
        self,
        command: CallAuctionCommand,
        order: CallAuctionOrderSnapshot,
        maximum: usize,
    ) -> PublishedStep {
        match command {
            CallAuctionCommand::Replace(source) => if source.target_order_id == order.order_id
                && source.account_id == order.account_id && source.replacement.account_id
                == source.account_id && self.tracks(order) {
                self.withdrawn(order, CallAuctionBookChangeReason::Replaced, maximum)
            } else {
                None
            },
            _ => None,
        }
    }

    /// A removal of a mass cancellation.
    pub open spec fn mass_removed(
        self,
        command: CallAuctionCommand,
        order: CallAuctionOrderSnapshot,
        maximum: usize,
    ) -> PublishedStep {
        match command {
            CallAuctionCommand::MassCancel(source) => if !self.mass.completed && source.account_id
                == order.account_id && source.scope.selects(order.side) && (
            self.mass.previous_order_id matches Some(previous) ==> previous.value
                < order.order_id.value) && self.tracks(order) && self.mass.order_count < u64::MAX
                && self.mass.quantity_lots + order.quantity.lots <= u128::MAX {
                match self.withdrawn(order, CallAuctionBookChangeReason::MassCancelled, maximum) {
                    Some((next, kind)) => Some(
                        (
                            PublisherState {
                                mass: MassCancelProgress {
                                    order_count: (self.mass.order_count + 1) as u64,
                                    quantity_lots: (self.mass.quantity_lots
                                        + order.quantity.lots) as u128,
                                    previous_order_id: Some(order.order_id),
                                    completed: false,
                                },
                                ..next
                            },
                            kind,
                        ),
                    ),
                    None => None,
                }
            } else {
                None
            },
            _ => None,
        }
    }

    /// The completion of a mass cancellation.
    pub open spec fn mass_completed(
        self,
        command: CallAuctionCommand,
        account_id: AccountId,
        scope: MassCancelScope,
        cancelled_order_count: u64,
        cancelled_quantity_lots: u128,
        book_revision: u64,
    ) -> PublishedStep {
        match command {
            CallAuctionCommand::MassCancel(source) => if !self.mass.completed && source.account_id
                == account_id && source.scope == scope && self.mass.order_count
                == cancelled_order_count && self.mass.quantity_lots == cancelled_quantity_lots
                && book_revision == self.book_revision + (if cancelled_order_count == 0 {
                0int
            } else {
                1int
            }) {
                Some(
                    (
                        PublisherState {
                            book_revision,
                            mass: MassCancelProgress { completed: true, ..self.mass },
                            ..self
                        },
                        CallAuctionMarketDataKind::MassCancelCompleted {
                            cancelled_order_count,
                            cancelled_quantity_lots,
                            book_revision,
                        },
                    ),
                )
            } else {
                None
            },
            _ => None,
        }
    }

    /// A trade fits the frozen cycle and the two orders that it names.
    pub open spec fn trades(self, command: CallAuctionCommand, trade: CallAuctionTrade) -> bool {
        &&& command matches CallAuctionCommand::Uncross(source)
        &&& self.phase.phase == CallAuctionPhase::Frozen
        &&& self.phase.active_auction_id == Some(source.auction_id)
        &&& source.price_band.minimum.raw <= trade.price.raw <= source.price_band.maximum.raw
        &&& next_trade(self.last_trade_id) == Some(trade.trade_id.value)
        &&& self.orders.dom().contains(trade.buy_order_id)
        &&& self.orders.dom().contains(trade.sell_order_id)
        &&& self.orders[trade.buy_order_id].side == Side::Buy
        &&& self.orders[trade.sell_order_id].side == Side::Sell
        &&& self.orders[trade.buy_order_id].account_id == trade.buy_account_id
        &&& self.orders[trade.sell_order_id].account_id == trade.sell_account_id
    }

    /// Both orders of a trade, remembered.
    pub open spec fn recalled(self, trade: CallAuctionTrade, maximum: usize) -> Option<Self> {
        match self.remembered(trade.buy_order_id, self.orders[trade.buy_order_id].leaves, maximum) {
            Some(next) => next.remembered(
                trade.sell_order_id,
                self.orders[trade.sell_order_id].leaves,
                maximum,
            ),
            None => None,
        }
    }

    /// A trade of an uncross.
    pub open spec fn traded(
        self,
        command: CallAuctionCommand,
        trade: CallAuctionTrade,
        limits: CallAuctionMarketDataLimits,
    ) -> PublishedStep {
        let maximum = limits.max_price_levels_per_side;
        let lots = trade.quantity.lots;
        let trace = self.uncross.trace.with_trade(trade.price, lots);
        if self.trades(command, trade) && trace is Some {
            match self.recalled(trade, limits.max_active_orders) {
                Some(recalled) => match recalled.reduced(trade.buy_order_id, lots, maximum) {
                    Some((bought, buy)) => match bought.reduced(
                        trade.sell_order_id,
                        lots,
                        maximum,
                    ) {
                        Some((sold, sell)) => Some(
                            (
                                PublisherState {
                                    last_trade_id: Some(trade.trade_id),
                                    uncross: UncrossProgress { trace: trace->0, ..self.uncross },
                                    ..sold
                                },
                                CallAuctionMarketDataKind::Trade {
                                    print: CallAuctionTradePrint {
                                        auction_id: command->Uncross_0.auction_id,
                                        trade_id: trade.trade_id,
                                        price: trade.price,
                                        quantity: trade.quantity,
                                    },
                                    buy,
                                    sell,
                                },
                            ),
                        ),
                        None => None,
                    },
                    None => None,
                },
                None => None,
            }
        } else {
            None
        }
    }

    /// A remainder removal of an uncross.
    pub open spec fn remainder(
        self,
        command: CallAuctionCommand,
        cancellation: CallAuctionCancellation,
        limits: CallAuctionMarketDataLimits,
    ) -> PublishedStep {
        let id = cancellation.order_id;
        let known = self.orders[id];
        let lots = cancellation.quantity.lots;
        let trace = self.uncross.trace.with_removal();
        if command is Uncross && self.orders.dom().contains(id) && known.account_id
            == cancellation.account_id && known.side == cancellation.side && known.constraint
            == cancellation.constraint && known.leaves == lots && trace is Some {
            match self.remembered(id, known.leaves, limits.max_active_orders) {
                Some(recalled) => if recalled.sources[id] - lots
                    == cancellation.executed_quantity_lots {
                    match recalled.removed(id, lots, limits.max_price_levels_per_side) {
                        Some((next, level)) => Some(
                            (
                                PublisherState {
                                    uncross: UncrossProgress { trace: trace->0, ..self.uncross },
                                    ..next
                                },
                                CallAuctionMarketDataKind::Book {
                                    reason: CallAuctionBookChangeReason::UncrossRemainder,
                                    quantity: cancellation.quantity,
                                    level,
                                },
                            ),
                        ),
                        None => None,
                    }
                } else {
                    None
                },
                None => None,
            }
        } else {
            None
        }
    }

    /// The completion of an uncross.
    pub open spec fn uncrossed(
        self,
        auction_id: AuctionId,
        clearing: AuctionClearing,
        trade_count: u64,
        cancellation_count: u64,
        book_revision: u64,
        phase_revision: u64,
    ) -> PublishedStep {
        if !self.uncross.completed && self.phase.phase == CallAuctionPhase::Frozen
            && self.phase.active_auction_id == Some(auction_id) && self.uncross.trace
            == (CycleTrace {
            trade_count,
            cancellation_count,
            executed_quantity: clearing.executable_quantity,
            price: Some(clearing.price),
        }) && book_revision == self.book_revision + 1 && phase_revision == self.phase.revision + 1 {
            Some(
                (
                    PublisherState {
                        book_revision,
                        phase: CallAuctionPhaseSnapshot {
                            phase: CallAuctionPhase::Closed,
                            revision: phase_revision,
                            active_auction_id: None,
                            last_auction_id: Some(auction_id),
                        },
                        uncross: UncrossProgress { completed: true, ..self.uncross },
                        ..self
                    },
                    CallAuctionMarketDataKind::UncrossCompleted {
                        auction_id,
                        clearing,
                        trade_count,
                        cancellation_count,
                        book_revision,
                        phase_revision,
                    },
                ),
            )
        } else {
            None
        }
    }

    /// One event, when it agrees with its command and this state.
    pub open spec fn step(
        self,
        command: CallAuctionCommand,
        kind: CallAuctionEventKind,
        limits: CallAuctionMarketDataLimits,
    ) -> PublishedStep {
        let maximum = limits.max_price_levels_per_side;
        match kind {
            CallAuctionEventKind::PhaseChanged { auction_id, previous, current, revision } =>
                self.phased(command, auction_id, previous, current, revision),
            CallAuctionEventKind::OrderAccepted(order) => self.accepted(command, order, limits),
            CallAuctionEventKind::OrderCancelled { order, reason } => match reason {
                CallAuctionCancellationReason::UserRequested => self.cancelled(
                    command,
                    order,
                    maximum,
                ),
                CallAuctionCancellationReason::Replaced => self.displaced(command, order, maximum),
                CallAuctionCancellationReason::MassCancel => self.mass_removed(
                    command,
                    order,
                    maximum,
                ),
                CallAuctionCancellationReason::UncrossRemainder => None,
            },
            CallAuctionEventKind::Trade(trade) => self.traded(command, trade, limits),
            CallAuctionEventKind::RemainderCancelled(cancellation) => self.remainder(
                command,
                cancellation,
                limits,
            ),
            CallAuctionEventKind::UncrossCompleted {
                auction_id,
                clearing,
                policy,
                trade_count,
                cancellation_count,
                book_revision,
                phase_revision,
            } => match command {
                CallAuctionCommand::Uncross(source) => if source.auction_id == auction_id
                    && source.uncross_policy == policy {
                    self.uncrossed(
                        auction_id,
                        clearing,
                        trade_count,
                        cancellation_count,
                        book_revision,
                        phase_revision,
                    )
                } else {
                    None
                },
                _ => None,
            },
            CallAuctionEventKind::MassCancelCompleted {
                account_id,
                scope,
                cancelled_order_count,
                cancelled_quantity_lots,
                book_revision,
            } => self.mass_completed(
                command,
                account_id,
                scope,
                cancelled_order_count,
                cancelled_quantity_lots,
                book_revision,
            ),
            CallAuctionEventKind::OrderAmended { order, previous_quantity, book_revision } =>
                self.amended(command, order, previous_quantity, book_revision, maximum),
            CallAuctionEventKind::CommandRejected(_) => Some(
                (self, CallAuctionMarketDataKind::NoPublicChange),
            ),
        }
    }

    /// The first `count` events of a trace, when they agree with this state.
    pub open spec fn steps(
        self,
        command: CallAuctionCommand,
        events: Seq<CallAuctionEvent>,
        limits: CallAuctionMarketDataLimits,
        count: nat,
    ) -> Option<(PublisherState, Seq<CallAuctionMarketDataKind>)>
        decreases count,
    {
        if count == 0 {
            Some((self, Seq::empty()))
        } else {
            match self.steps(command, events, limits, (count - 1) as nat) {
                Some((state, kinds)) => match state.step(command, events[count - 1].kind, limits) {
                    Some((next, kind)) => Some((next, kinds.push(kind))),
                    None => None,
                },
                None => None,
            }
        }
    }

    /// Events that disagree at some point disagree from there on.
    pub proof fn lemma_steps_prefix(
        self,
        command: CallAuctionCommand,
        events: Seq<CallAuctionEvent>,
        limits: CallAuctionMarketDataLimits,
        few: nat,
        many: nat,
    )
        requires
            few <= many,
            self.steps(command, events, limits, many) is Some,
        ensures
            self.steps(command, events, limits, few) is Some,
            ({
                let (_, short) = self.steps(command, events, limits, few)->0;
                let (_, long) = self.steps(command, events, limits, many)->0;
                short.len() == few && long.len() == many && forall|i: int|
                    0 <= i < few ==> #[trigger] short[i] == long[i]
            }),
        decreases many,
    {
        if few < many {
            self.lemma_steps_prefix(command, events, limits, few, (many - 1) as nat);
        } else if few > 0 {
            self.lemma_steps_prefix(command, events, limits, (few - 1) as nat, (few - 1) as nat);
        }
    }

    /// Public state at one event boundary.
    pub open spec fn public(self, sequence: u64) -> PublicState {
        PublicState {
            book: self.book,
            phase: self.phase,
            book_revision: self.book_revision,
            last_trade_id: self.last_trade_id,
            trace: if self.uncross.completed {
                CycleTrace::none()
            } else {
                self.uncross.trace
            },
            sequence,
        }
    }
}

} // verus!
