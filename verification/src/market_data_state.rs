//! Public auction state and what public updates do to it.

use vstd::prelude::*;

use crate::auction::AuctionOrderConstraint;
use crate::domain::{AuctionId, Price, Quantity, Side, TradeId};
use crate::engine_types::{CallAuctionPhase, CallAuctionPhaseSnapshot};
use crate::instrument::InstrumentDefinition;
use crate::market_data_types::{
    kind_feasible, kind_text, level_shape_text, CallAuctionBookChangeReason,
    CallAuctionMarketDataArenaStatus, CallAuctionMarketDataConstructionError,
    CallAuctionMarketDataError, CallAuctionMarketDataHashIndexStatus, CallAuctionMarketDataKind,
    CallAuctionMarketDataLevel, CallAuctionMarketDataResource, CallAuctionMarketDataUpdate,
    CallAuctionTradePrint,
};
use crate::ordered_map::{MapKey, OrderedMap};
use crate::phase_audit::next_auction_id;

verus! {

/// Quantity and order count of one market or limit constraint.
#[derive(Clone, Copy, Debug, PartialEq, Eq, Structural)]
pub struct Aggregate {
    /// Aggregate active lots.
    pub quantity: u128,
    /// Active orders.
    pub order_count: u64,
}

impl Aggregate {
    /// No interest.
    pub open spec fn none() -> Self {
        Aggregate { quantity: 0, order_count: 0 }
    }

    /// Returns no interest.
    pub fn empty() -> (r: Self)
        ensures
            r == Self::none(),
    {
        Aggregate { quantity: 0, order_count: 0 }
    }

    /// Quantity and order count are zero together.
    pub open spec fn shaped(self) -> bool {
        self.quantity == 0 <==> self.order_count == 0
    }

    /// The aggregate as a level.
    pub open spec fn level(self, side: Side, constraint: AuctionOrderConstraint) -> CallAuctionMarketDataLevel {
        CallAuctionMarketDataLevel {
            side,
            constraint,
            quantity: self.quantity,
            order_count: self.order_count,
        }
    }
}

/// Limit depth of one side.
pub type Depth = Map<Price, Aggregate>;

/// Interest at one price.
pub open spec fn depth_at(depth: Depth, price: Price) -> Aggregate {
    if depth.dom().contains(price) {
        depth[price]
    } else {
        Aggregate::none()
    }
}

/// Depth with other interest at one price.
pub open spec fn depth_with(depth: Depth, price: Price, aggregate: Aggregate) -> Depth {
    if aggregate == Aggregate::none() {
        depth.remove(price)
    } else {
        depth.insert(price, aggregate)
    }
}

/// Whether depth has room for interest at one price.
pub open spec fn depth_room(
    depth: Depth,
    price: Price,
    aggregate: Aggregate,
    maximum: usize,
) -> bool {
    aggregate == Aggregate::none() || depth.dom().contains(price) || depth.len() < maximum
}

/// Market and limit interest of both sides.
#[verifier::ext_equal]
pub struct PublicBook {
    /// Market-constrained buy interest.
    pub market_buy: Aggregate,
    /// Market-constrained sell interest.
    pub market_sell: Aggregate,
    /// Limit bids.
    pub bids: Depth,
    /// Limit asks.
    pub asks: Depth,
}

impl PublicBook {
    /// Interest of one side and constraint.
    pub open spec fn at(self, side: Side, constraint: AuctionOrderConstraint) -> Aggregate {
        match (side, constraint) {
            (Side::Buy, AuctionOrderConstraint::Market) => self.market_buy,
            (Side::Sell, AuctionOrderConstraint::Market) => self.market_sell,
            (Side::Buy, AuctionOrderConstraint::Limit(price)) => depth_at(self.bids, price),
            (Side::Sell, AuctionOrderConstraint::Limit(price)) => depth_at(self.asks, price),
        }
    }

    /// The book with other interest of one side and constraint.
    pub open spec fn with(
        self,
        side: Side,
        constraint: AuctionOrderConstraint,
        aggregate: Aggregate,
    ) -> Self {
        match (side, constraint) {
            (Side::Buy, AuctionOrderConstraint::Market) => PublicBook {
                market_buy: aggregate,
                ..self
            },
            (Side::Sell, AuctionOrderConstraint::Market) => PublicBook {
                market_sell: aggregate,
                ..self
            },
            (Side::Buy, AuctionOrderConstraint::Limit(price)) => PublicBook {
                bids: depth_with(self.bids, price, aggregate),
                ..self
            },
            (Side::Sell, AuctionOrderConstraint::Limit(price)) => PublicBook {
                asks: depth_with(self.asks, price, aggregate),
                ..self
            },
        }
    }

    /// Limit depth of one side.
    pub open spec fn depth(self, side: Side) -> Depth {
        match side {
            Side::Buy => self.bids,
            Side::Sell => self.asks,
        }
    }

    /// Whether the book has room for interest of one side and constraint.
    pub open spec fn room(
        self,
        side: Side,
        constraint: AuctionOrderConstraint,
        aggregate: Aggregate,
        maximum: usize,
    ) -> bool {
        match constraint {
            AuctionOrderConstraint::Market => true,
            AuctionOrderConstraint::Limit(price) => depth_room(
                self.depth(side),
                price,
                aggregate,
                maximum,
            ),
        }
    }

    /// The book after a level was set.
    pub open spec fn set(self, level: CallAuctionMarketDataLevel) -> Self {
        self.with(level.side, level.constraint, level_aggregate(level))
    }

    /// Whether the book has room for a level.
    pub open spec fn holds(self, level: CallAuctionMarketDataLevel, maximum: usize) -> bool {
        self.room(level.side, level.constraint, level_aggregate(level), maximum)
    }
}

/// The aggregate of a level.
pub open spec fn level_aggregate(level: CallAuctionMarketDataLevel) -> Aggregate {
    Aggregate { quantity: level.quantity, order_count: level.order_count }
}

/// Returns the aggregate of a level.
pub(crate) fn aggregate_from_level(level: CallAuctionMarketDataLevel) -> (r: Aggregate)
    ensures
        r == level_aggregate(level),
{
    Aggregate { quantity: level.quantity, order_count: level.order_count }
}

/// Returns the level of an aggregate whose quantity and order count agree.
pub(crate) fn level_from_aggregate(
    side: Side,
    constraint: AuctionOrderConstraint,
    aggregate: Aggregate,
) -> (r: Result<CallAuctionMarketDataLevel, CallAuctionMarketDataError>)
    ensures
        match r {
            Ok(level) => aggregate.shaped() && level == aggregate.level(side, constraint),
            Err(error) => !aggregate.shaped() && error.refutes_update(level_shape_text()),
        },
{
    CallAuctionMarketDataLevel::from_parts(
        side,
        constraint,
        aggregate.quantity,
        aggregate.order_count,
    )
}

/// The level resource of one side.
pub open spec fn side_levels(side: Side) -> CallAuctionMarketDataResource {
    match side {
        Side::Buy => CallAuctionMarketDataResource::BidPriceLevels,
        Side::Sell => CallAuctionMarketDataResource::AskPriceLevels,
    }
}

/// A cardinality and one more, as far as it is representable.
pub open spec fn one_more(count: nat) -> usize {
    if count < usize::MAX {
        (count + 1) as usize
    } else {
        usize::MAX
    }
}

/// The error of one level more than there may be.
pub open spec fn level_excess(side: Side, occupied: Depth, maximum: usize) -> CallAuctionMarketDataError {
    CallAuctionMarketDataError::CapacityExceeded {
        resource: side_levels(side),
        maximum,
        attempted: one_more(occupied.len()),
    }
}

/// Returns the level resource of one side.
pub(crate) fn side_resource(side: Side) -> (r: CallAuctionMarketDataResource)
    ensures
        r == side_levels(side),
{
    match side {
        Side::Buy => CallAuctionMarketDataResource::BidPriceLevels,
        Side::Sell => CallAuctionMarketDataResource::AskPriceLevels,
    }
}

/// Sets the interest at one price, unless there is no room for it.
pub(crate) fn set_bounded_limit_level(
    levels: &mut OrderedMap<Price, Aggregate>,
    side: Side,
    price: Price,
    aggregate: Aggregate,
    maximum: usize,
) -> (r: Result<(), CallAuctionMarketDataError>)
    requires
        old(levels).wf(),
    ensures
        final(levels).wf(),
        final(levels).maximum == old(levels).maximum,
        final(levels).reserved == old(levels).reserved,
        match r {
            Ok(_) => depth_room(old(levels)@, price, aggregate, maximum) && final(levels)@
                == depth_with(old(levels)@, price, aggregate),
            Err(error) => {
                &&& !depth_room(old(levels)@, price, aggregate, maximum)
                &&& *final(levels) == *old(levels)
                &&& error == level_excess(side, old(levels)@, maximum)
            },
        },
{
    if aggregate == Aggregate::empty() {
        let _ = levels.remove(price);
    } else {
        if !levels.contains_key(price) && levels.len() >= maximum {
            return Err(
                CallAuctionMarketDataError::CapacityExceeded {
                    resource: side_resource(side),
                    maximum,
                    attempted: levels.len().saturating_add(1),
                },
            );
        }
        let _ = levels.insert(price, aggregate);
    }
    Ok(())
}

/// The error of an index for which nothing was reserved.
pub open spec fn unreserved(
    resource: CallAuctionMarketDataResource,
    maximum: usize,
) -> CallAuctionMarketDataConstructionError {
    CallAuctionMarketDataConstructionError::ReservationFailed { resource, maximum }
}

/// Takes a reserved index, or names the resource for which nothing was reserved.
pub(crate) fn named_index<K: MapKey, V: Copy>(
    index: Option<OrderedMap<K, V>>,
    maximum: usize,
    resource: CallAuctionMarketDataResource,
) -> (r: Result<OrderedMap<K, V>, CallAuctionMarketDataConstructionError>)
    ensures
        match index {
            Some(map) => r == Ok::<_, CallAuctionMarketDataConstructionError>(map),
            None => r == Err::<OrderedMap<K, V>, _>(unreserved(resource, maximum)),
        },
{
    match index {
        Some(map) => Ok(map),
        None => Err(
            CallAuctionMarketDataConstructionError::ReservationFailed { resource, maximum },
        ),
    }
}

/// The storage of one depth index.
pub open spec fn arena_of(levels: &OrderedMap<Price, Aggregate>) -> CallAuctionMarketDataArenaStatus {
    let occupied = levels.entries@.len();
    CallAuctionMarketDataArenaStatus {
        configured_slots: levels.maximum,
        allocated_slots: levels.reserved,
        initialized_slots: levels.initialized,
        occupied_slots: occupied as usize,
        reusable_slots: if levels.initialized >= occupied {
            (levels.initialized - occupied) as usize
        } else {
            0
        },
    }
}

/// Returns the storage of one limit-depth index.
pub(crate) fn arena_status(levels: &OrderedMap<Price, Aggregate>) -> (r:
    CallAuctionMarketDataArenaStatus)
    ensures
        r == arena_of(levels),
{
    CallAuctionMarketDataArenaStatus {
        configured_slots: levels.maximum(),
        allocated_slots: levels.allocation_capacity(),
        initialized_slots: levels.initialized,
        occupied_slots: levels.len(),
        reusable_slots: levels.initialized.saturating_sub(levels.len()),
    }
}

/// Returns the storage of one bounded index.
pub(crate) fn index_status<K: MapKey, V: Copy>(index: &OrderedMap<K, V>) -> (r:
    CallAuctionMarketDataHashIndexStatus)
    ensures
        r == (CallAuctionMarketDataHashIndexStatus {
            configured_entries: index.maximum,
            allocated_entries: index.reserved,
            occupied_entries: index.entries@.len() as usize,
        }),
{
    CallAuctionMarketDataHashIndexStatus {
        configured_entries: index.maximum(),
        allocated_entries: index.allocation_capacity(),
        occupied_entries: index.len(),
    }
}

/// What one uncross has printed so far.
#[derive(Clone, Copy, Debug, PartialEq, Eq, Structural)]
pub struct CycleTrace {
    /// Printed trades.
    pub trade_count: u64,
    /// Printed remainder removals.
    pub cancellation_count: u64,
    /// Printed lots.
    pub executed_quantity: u128,
    /// Printed price.
    pub price: Option<Price>,
}

impl CycleTrace {
    /// Nothing printed.
    pub open spec fn none() -> Self {
        CycleTrace { trade_count: 0, cancellation_count: 0, executed_quantity: 0, price: None }
    }

    /// Returns an empty trace.
    pub fn empty() -> (r: Self)
        ensures
            r == Self::none(),
    {
        CycleTrace { trade_count: 0, cancellation_count: 0, executed_quantity: 0, price: None }
    }

    /// The trace with one more trade, when it prints the same price and the
    /// counts stay representable.
    pub open spec fn with_trade(self, price: Price, lots: u64) -> Option<Self> {
        if self.trade_count < u64::MAX && self.executed_quantity + lots <= u128::MAX && (self.price
            is None || self.price == Some(price)) {
            Some(
                CycleTrace {
                    trade_count: (self.trade_count + 1) as u64,
                    executed_quantity: (self.executed_quantity + lots) as u128,
                    price: Some(price),
                    ..self
                },
            )
        } else {
            None
        }
    }

    /// The trace with one more removal, when the count stays representable.
    pub open spec fn with_removal(self) -> Option<Self> {
        if self.cancellation_count < u64::MAX {
            Some(
                CycleTrace { cancellation_count: (self.cancellation_count + 1) as u64, ..self },
            )
        } else {
            None
        }
    }

    /// Adds one trade.
    pub(crate) fn add_trade(self, price: Price, lots: u64) -> (r: Option<Self>)
        ensures
            r == self.with_trade(price, lots),
    {
        let trade_count: u64 = match self.trade_count.checked_add(1) {
            Some(count) => count,
            None => {
                return None;
            },
        };
        let executed_quantity: u128 = match self.executed_quantity.checked_add(lots as u128) {
            Some(quantity) => quantity,
            None => {
                return None;
            },
        };
        if let Some(printed) = self.price {
            if printed != price {
                return None;
            }
        }
        Some(CycleTrace { trade_count, executed_quantity, price: Some(price), ..self })
    }

    /// Returns whether one more trade can be counted.
    pub(crate) fn can_count(self, lots: u64) -> (r: bool)
        ensures
            r == (self.trade_count < u64::MAX && self.executed_quantity + lots <= u128::MAX),
    {
        self.trade_count < u64::MAX && self.executed_quantity.checked_add(lots as u128).is_some()
    }

    /// Adds one removal.
    pub(crate) fn add_removal(self) -> (r: Option<Self>)
        ensures
            r == self.with_removal(),
    {
        match self.cancellation_count.checked_add(1) {
            Some(cancellation_count) => Some(CycleTrace { cancellation_count, ..self }),
            None => None,
        }
    }
}

/// Active and last cycle after a phase transition, when the transition is one
/// that the phase graph and the cycle identities allow.
pub open spec fn cycle_after(
    phase: CallAuctionPhaseSnapshot,
    auction_id: AuctionId,
    previous: CallAuctionPhase,
    current: CallAuctionPhase,
) -> Option<(Option<AuctionId>, Option<AuctionId>)> {
    if phase.phase != previous || previous == current {
        None
    } else {
        match (previous, current) {
            (CallAuctionPhase::Closed, CallAuctionPhase::Collecting) => if next_auction_id(
                phase.last_auction_id,
            ) == Some(auction_id) {
                Some((Some(auction_id), Some(auction_id)))
            } else {
                None
            },
            (CallAuctionPhase::Closed, _) => None,
            (_, CallAuctionPhase::Closed) => if phase.active_auction_id == Some(auction_id) {
                Some((None, phase.last_auction_id))
            } else {
                None
            },
            _ => if phase.active_auction_id == Some(auction_id) {
                Some((Some(auction_id), phase.last_auction_id))
            } else {
                None
            },
        }
    }
}

/// What is said of a phase transition that cannot be followed.
pub open spec fn cycle_text(
    phase: CallAuctionPhaseSnapshot,
    previous: CallAuctionPhase,
    current: CallAuctionPhase,
) -> Seq<char> {
    if phase.phase != previous || previous == current {
        "auction phase transition source is invalid"@
    } else {
        match (previous, current) {
            (CallAuctionPhase::Closed, CallAuctionPhase::Collecting) => {
                "auction cycle identity is not the exact successor"@
            },
            (CallAuctionPhase::Closed, _) => {
                "auction phase transition is outside the explicit graph"@
            },
            (_, CallAuctionPhase::Closed) => "auction closure references another active cycle"@,
            _ => "auction transition references another active cycle"@,
        }
    }
}

/// Follows a phase transition.
pub(crate) fn transition_cycle(
    phase: CallAuctionPhaseSnapshot,
    auction_id: AuctionId,
    previous: CallAuctionPhase,
    current: CallAuctionPhase,
) -> (r: Result<(Option<AuctionId>, Option<AuctionId>), CallAuctionMarketDataError>)
    ensures
        match r {
            Ok(cycle) => cycle_after(phase, auction_id, previous, current) == Some(cycle),
            Err(error) => cycle_after(phase, auction_id, previous, current) is None
                && error.refutes_update(cycle_text(phase, previous, current)),
        },
{
    if phase.phase != previous || previous == current {
        return Err(
            CallAuctionMarketDataError::InvalidUpdate("auction phase transition source is invalid"),
        );
    }
    match (previous, current) {
        (CallAuctionPhase::Closed, CallAuctionPhase::Collecting) => {
            let expected: Option<u64> = match phase.last_auction_id {
                Some(last) => last.value.checked_add(1),
                None => Some(1),
            };
            if expected != Some(auction_id.value) {
                return Err(
                    CallAuctionMarketDataError::InvalidUpdate(
                        "auction cycle identity is not the exact successor",
                    ),
                );
            }
            Ok((Some(auction_id), Some(auction_id)))
        },
        (CallAuctionPhase::Closed, _) => Err(
            CallAuctionMarketDataError::InvalidUpdate(
                "auction phase transition is outside the explicit graph",
            ),
        ),
        (_, CallAuctionPhase::Closed) => {
            if phase.active_auction_id != Some(auction_id) {
                return Err(
                    CallAuctionMarketDataError::InvalidUpdate(
                        "auction closure references another active cycle",
                    ),
                );
            }
            Ok((None, phase.last_auction_id))
        },
        _ => {
            if phase.active_auction_id != Some(auction_id) {
                return Err(
                    CallAuctionMarketDataError::InvalidUpdate(
                        "auction transition references another active cycle",
                    ),
                );
            }
            Ok((Some(auction_id), phase.last_auction_id))
        },
    }
}

/// The trade identifier after the last one, when there is one.
pub open spec fn next_trade(last: Option<TradeId>) -> Option<u64> {
    match last {
        None => Some(1),
        Some(id) => if id.value < u64::MAX {
            Some((id.value + 1) as u64)
        } else {
            None
        },
    }
}

/// A limit lies on the grid and within the collar.
pub open spec fn price_admitted(
    definition: InstrumentDefinition,
    constraint: AuctionOrderConstraint,
) -> bool {
    constraint matches AuctionOrderConstraint::Limit(price) ==> definition.price.admits(price)
}

/// A level follows from the previous aggregate by a book change.
pub open spec fn book_reconciles(
    previous: Aggregate,
    reason: CallAuctionBookChangeReason,
    quantity: Quantity,
    level: CallAuctionMarketDataLevel,
) -> bool {
    match reason {
        CallAuctionBookChangeReason::Accepted => level.quantity == previous.quantity + quantity.lots
            && level.order_count == previous.order_count + 1,
        CallAuctionBookChangeReason::Amended => level.quantity + quantity.lots == previous.quantity
            && level.order_count == previous.order_count,
        _ => level.quantity + quantity.lots == previous.quantity && level.order_count + 1
            == previous.order_count,
    }
}

/// A level follows from the previous aggregate by a trade.
pub open spec fn trade_reconciles(
    previous: Aggregate,
    print: CallAuctionTradePrint,
    level: CallAuctionMarketDataLevel,
) -> bool {
    &&& previous != Aggregate::none()
    &&& level.quantity + print.quantity.lots == previous.quantity
    &&& level.order_count == previous.order_count || level.order_count + 1 == previous.order_count
}

/// What is said of a limit off the grid or outside the collar.
pub open spec fn price_text() -> Seq<char> {
    "auction market-data limit is off grid or outside the collar"@
}

/// The error of a level that does not follow by a book change.
pub open spec fn book_refused(
    previous: Aggregate,
    reason: CallAuctionBookChangeReason,
    quantity: Quantity,
    error: CallAuctionMarketDataError,
) -> bool {
    let unreconciled =
        "auction book change does not reconcile to its quantity and absolute aggregate"@;
    match reason {
        CallAuctionBookChangeReason::Accepted => if previous.quantity + quantity.lots > u128::MAX
            || previous.order_count == u64::MAX {
            error == CallAuctionMarketDataError::ArithmeticOverflow
        } else {
            error.refutes_update(unreconciled)
        },
        CallAuctionBookChangeReason::Amended => error.refutes_update(
            if previous.quantity < quantity.lots {
                "auction amendment exceeds its public aggregate"@
            } else {
                unreconciled
            },
        ),
        _ => error.refutes_update(
            if previous.quantity < quantity.lots {
                "auction book removal exceeds its public aggregate"@
            } else if previous.order_count == 0 {
                "auction book removal references an empty public aggregate"@
            } else {
                unreconciled
            },
        ),
    }
}

/// What is said of a level that does not follow by a trade.
pub open spec fn trade_text(previous: Aggregate, print: CallAuctionTradePrint) -> Seq<char> {
    if previous == Aggregate::none() {
        "auction trade references an absent public aggregate"@
    } else if previous.quantity < print.quantity.lots {
        "auction trade exceeds a public aggregate"@
    } else {
        "auction trade does not reconcile to its aggregate transition"@
    }
}

/// Public state at one event boundary.
#[verifier::ext_equal]
pub struct PublicState {
    /// Market and limit interest.
    pub book: PublicBook,
    /// Phase and cycle state.
    pub phase: CallAuctionPhaseSnapshot,
    /// Collection-book revision.
    pub book_revision: u64,
    /// Final printed trade.
    pub last_trade_id: Option<TradeId>,
    /// What the uncross under way has printed.
    pub trace: CycleTrace,
    /// Last reflected event sequence.
    pub sequence: u64,
}

impl PublicState {
    /// State one book revision later.
    pub open spec fn revised(self) -> Option<Self> {
        if self.book_revision < u64::MAX {
            Some(PublicState { book_revision: (self.book_revision + 1) as u64, ..self })
        } else {
            None
        }
    }

    /// State after the reason of a book change took effect, when the phase and
    /// the counters allow it.
    pub open spec fn reasoned(self, reason: CallAuctionBookChangeReason) -> Option<Self> {
        match reason {
            CallAuctionBookChangeReason::Accepted | CallAuctionBookChangeReason::Amended => if self.phase.phase
                == CallAuctionPhase::Collecting {
                self.revised()
            } else {
                None
            },
            CallAuctionBookChangeReason::UserCancelled => self.revised(),
            CallAuctionBookChangeReason::Replaced => if self.phase.phase
                == CallAuctionPhase::Collecting {
                Some(self)
            } else {
                None
            },
            CallAuctionBookChangeReason::MassCancelled => Some(self),
            CallAuctionBookChangeReason::UncrossRemainder => if self.phase.phase
                == CallAuctionPhase::Frozen {
                match self.trace.with_removal() {
                    Some(trace) => Some(PublicState { trace, ..self }),
                    None => None,
                }
            } else {
                None
            },
        }
    }

    /// State after a book change, when it agrees with this state.
    pub open spec fn changed(
        self,
        definition: InstrumentDefinition,
        maximum: usize,
        reason: CallAuctionBookChangeReason,
        quantity: Quantity,
        level: CallAuctionMarketDataLevel,
    ) -> Option<Self> {
        if price_admitted(definition, level.constraint) && book_reconciles(
            self.book.at(level.side, level.constraint),
            reason,
            quantity,
            level,
        ) && self.book.holds(level, maximum) {
            match self.reasoned(reason) {
                Some(next) => Some(PublicState { book: self.book.set(level), ..next }),
                None => None,
            }
        } else {
            None
        }
    }

    /// The error of a book change whose reason cannot take effect.
    pub open spec fn reason_refused(
        self,
        reason: CallAuctionBookChangeReason,
        error: CallAuctionMarketDataError,
    ) -> bool {
        let misplaced = match reason {
            CallAuctionBookChangeReason::Accepted => self.phase.phase
                != CallAuctionPhase::Collecting,
            CallAuctionBookChangeReason::Amended => self.phase.phase
                != CallAuctionPhase::Collecting,
            CallAuctionBookChangeReason::Replaced => self.phase.phase
                != CallAuctionPhase::Collecting,
            CallAuctionBookChangeReason::UncrossRemainder => self.phase.phase
                != CallAuctionPhase::Frozen,
            _ => false,
        };
        if misplaced {
            error.refutes_update(
                match reason {
                    CallAuctionBookChangeReason::Accepted => {
                        "accepted public interest outside collection"@
                    },
                    CallAuctionBookChangeReason::Amended => {
                        "auction amendment occurred outside collection"@
                    },
                    CallAuctionBookChangeReason::Replaced => {
                        "replacement cancellation occurred outside collection"@
                    },
                    _ => "uncross remainder occurred outside the frozen phase"@,
                },
            )
        } else {
            error == CallAuctionMarketDataError::ArithmeticOverflow
        }
    }

    /// The error of a book change that disagrees with this state.
    pub open spec fn change_refused(
        self,
        definition: InstrumentDefinition,
        maximum: usize,
        reason: CallAuctionBookChangeReason,
        quantity: Quantity,
        level: CallAuctionMarketDataLevel,
        error: CallAuctionMarketDataError,
    ) -> bool {
        let previous = self.book.at(level.side, level.constraint);
        if !price_admitted(definition, level.constraint) {
            error.refutes_update(price_text())
        } else if !book_reconciles(previous, reason, quantity, level) {
            book_refused(previous, reason, quantity, error)
        } else if self.reasoned(reason) is None {
            self.reason_refused(reason, error)
        } else {
            error == level_excess(level.side, self.book.depth(level.side), maximum)
        }
    }

    /// The error of a trade that disagrees with this state.
    pub open spec fn trade_refused(
        self,
        definition: InstrumentDefinition,
        maximum: usize,
        print: CallAuctionTradePrint,
        buy: CallAuctionMarketDataLevel,
        sell: CallAuctionMarketDataLevel,
        error: CallAuctionMarketDataError,
    ) -> bool {
        let bought = self.book.at(Side::Buy, buy.constraint);
        let sold = self.book.at(Side::Sell, sell.constraint);
        if self.phase.phase != CallAuctionPhase::Frozen || self.phase.active_auction_id != Some(
            print.auction_id,
        ) || buy.side != Side::Buy || sell.side != Side::Sell {
            error.refutes_update("auction trade contradicts phase or side context"@)
        } else if !price_admitted(definition, buy.constraint) || !price_admitted(
            definition,
            sell.constraint,
        ) {
            error.refutes_update(price_text())
        } else if !trade_reconciles(bought, print, buy) {
            error.refutes_update(trade_text(bought, print))
        } else if !trade_reconciles(sold, print, sell) {
            error.refutes_update(trade_text(sold, print))
        } else if next_trade(self.last_trade_id) is None {
            error == CallAuctionMarketDataError::ArithmeticOverflow
        } else if next_trade(self.last_trade_id) != Some(print.trade_id.value) {
            error.refutes_update("auction trade identifier is not contiguous"@)
        } else if !self.book.holds(buy, maximum) {
            error == level_excess(Side::Buy, self.book.bids, maximum)
        } else if !self.book.holds(sell, maximum) {
            error == level_excess(Side::Sell, self.book.asks, maximum)
        } else if self.trace.trade_count == u64::MAX || self.trace.executed_quantity
            + print.quantity.lots > u128::MAX {
            error == CallAuctionMarketDataError::ArithmeticOverflow
        } else {
            error.refutes_update("one auction cycle printed multiple prices"@)
        }
    }

    /// The error of an update that disagrees with this state.
    pub open spec fn refused(
        self,
        definition: InstrumentDefinition,
        maximum: usize,
        update: CallAuctionMarketDataUpdate,
        error: CallAuctionMarketDataError,
    ) -> bool {
        if !kind_feasible(update.sequence, update.kind) {
            error.refutes_update(kind_text(update.kind))
        } else {
            match update.kind {
                CallAuctionMarketDataKind::NoPublicChange => false,
                CallAuctionMarketDataKind::Book { reason, quantity, level } => self.change_refused(
                    definition,
                    maximum,
                    reason,
                    quantity,
                    level,
                    error,
                ),
                CallAuctionMarketDataKind::Trade { print, buy, sell } => self.trade_refused(
                    definition,
                    maximum,
                    print,
                    buy,
                    sell,
                    error,
                ),
                CallAuctionMarketDataKind::PhaseChanged { previous, current, revision, .. } => {
                    if self.phase.revision == u64::MAX {
                        error == CallAuctionMarketDataError::ArithmeticOverflow
                    } else if self.phase.phase != previous || revision != self.phase.revision
                        + 1 {
                        error.refutes_update("auction phase update is not the next transition"@)
                    } else {
                        error.refutes_update(cycle_text(self.phase, previous, current))
                    }
                },
                CallAuctionMarketDataKind::UncrossCompleted { .. } => {
                    if self.book_revision == u64::MAX || self.phase.revision == u64::MAX {
                        error == CallAuctionMarketDataError::ArithmeticOverflow
                    } else {
                        error.refutes_update(
                            "auction completion does not reconcile to its incremental trace"@,
                        )
                    }
                },
                CallAuctionMarketDataKind::MassCancelCompleted { cancelled_order_count, .. } => {
                    if cancelled_order_count != 0 && self.book_revision == u64::MAX {
                        error == CallAuctionMarketDataError::ArithmeticOverflow
                    } else {
                        error.refutes_update(
                            "auction mass-cancel completion has an invalid book revision"@,
                        )
                    }
                },
            }
        }
    }

    /// The error of updates of which the first that disagrees is refused.
    pub open spec fn refused_all(
        self,
        definition: InstrumentDefinition,
        maximum: usize,
        updates: Seq<CallAuctionMarketDataUpdate>,
        error: CallAuctionMarketDataError,
    ) -> bool {
        exists|count: nat|
            count < updates.len() && (#[trigger] self.after_all(
                definition,
                maximum,
                updates,
                count,
            ) matches Some(state) && state.after(definition, maximum, updates[count as int]) is None
                && state.refused(definition, maximum, updates[count as int], error))
    }

    /// State after a trade, when it agrees with this state.
    pub open spec fn traded(
        self,
        definition: InstrumentDefinition,
        maximum: usize,
        print: CallAuctionTradePrint,
        buy: CallAuctionMarketDataLevel,
        sell: CallAuctionMarketDataLevel,
    ) -> Option<Self> {
        if self.phase.phase == CallAuctionPhase::Frozen && self.phase.active_auction_id == Some(
            print.auction_id,
        ) && buy.side == Side::Buy && sell.side == Side::Sell && price_admitted(
            definition,
            buy.constraint,
        ) && price_admitted(definition, sell.constraint) && trade_reconciles(
            self.book.at(Side::Buy, buy.constraint),
            print,
            buy,
        ) && trade_reconciles(self.book.at(Side::Sell, sell.constraint), print, sell) && next_trade(
            self.last_trade_id,
        ) == Some(print.trade_id.value) && self.book.holds(buy, maximum) && self.book.holds(
            sell,
            maximum,
        ) {
            match self.trace.with_trade(print.price, print.quantity.lots) {
                Some(trace) => Some(
                    PublicState {
                        book: self.book.set(buy).set(sell),
                        last_trade_id: Some(print.trade_id),
                        trace,
                        ..self
                    },
                ),
                None => None,
            }
        } else {
            None
        }
    }

    /// State after a payload, when it agrees with this state.
    pub open spec fn transition(
        self,
        definition: InstrumentDefinition,
        maximum: usize,
        kind: CallAuctionMarketDataKind,
    ) -> Option<Self> {
        match kind {
            CallAuctionMarketDataKind::NoPublicChange => Some(self),
            CallAuctionMarketDataKind::Book { reason, quantity, level } => self.changed(
                definition,
                maximum,
                reason,
                quantity,
                level,
            ),
            CallAuctionMarketDataKind::Trade { print, buy, sell } => self.traded(
                definition,
                maximum,
                print,
                buy,
                sell,
            ),
            CallAuctionMarketDataKind::PhaseChanged { auction_id, previous, current, revision } => {
                if self.phase.phase == previous && revision == self.phase.revision + 1 {
                    match cycle_after(self.phase, auction_id, previous, current) {
                        Some((active, last)) => Some(
                            PublicState {
                                phase: CallAuctionPhaseSnapshot {
                                    phase: current,
                                    revision,
                                    active_auction_id: active,
                                    last_auction_id: last,
                                },
                                trace: if current == CallAuctionPhase::Collecting {
                                    CycleTrace::none()
                                } else {
                                    self.trace
                                },
                                ..self
                            },
                        ),
                        None => None,
                    }
                } else {
                    None
                }
            },
            CallAuctionMarketDataKind::UncrossCompleted {
                auction_id,
                clearing,
                trade_count,
                cancellation_count,
                book_revision,
                phase_revision,
            } => {
                if self.phase.phase == CallAuctionPhase::Frozen && self.phase.active_auction_id
                    == Some(auction_id) && self.trace == (CycleTrace {
                    trade_count,
                    cancellation_count,
                    executed_quantity: clearing.executable_quantity,
                    price: Some(clearing.price),
                }) && book_revision == self.book_revision + 1 && phase_revision
                    == self.phase.revision + 1 {
                    Some(
                        PublicState {
                            book_revision,
                            phase: CallAuctionPhaseSnapshot {
                                phase: CallAuctionPhase::Closed,
                                revision: phase_revision,
                                active_auction_id: None,
                                last_auction_id: Some(auction_id),
                            },
                            trace: CycleTrace::none(),
                            ..self
                        },
                    )
                } else {
                    None
                }
            },
            CallAuctionMarketDataKind::MassCancelCompleted {
                cancelled_order_count,
                book_revision,
                ..
            } => {
                if book_revision == self.book_revision + (if cancelled_order_count == 0 {
                    0int
                } else {
                    1int
                }) {
                    Some(PublicState { book_revision, ..self })
                } else {
                    None
                }
            },
        }
    }

    /// State after an update, when it agrees with this state.
    pub open spec fn after(
        self,
        definition: InstrumentDefinition,
        maximum: usize,
        update: CallAuctionMarketDataUpdate,
    ) -> Option<Self> {
        if kind_feasible(update.sequence, update.kind) {
            match self.transition(definition, maximum, update.kind) {
                Some(next) => Some(PublicState { sequence: update.sequence, ..next }),
                None => None,
            }
        } else {
            None
        }
    }

    /// State after the first `count` updates, when they agree with this state.
    pub open spec fn after_all(
        self,
        definition: InstrumentDefinition,
        maximum: usize,
        updates: Seq<CallAuctionMarketDataUpdate>,
        count: nat,
    ) -> Option<Self>
        decreases count,
    {
        if count == 0 {
            Some(self)
        } else {
            match self.after_all(definition, maximum, updates, (count - 1) as nat) {
                Some(state) => state.after(definition, maximum, updates[count - 1]),
                None => None,
            }
        }
    }

    /// Updates that disagree at some point disagree from there on.
    pub proof fn lemma_after_prefix(
        self,
        definition: InstrumentDefinition,
        maximum: usize,
        updates: Seq<CallAuctionMarketDataUpdate>,
        few: nat,
        many: nat,
    )
        requires
            few <= many,
            self.after_all(definition, maximum, updates, many) is Some,
        ensures
            self.after_all(definition, maximum, updates, few) is Some,
        decreases many,
    {
        if few < many {
            self.lemma_after_prefix(definition, maximum, updates, few, (many - 1) as nat);
        }
    }
}

} // verus!
