//! Values exchanged with the call-auction collection book.

use vstd::prelude::*;

use crate::allocation::{AuctionAllocationError, AuctionAllocationPolicy};
use crate::auction::{
    AuctionClearing, AuctionError, AuctionOrder, AuctionOrderConstraint, AuctionPriorityClass,
};
use crate::domain::{
    AccountId, InstrumentId, InstrumentVersion, OrderId, Price, Quantity, Side, TradeId,
};
use crate::instrument::AdmissionError;

verus! {

/// Raw construction values for a bounded call-auction collection book.
#[derive(Clone, Copy, Debug, PartialEq, Eq, Structural)]
pub struct CallAuctionBookLimitsSpec {
    /// Maximum simultaneous active orders across both sides and constraint types.
    pub max_active_orders: usize,
    /// Maximum occupied limit prices independently on each side.
    pub max_price_levels_per_side: usize,
    /// Maximum accepted, never-reusable order identifiers.
    pub max_accepted_order_ids: usize,
    /// Maximum simultaneously retained uncross preparations/results.
    pub max_prepared_uncrosses: usize,
}

/// Invalid bounded call-auction resource policy.
#[derive(Clone, Copy, Debug, PartialEq, Eq, Structural)]
pub enum CallAuctionBookLimitsError {
    /// Active-order maximum is zero.
    ZeroActiveOrders,
    /// Per-side limit-price maximum is zero.
    ZeroPriceLevels,
    /// Accepted-order-identifier maximum is zero.
    ZeroAcceptedOrderIds,
    /// Prepared-uncross lease maximum is zero.
    ZeroPreparedUncrosses,
    /// More price levels per side than total active orders were configured.
    PriceLevelsExceedActiveOrders,
    /// Active-order capacity exceeds accepted-identifier capacity.
    ActiveOrdersExceedAcceptedOrderIds,
}

/// Validated finite resource policy for one call-auction collection book.
#[derive(Clone, Copy, Debug, PartialEq, Eq, Structural)]
pub struct CallAuctionBookLimits {
    /// Maximum simultaneous active orders.
    pub active_orders: usize,
    /// Maximum occupied limit prices independently on each side.
    pub price_levels_per_side: usize,
    /// Maximum accepted, never-reusable order identifiers.
    pub accepted_order_ids: usize,
    /// Maximum simultaneous prepared or retained uncrosses.
    pub prepared_uncrosses: usize,
}

/// The first reason why a resource policy is refused.
pub open spec fn book_limits_fault(spec: CallAuctionBookLimitsSpec) -> Option<
    CallAuctionBookLimitsError,
> {
    if spec.max_active_orders == 0 {
        Some(CallAuctionBookLimitsError::ZeroActiveOrders)
    } else if spec.max_price_levels_per_side == 0 {
        Some(CallAuctionBookLimitsError::ZeroPriceLevels)
    } else if spec.max_accepted_order_ids == 0 {
        Some(CallAuctionBookLimitsError::ZeroAcceptedOrderIds)
    } else if spec.max_prepared_uncrosses == 0 {
        Some(CallAuctionBookLimitsError::ZeroPreparedUncrosses)
    } else if spec.max_price_levels_per_side > spec.max_active_orders {
        Some(CallAuctionBookLimitsError::PriceLevelsExceedActiveOrders)
    } else if spec.max_active_orders > spec.max_accepted_order_ids {
        Some(CallAuctionBookLimitsError::ActiveOrdersExceedAcceptedOrderIds)
    } else {
        None
    }
}

impl CallAuctionBookLimits {
    /// Default maximum simultaneous active orders.
    pub const DEFAULT_MAX_ACTIVE_ORDERS: usize = 4_096;

    /// Default maximum occupied limit prices independently on each side.
    pub const DEFAULT_MAX_PRICE_LEVELS_PER_SIDE: usize = 4_096;

    /// Default maximum accepted, never-reusable order identifiers.
    pub const DEFAULT_MAX_ACCEPTED_ORDER_IDS: usize = 65_536;

    /// Default maximum simultaneous prepared or externally retained uncrosses.
    pub const DEFAULT_MAX_PREPARED_UNCROSSES: usize = 2;

    /// Every bound is positive and the bounds are coherent.
    pub open spec fn wf(self) -> bool {
        &&& 0 < self.price_levels_per_side <= self.active_orders <= self.accepted_order_ids
        &&& 0 < self.prepared_uncrosses
    }

    /// Validates one finite resource policy.
    pub fn new(spec: CallAuctionBookLimitsSpec) -> (r: Result<Self, CallAuctionBookLimitsError>)
        ensures
            match r {
                Ok(limits) => {
                    &&& book_limits_fault(spec) is None
                    &&& limits.wf()
                    &&& limits == (CallAuctionBookLimits {
                        active_orders: spec.max_active_orders,
                        price_levels_per_side: spec.max_price_levels_per_side,
                        accepted_order_ids: spec.max_accepted_order_ids,
                        prepared_uncrosses: spec.max_prepared_uncrosses,
                    })
                },
                Err(error) => book_limits_fault(spec) == Some(error),
            },
    {
        if spec.max_active_orders == 0 {
            return Err(CallAuctionBookLimitsError::ZeroActiveOrders);
        }
        if spec.max_price_levels_per_side == 0 {
            return Err(CallAuctionBookLimitsError::ZeroPriceLevels);
        }
        if spec.max_accepted_order_ids == 0 {
            return Err(CallAuctionBookLimitsError::ZeroAcceptedOrderIds);
        }
        if spec.max_prepared_uncrosses == 0 {
            return Err(CallAuctionBookLimitsError::ZeroPreparedUncrosses);
        }
        if spec.max_price_levels_per_side > spec.max_active_orders {
            return Err(CallAuctionBookLimitsError::PriceLevelsExceedActiveOrders);
        }
        if spec.max_active_orders > spec.max_accepted_order_ids {
            return Err(CallAuctionBookLimitsError::ActiveOrdersExceedAcceptedOrderIds);
        }
        Ok(
            CallAuctionBookLimits {
                active_orders: spec.max_active_orders,
                price_levels_per_side: spec.max_price_levels_per_side,
                accepted_order_ids: spec.max_accepted_order_ids,
                prepared_uncrosses: spec.max_prepared_uncrosses,
            },
        )
    }

    /// Maximum simultaneous active orders.
    pub fn max_active_orders(self) -> (r: usize)
        ensures
            r == self.active_orders,
    {
        self.active_orders
    }

    /// Maximum occupied limit prices independently on each side.
    pub fn max_price_levels_per_side(self) -> (r: usize)
        ensures
            r == self.price_levels_per_side,
    {
        self.price_levels_per_side
    }

    /// Maximum accepted, never-reusable order identifiers.
    pub fn max_accepted_order_ids(self) -> (r: usize)
        ensures
            r == self.accepted_order_ids,
    {
        self.accepted_order_ids
    }

    /// Maximum simultaneous prepared or externally retained uncrosses.
    pub fn max_prepared_uncrosses(self) -> (r: usize)
        ensures
            r == self.prepared_uncrosses,
    {
        self.prepared_uncrosses
    }
}

impl Default for CallAuctionBookLimits {
    fn default() -> (r: Self)
        ensures
            r.wf(),
            r.active_orders == 4_096,
            r.price_levels_per_side == 4_096,
            r.accepted_order_ids == 65_536,
            r.prepared_uncrosses == 2,
    {
        CallAuctionBookLimits {
            active_orders: Self::DEFAULT_MAX_ACTIVE_ORDERS,
            price_levels_per_side: Self::DEFAULT_MAX_PRICE_LEVELS_PER_SIDE,
            accepted_order_ids: Self::DEFAULT_MAX_ACCEPTED_ORDER_IDS,
            prepared_uncrosses: Self::DEFAULT_MAX_PREPARED_UNCROSSES,
        }
    }
}

/// A constructor-reserved call-auction resource.
#[derive(Clone, Copy, Debug, PartialEq, Eq, Structural)]
pub enum CallAuctionCapacity {
    /// Active order-identity index.
    ActiveOrders,
    /// Account-to-active-order index.
    ActiveAccounts,
    /// Never-reusable accepted-order-identity index.
    AcceptedOrderIds,
    /// Bid limit-price index.
    BidPriceLevels,
    /// Ask limit-price index.
    AskPriceLevels,
    /// Canonical aggregate bid scratch.
    BidLevelScratch,
    /// Canonical aggregate ask scratch.
    AskLevelScratch,
    /// Canonical buy order scratch.
    BuyOrderScratch,
    /// Canonical sell order scratch.
    SellOrderScratch,
    /// Buy-fill vectors for prepared uncrosses.
    UncrossBuyFills,
    /// Sell-fill vectors for prepared uncrosses.
    UncrossSellFills,
    /// Counterparty-pair vectors.
    UncrossTrades,
    /// Unexecuted-remainder cancellation vectors.
    UncrossCancellations,
    /// Pool of simultaneously leased uncross buffer sets.
    PreparedUncrosses,
}

/// Failure while constructing a call-auction collection book.
#[derive(Clone, Copy, Debug, PartialEq, Eq, Structural)]
pub enum CallAuctionConstructionError {
    /// One complete bounded allocation could not be reserved.
    CapacityReservationFailed(CallAuctionCapacity),
    /// Instrument price metadata could not form an auction grid and band.
    InvalidInstrumentPriceConfiguration(AuctionError),
    /// Collection-book identity was exhausted.
    BookInstanceIdExhausted,
}

/// One order submitted to a single-instrument call-auction collection shard.
#[derive(Clone, Copy, Debug, PartialEq, Eq, Structural)]
pub struct CallAuctionOrder {
    /// Order identifier.
    pub order_id: OrderId,
    /// Owner account.
    pub account_id: AccountId,
    /// Routed instrument.
    pub instrument_id: InstrumentId,
    /// Immutable instrument version.
    pub instrument_version: InstrumentVersion,
    /// Economic side.
    pub side: Side,
    /// Market or limit constraint.
    pub constraint: AuctionOrderConstraint,
    /// Quantity.
    pub quantity: Quantity,
    /// Within-price execution-priority tier.
    pub priority_class: AuctionPriorityClass,
}

impl CallAuctionOrder {
    /// Constructs one already domain-validated auction order request.
    pub fn new(
        order_id: OrderId,
        account_id: AccountId,
        instrument_id: InstrumentId,
        instrument_version: InstrumentVersion,
        side: Side,
        constraint: AuctionOrderConstraint,
        quantity: Quantity,
        priority_class: AuctionPriorityClass,
    ) -> (r: Self)
        ensures
            r == (CallAuctionOrder {
                order_id,
                account_id,
                instrument_id,
                instrument_version,
                side,
                constraint,
                quantity,
                priority_class,
            }),
    {
        CallAuctionOrder {
            order_id,
            account_id,
            instrument_id,
            instrument_version,
            side,
            constraint,
            quantity,
            priority_class,
        }
    }

    /// Returns the order identifier.
    pub fn order_id(self) -> (r: OrderId)
        ensures
            r == self.order_id,
    {
        self.order_id
    }

    /// Returns the owner account.
    pub fn account_id(self) -> (r: AccountId)
        ensures
            r == self.account_id,
    {
        self.account_id
    }

    /// Returns the routed instrument.
    pub fn instrument_id(self) -> (r: InstrumentId)
        ensures
            r == self.instrument_id,
    {
        self.instrument_id
    }

    /// Returns the immutable instrument version.
    pub fn instrument_version(self) -> (r: InstrumentVersion)
        ensures
            r == self.instrument_version,
    {
        self.instrument_version
    }

    /// Returns the economic side.
    pub fn side(self) -> (r: Side)
        ensures
            r == self.side,
    {
        self.side
    }

    /// Returns the market or limit constraint.
    pub fn constraint(self) -> (r: AuctionOrderConstraint)
        ensures
            r == self.constraint,
    {
        self.constraint
    }

    /// Returns the positive quantity in instrument-defined lots.
    pub fn quantity(self) -> (r: Quantity)
        ensures
            r == self.quantity,
    {
        self.quantity
    }

    /// Returns the authoritative within-price execution-priority tier.
    pub fn priority_class(self) -> (r: AuctionPriorityClass)
        ensures
            r == self.priority_class,
    {
        self.priority_class
    }
}

/// Visible immutable state of one active call-auction order.
#[derive(Clone, Copy, Debug, PartialEq, Eq, Structural)]
pub struct CallAuctionOrderSnapshot {
    /// Order identifier.
    pub order_id: OrderId,
    /// Owner account.
    pub account_id: AccountId,
    /// Side.
    pub side: Side,
    /// Market or limit constraint.
    pub constraint: AuctionOrderConstraint,
    /// Active quantity.
    pub quantity: Quantity,
    /// Authoritative within-price execution-priority tier.
    pub priority_class: AuctionPriorityClass,
    /// Shard-assigned strict time-priority sequence.
    pub priority_sequence: u64,
}

impl CallAuctionOrderSnapshot {
    /// The order as auction allocation sees it.
    pub open spec fn auction_order(self) -> AuctionOrder {
        AuctionOrder {
            order_id: self.order_id,
            constraint: self.constraint,
            quantity: self.quantity,
            priority_class: self.priority_class,
            priority_sequence: self.priority_sequence,
        }
    }
}

/// One anonymized aggregate limit-price level in a call-auction collection book.
#[derive(Clone, Copy, Debug, PartialEq, Eq, Structural)]
pub struct CallAuctionLevelSnapshot {
    /// Book side.
    pub side: Side,
    /// Limit price.
    pub price: Price,
    /// Aggregate active lots.
    pub quantity: u128,
    /// Active orders at this price.
    pub order_count: u64,
}

impl CallAuctionLevelSnapshot {
    /// Creates a level unless it is empty.
    pub(crate) fn from_parts(side: Side, price: Price, quantity: u128, order_count: u64) -> (r:
        Option<Self>)
        ensures
            r == (if quantity == 0 || order_count == 0 {
                None
            } else {
                Some(CallAuctionLevelSnapshot { side, price, quantity, order_count })
            }),
    {
        if quantity == 0 || order_count == 0 {
            None
        } else {
            Some(CallAuctionLevelSnapshot { side, price, quantity, order_count })
        }
    }

    /// Returns the book side.
    pub fn side(self) -> (r: Side)
        ensures
            r == self.side,
    {
        self.side
    }

    /// Returns the limit price in instrument-defined quanta.
    pub fn price(self) -> (r: Price)
        ensures
            r == self.price,
    {
        self.price
    }

    /// Returns aggregate active quantity in instrument-defined lots.
    pub fn quantity(self) -> (r: u128)
        ensures
            r == self.quantity,
    {
        self.quantity
    }

    /// Returns the number of active orders at this price.
    pub fn order_count(self) -> (r: u64)
        ensures
            r == self.order_count,
    {
        self.order_count
    }
}

/// Admission failure for one call-auction order.
#[derive(Clone, Copy, Debug, PartialEq, Eq, Structural)]
pub enum CallAuctionAdmissionError {
    /// Routing, version, price, or quantity violated immutable instrument rules.
    Instrument(AdmissionError),
    /// The identifier was previously accepted and is never reusable.
    DuplicateOrderId,
    /// One configured finite resource had no remaining semantic capacity.
    CapacityExceeded(CallAuctionCapacity),
    /// The internal strict time-priority sequence was exhausted.
    PrioritySequenceExhausted,
    /// The mutation revision was exhausted.
    StateRevisionExhausted,
    /// A maintained aggregate exceeded its representation.
    AggregateQuantityOverflow(Side),
}

/// Cancellation failure for one active call-auction order.
#[derive(Clone, Copy, Debug, PartialEq, Eq, Structural)]
pub enum CallAuctionCancelError {
    /// No active order had the supplied identifier.
    UnknownOrder,
    /// The supplied account did not own the active order.
    AccountMismatch,
    /// The mutation revision was exhausted.
    StateRevisionExhausted,
}

/// Retained-priority quantity-reduction failure for one active order.
#[derive(Clone, Copy, Debug, PartialEq, Eq, Structural)]
pub enum CallAuctionAmendError {
    /// No active order had the supplied identifier.
    UnknownOrder,
    /// The supplied account did not own the active order.
    AccountMismatch,
    /// The proposed leaves quantity violated immutable instrument rules.
    Instrument(AdmissionError),
    /// The proposed quantity was equal to or greater than active leaves.
    QuantityNotReduced,
    /// The mutation revision was exhausted.
    StateRevisionExhausted,
}

/// One retained-priority active-quantity reduction.
#[derive(Clone, Copy, Debug, PartialEq, Eq, Structural)]
pub struct CallAuctionAmendment {
    /// State before the reduction.
    pub previous: CallAuctionOrderSnapshot,
    /// State after the reduction.
    pub current: CallAuctionOrderSnapshot,
    /// Book revision after the reduction.
    pub state_revision: u64,
}

impl CallAuctionAmendment {
    /// Returns the complete active state before the reduction.
    pub fn previous(self) -> (r: CallAuctionOrderSnapshot)
        ensures
            r == self.previous,
    {
        self.previous
    }

    /// Returns the complete active state after the reduction.
    pub fn current(self) -> (r: CallAuctionOrderSnapshot)
        ensures
            r == self.current,
    {
        self.current
    }

    /// Returns the collection-book revision after the reduction.
    pub fn state_revision(self) -> (r: u64)
        ensures
            r == self.state_revision,
    {
        self.state_revision
    }
}

/// Failure while selecting or applying one account-scoped mass cancel.
#[derive(Clone, Copy, Debug, PartialEq, Eq, Structural)]
pub enum CallAuctionMassCancelError {
    /// The caller-owned output must be empty on entry.
    OutputNotEmpty,
    /// The caller-owned output cannot hold the complete atomic selection.
    OutputCapacityExceeded {
        /// Required snapshot slots.
        required: usize,
        /// Currently allocated snapshot slots.
        available: usize,
    },
    /// The mutation revision was exhausted for a non-empty selection.
    StateRevisionExhausted,
    /// A redundant account index contradicted active order state.
    InternalInvariantViolation,
}

/// Preflighted aggregate effect of one account-scoped call-auction mass cancel.
#[derive(Clone, Copy, Debug, PartialEq, Eq, Structural)]
pub struct CallAuctionMassCancelResult {
    /// Selected active orders.
    pub cancelled_order_count: u64,
    /// Sum of selected lots.
    pub cancelled_quantity_lots: u128,
    /// Book revision after the command is applied.
    pub state_revision: u64,
}

impl CallAuctionMassCancelResult {
    /// Number of selected active orders.
    pub fn cancelled_order_count(self) -> (r: u64)
        ensures
            r == self.cancelled_order_count,
    {
        self.cancelled_order_count
    }

    /// Sum of selected active quantity in instrument-defined lots.
    pub fn cancelled_quantity_lots(self) -> (r: u128)
        ensures
            r == self.cancelled_quantity_lots,
    {
        self.cancelled_quantity_lots
    }

    /// Collection-book revision after the command is applied.
    pub fn state_revision(self) -> (r: u64)
        ensures
            r == self.state_revision,
    {
        self.state_revision
    }
}

/// Atomic cancel/replace failure for one active call-auction order.
#[derive(Clone, Copy, Debug, PartialEq, Eq, Structural)]
pub enum CallAuctionReplaceError {
    /// The active target or its authorizing account failed cancellation checks.
    Target(CallAuctionCancelError),
    /// The replacement order names a different account than the authorizing owner.
    ReplacementAccountMismatch,
    /// The new order failed immutable admission or finite-capacity checks.
    Replacement(CallAuctionAdmissionError),
}

/// One atomically removed target and newly admitted replacement.
#[derive(Clone, Copy, Debug, PartialEq, Eq, Structural)]
pub struct CallAuctionReplacement {
    /// Removed target state.
    pub cancelled: CallAuctionOrderSnapshot,
    /// Newly admitted state.
    pub accepted: CallAuctionOrderSnapshot,
}

impl CallAuctionReplacement {
    /// Returns the complete removed target state.
    pub fn cancelled(self) -> (r: CallAuctionOrderSnapshot)
        ensures
            r == self.cancelled,
    {
        self.cancelled
    }

    /// Returns the complete newly admitted state with fresh time priority.
    pub fn accepted(self) -> (r: CallAuctionOrderSnapshot)
        ensures
            r == self.accepted,
    {
        self.accepted
    }
}

/// One indicative clearing result bound to an exact collection-book revision.
#[derive(Clone, Copy, Debug, PartialEq, Eq, Structural)]
pub struct CallAuctionIndicative {
    /// Identity of the observed book.
    pub book_instance_id: u64,
    /// Observed book revision.
    pub state_revision: u64,
    /// Aggregate clearing state.
    pub clearing: AuctionClearing,
}

impl CallAuctionIndicative {
    /// Returns the analytical aggregate clearing state.
    pub fn clearing(self) -> (r: AuctionClearing)
        ensures
            r == self.clearing,
    {
        self.clearing
    }

    /// Returns the exact book revision observed by discovery.
    pub fn state_revision(self) -> (r: u64)
        ensures
            r == self.state_revision,
    {
        self.state_revision
    }
}

/// Failure while converting an indicative result into an allocation plan.
#[derive(Clone, Copy, Debug, PartialEq, Eq, Structural)]
pub enum CallAuctionPlanError {
    /// The result originated from another book instance.
    ForeignBook,
    /// Active interest changed after indicative discovery.
    StaleRevision {
        /// Revision carried by the result.
        observed: u64,
        /// Current collection-book revision.
        current: u64,
    },
    /// The analytical allocator rejected current canonical interest or failed reservation.
    Allocation(AuctionAllocationError),
}

/// Treatment of positive active quantity remaining after one uncross.
#[derive(Clone, Copy, Debug, PartialEq, Eq, Structural)]
pub enum CallAuctionRemainderPolicy {
    /// Retain all market and limit remainder for a later externally controlled phase.
    RetainAll,
    /// Cancel market remainder while retaining limit remainder at existing priority.
    CancelMarket,
    /// Cancel every positive unexecuted remainder.
    CancelAll,
}

impl CallAuctionRemainderPolicy {
    /// Whether the remainder of an order with this constraint is canceled.
    pub open spec fn drops(self, constraint: AuctionOrderConstraint) -> bool {
        match self {
            CallAuctionRemainderPolicy::RetainAll => false,
            CallAuctionRemainderPolicy::CancelMarket => constraint
                == AuctionOrderConstraint::Market,
            CallAuctionRemainderPolicy::CancelAll => true,
        }
    }

    /// Returns whether the remainder of an order with this constraint is canceled.
    pub(crate) fn cancels(self, constraint: AuctionOrderConstraint) -> (r: bool)
        ensures
            r == self.drops(constraint),
    {
        match self {
            CallAuctionRemainderPolicy::RetainAll => false,
            CallAuctionRemainderPolicy::CancelMarket => match constraint {
                AuctionOrderConstraint::Market => true,
                AuctionOrderConstraint::Limit(_) => false,
            },
            CallAuctionRemainderPolicy::CancelAll => true,
        }
    }
}

/// Counterparty self-trade treatment during deterministic auction pairing.
#[derive(Clone, Copy, Debug, PartialEq, Eq, Structural)]
pub enum CallAuctionSelfTradePolicy {
    /// Permit a pair whose buy and sell accounts are identical.
    Permit,
    /// Abort the complete uncross at the first canonical same-account pair.
    Abort,
}

/// Explicit policy applied by one atomic call-auction uncross.
#[derive(Clone, Copy, Debug, PartialEq, Eq, Structural)]
pub struct CallAuctionUncrossPolicy {
    /// Order-level allocation treatment.
    pub allocation: AuctionAllocationPolicy,
    /// Unexecuted-remainder treatment.
    pub remainder: CallAuctionRemainderPolicy,
    /// Counterparty self-trade treatment.
    pub self_trade: CallAuctionSelfTradePolicy,
}

impl CallAuctionUncrossPolicy {
    /// Creates an explicit uncross policy.
    pub fn new(
        allocation: AuctionAllocationPolicy,
        remainder: CallAuctionRemainderPolicy,
        self_trade: CallAuctionSelfTradePolicy,
    ) -> (r: Self)
        ensures
            r == (CallAuctionUncrossPolicy { allocation, remainder, self_trade }),
    {
        CallAuctionUncrossPolicy { allocation, remainder, self_trade }
    }

    /// Returns the order-level allocation treatment.
    pub fn allocation(self) -> (r: AuctionAllocationPolicy)
        ensures
            r == self.allocation,
    {
        self.allocation
    }

    /// Returns the unexecuted-remainder treatment.
    pub fn remainder(self) -> (r: CallAuctionRemainderPolicy)
        ensures
            r == self.remainder,
    {
        self.remainder
    }

    /// Returns the counterparty self-trade treatment.
    pub fn self_trade(self) -> (r: CallAuctionSelfTradePolicy)
        ensures
            r == self.self_trade,
    {
        self.self_trade
    }
}

/// One deterministic buyer/seller pair at the common auction clearing price.
#[derive(Clone, Copy, Debug, PartialEq, Eq, Structural)]
pub struct CallAuctionTrade {
    /// Book-local trade identifier.
    pub trade_id: TradeId,
    /// Settled instrument.
    pub instrument_id: InstrumentId,
    /// Settled instrument version.
    pub instrument_version: InstrumentVersion,
    /// Allocated buy order.
    pub buy_order_id: OrderId,
    /// Buyer account.
    pub buy_account_id: AccountId,
    /// Allocated sell order.
    pub sell_order_id: OrderId,
    /// Seller account.
    pub sell_account_id: AccountId,
    /// Common clearing price.
    pub price: Price,
    /// Paired quantity.
    pub quantity: Quantity,
}

/// Orders and accounts of both sides of one trade.
#[derive(Clone, Copy, Debug, PartialEq, Eq, Structural)]
pub struct CallAuctionTradeParticipants {
    /// Allocated buy order.
    pub buy_order: OrderId,
    /// Buyer account.
    pub buy_account: AccountId,
    /// Allocated sell order.
    pub sell_order: OrderId,
    /// Seller account.
    pub sell_account: AccountId,
}

impl CallAuctionTrade {
    /// Assembles a trade, unless both sides are the same order.
    pub fn from_decoded(
        trade_id: TradeId,
        instrument_id: InstrumentId,
        instrument_version: InstrumentVersion,
        participants: CallAuctionTradeParticipants,
        price: Price,
        quantity: Quantity,
    ) -> (r: Option<Self>)
        ensures
            r == (if participants.buy_order == participants.sell_order {
                None
            } else {
                Some(
                    CallAuctionTrade {
                        trade_id,
                        instrument_id,
                        instrument_version,
                        buy_order_id: participants.buy_order,
                        buy_account_id: participants.buy_account,
                        sell_order_id: participants.sell_order,
                        sell_account_id: participants.sell_account,
                        price,
                        quantity,
                    },
                )
            }),
    {
        if participants.buy_order == participants.sell_order {
            return None;
        }
        Some(
            CallAuctionTrade {
                trade_id,
                instrument_id,
                instrument_version,
                buy_order_id: participants.buy_order,
                buy_account_id: participants.buy_account,
                sell_order_id: participants.sell_order,
                sell_account_id: participants.sell_account,
                price,
                quantity,
            },
        )
    }

    /// Returns the book-local monotonic trade identifier.
    pub fn trade_id(self) -> (r: TradeId)
        ensures
            r == self.trade_id,
    {
        self.trade_id
    }

    /// Returns the immutable instrument identifier settled by this trade.
    pub fn instrument_id(self) -> (r: InstrumentId)
        ensures
            r == self.instrument_id,
    {
        self.instrument_id
    }

    /// Returns the immutable instrument-definition version used by the uncross.
    pub fn instrument_version(self) -> (r: InstrumentVersion)
        ensures
            r == self.instrument_version,
    {
        self.instrument_version
    }

    /// Returns the allocated buy order.
    pub fn buy_order_id(self) -> (r: OrderId)
        ensures
            r == self.buy_order_id,
    {
        self.buy_order_id
    }

    /// Returns the buyer account.
    pub fn buy_account_id(self) -> (r: AccountId)
        ensures
            r == self.buy_account_id,
    {
        self.buy_account_id
    }

    /// Returns the allocated sell order.
    pub fn sell_order_id(self) -> (r: OrderId)
        ensures
            r == self.sell_order_id,
    {
        self.sell_order_id
    }

    /// Returns the seller account.
    pub fn sell_account_id(self) -> (r: AccountId)
        ensures
            r == self.sell_account_id,
    {
        self.sell_account_id
    }

    /// Returns the common clearing price in instrument-defined quanta.
    pub fn price(self) -> (r: Price)
        ensures
            r == self.price,
    {
        self.price
    }

    /// Returns the positive paired quantity in instrument-defined lots.
    pub fn quantity(self) -> (r: Quantity)
        ensures
            r == self.quantity,
    {
        self.quantity
    }
}

/// One positive post-allocation remainder canceled by uncross policy.
#[derive(Clone, Copy, Debug, PartialEq, Eq, Structural)]
pub struct CallAuctionCancellation {
    /// Canceled order.
    pub order_id: OrderId,
    /// Owner account.
    pub account_id: AccountId,
    /// Order side.
    pub side: Side,
    /// Market or limit constraint.
    pub constraint: AuctionOrderConstraint,
    /// Unexecuted quantity.
    pub quantity: Quantity,
    /// Lots executed before cancellation.
    pub executed_quantity_lots: u64,
}

impl CallAuctionCancellation {
    /// Assembles a cancellation.
    pub fn from_decoded(
        order_id: OrderId,
        account_id: AccountId,
        side: Side,
        constraint: AuctionOrderConstraint,
        quantity: Quantity,
        executed_quantity_lots: u64,
    ) -> (r: Self)
        ensures
            r == (CallAuctionCancellation {
                order_id,
                account_id,
                side,
                constraint,
                quantity,
                executed_quantity_lots,
            }),
    {
        CallAuctionCancellation {
            order_id,
            account_id,
            side,
            constraint,
            quantity,
            executed_quantity_lots,
        }
    }

    /// Returns the canceled order identifier.
    pub fn order_id(self) -> (r: OrderId)
        ensures
            r == self.order_id,
    {
        self.order_id
    }

    /// Returns the owner account.
    pub fn account_id(self) -> (r: AccountId)
        ensures
            r == self.account_id,
    {
        self.account_id
    }

    /// Returns the order side.
    pub fn side(self) -> (r: Side)
        ensures
            r == self.side,
    {
        self.side
    }

    /// Returns the order's market or limit constraint.
    pub fn constraint(self) -> (r: AuctionOrderConstraint)
        ensures
            r == self.constraint,
    {
        self.constraint
    }

    /// Returns positive unexecuted quantity canceled after allocation.
    pub fn quantity(self) -> (r: Quantity)
        ensures
            r == self.quantity,
    {
        self.quantity
    }

    /// Returns quantity executed from the source order before cancellation.
    pub fn executed_quantity_lots(self) -> (r: u64)
        ensures
            r == self.executed_quantity_lots,
    {
        self.executed_quantity_lots
    }
}

/// Failure while fully preparing an allocation, pairing, and remainder plan.
#[derive(Clone, Copy, Debug, PartialEq, Eq, Structural)]
pub enum CallAuctionPrepareError {
    /// Indicative result or analytical allocation failed validation.
    Plan(CallAuctionPlanError),
    /// Book-local trade identifier space cannot represent the complete pairing.
    TradeIdentifierExhausted,
    /// Collection mutation revision cannot represent the atomic commit.
    StateRevisionExhausted,
    /// Every uncross buffer set is currently leased.
    PreparationCapacityExhausted {
        /// Configured simultaneous lease maximum.
        maximum: usize,
    },
    /// Canonical pairing reached equal buyer and seller account identities.
    SelfTradeWouldOccur {
        /// Account present on both sides of the pair.
        account_id: AccountId,
        /// Canonically selected buy order.
        buy_order_id: OrderId,
        /// Canonically selected sell order.
        sell_order_id: OrderId,
        /// Positive quantity the pair would execute.
        quantity: Quantity,
    },
    /// Private collection state contradicted its validated analytical plan.
    InternalInvariantViolation,
}

/// Failure while committing a previously complete uncross preparation.
#[derive(Clone, Copy, Debug, PartialEq, Eq, Structural)]
pub enum CallAuctionCommitError {
    /// Preparation belongs to another collection book.
    ForeignPreparation,
    /// Active collection state changed after preparation.
    StalePreparation {
        /// Revision carried by the preparation.
        observed: u64,
        /// Current book revision.
        current: u64,
    },
    /// Private state contradicted a same-instance, same-revision preparation.
    InternalInvariantViolation,
}

/// Allocation telemetry for one call-auction collection book.
#[derive(Clone, Copy, Debug, PartialEq, Eq, Structural)]
pub struct CallAuctionResourceStatus {
    /// Configured active-order maximum.
    pub configured_active_orders: usize,
    /// Reserved active-order slots.
    pub allocated_active_orders: usize,
    /// Currently active orders.
    pub active_orders: usize,
    /// Maximum active accounts implied by the active-order bound.
    pub configured_active_accounts: usize,
    /// Reserved active-account entries.
    pub allocated_active_accounts: usize,
    /// Accounts currently owning at least one active order.
    pub active_accounts: usize,
    /// Configured accepted-identifier maximum.
    pub configured_accepted_order_ids: usize,
    /// Reserved accepted-identifier slots.
    pub allocated_accepted_order_ids: usize,
    /// Accepted identifiers retained, including canceled orders.
    pub accepted_order_ids: usize,
    /// Reserved bid price slots.
    pub allocated_bid_price_levels: usize,
    /// Reserved ask price slots.
    pub allocated_ask_price_levels: usize,
    /// Occupied bid prices.
    pub bid_price_levels: usize,
    /// Occupied ask prices.
    pub ask_price_levels: usize,
    /// Aggregate-bid scratch capacity.
    pub bid_level_scratch: usize,
    /// Aggregate-ask scratch capacity.
    pub ask_level_scratch: usize,
    /// Canonical buy-order scratch capacity.
    pub buy_order_scratch: usize,
    /// Canonical sell-order scratch capacity.
    pub sell_order_scratch: usize,
    /// Configured simultaneous uncross preparation/result leases.
    pub configured_prepared_uncrosses: usize,
    /// Unleased uncross buffer sets.
    pub available_prepared_uncrosses: usize,
    /// Fill capacity per side in each leased buffer set.
    pub uncross_fill_capacity_per_side: usize,
    /// Trade capacity in each leased buffer set.
    pub uncross_trade_capacity: usize,
    /// Cancellation capacity in each leased buffer set.
    pub uncross_cancellation_capacity: usize,
}

/// Structural corruption detected by an offline call-auction audit.
#[derive(Clone, Debug, PartialEq, Eq)]
pub struct CallAuctionInvariantViolation {
    /// Stable diagnostic description.
    pub detail: String,
}

impl CallAuctionInvariantViolation {
    pub(crate) fn new(detail: &'static str) -> (r: Self)
        ensures
            r.detail@ == detail@,
    {
        CallAuctionInvariantViolation { detail: String::from_str(detail) }
    }

    /// Returns a stable diagnostic description.
    pub fn detail(&self) -> (r: &str)
        ensures
            r@ == self.detail@,
    {
        self.detail.as_str()
    }
}

/// Caller-owned output constructed by one read-only call-auction book query.
#[derive(Clone, Copy, Debug, PartialEq, Eq, Structural)]
pub enum CallAuctionBookQueryResource {
    /// Canonically ordered active-order identifiers for one account.
    AccountOrderIds,
}

/// Failure while constructing caller-owned read-only call-auction book output.
#[derive(Clone, Debug, PartialEq, Eq)]
pub enum CallAuctionBookQueryError {
    /// The complete bounded output vector could not be reserved.
    ReservationFailed {
        /// Output whose reservation failed.
        resource: CallAuctionBookQueryResource,
        /// Maximum number of output entries required by the query.
        maximum: usize,
    },
    /// Private account or active-order state contradicted its invariants.
    InvariantViolation(CallAuctionInvariantViolation),
}

} // verus!
