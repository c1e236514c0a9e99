//! Public call-auction market data: levels, updates, batches and snapshots.
//!
//! Each private auction-engine event maps to one public update at the identical
//! event sequence. Absolute aggregates permit gap recovery without exposing
//! order or account identity.

use vstd::prelude::*;

use crate::auction::{AuctionClearing, AuctionOrderConstraint};
use crate::book_types::CallAuctionBookLimits;
use crate::domain::{
    AuctionId, InstrumentId, InstrumentVersion, Price, Quantity, Side, TimestampNs, TradeId,
};
use crate::engine_types::{CallAuctionEngineLimits, CallAuctionPhase, CallAuctionPhaseSnapshot};

verus! {

/// One finite call-auction market-data state or preparation resource.
#[derive(Clone, Copy, Debug, PartialEq, Eq, Structural)]
pub enum CallAuctionMarketDataResource {
    /// Active order identities mirrored by a publisher.
    TrackedOrders,
    /// Occupied bid limit prices.
    BidPriceLevels,
    /// Occupied ask limit prices.
    AskPriceLevels,
    /// Updates emitted or consumed by one command batch.
    BatchUpdates,
    /// Source-order quantities retained while validating one uncross.
    UncrossSourceOrders,
    /// Unique limit-level identities used for nonmutating replica preflight.
    BatchLevelIdentities,
}

/// Raw construction values for bounded call-auction public state.
#[derive(Clone, Copy, Debug, PartialEq, Eq, Structural)]
pub struct CallAuctionMarketDataLimitsSpec {
    /// Maximum active orders mirrored by a publisher.
    pub max_active_orders: usize,
    /// Maximum occupied limit prices independently on each side.
    pub max_price_levels_per_side: usize,
    /// Maximum updates in one auction-command publication batch.
    pub max_batch_updates: usize,
}

impl Default for CallAuctionMarketDataLimitsSpec {
    fn default() -> (r: Self)
        ensures
            r == (CallAuctionMarketDataLimitsSpec {
                max_active_orders: 4_096,
                max_price_levels_per_side: 4_096,
                max_batch_updates: 8_193,
            }),
    {
        CallAuctionMarketDataLimitsSpec {
            max_active_orders: CallAuctionBookLimits::DEFAULT_MAX_ACTIVE_ORDERS,
            max_price_levels_per_side: CallAuctionBookLimits::DEFAULT_MAX_PRICE_LEVELS_PER_SIDE,
            max_batch_updates: CallAuctionBookLimits::DEFAULT_MAX_ACTIVE_ORDERS * 2 + 1,
        }
    }
}

/// Invalid finite call-auction market-data policy.
#[derive(Clone, Copy, Debug, PartialEq, Eq, Structural)]
pub enum CallAuctionMarketDataLimitsError {
    /// Active-order maximum is zero.
    ZeroActiveOrders,
    /// Per-side limit-price maximum is zero.
    ZeroPriceLevels,
    /// Per-batch update maximum is zero.
    ZeroBatchUpdates,
    /// More prices per side than total active orders were configured.
    PriceLevelsExceedActiveOrders,
    /// One maximum-size uncross report cannot fit in a publication batch.
    BatchUpdatesBelowUncrossMaximum,
    /// A derived maximum cannot be represented by `usize`.
    DerivedBoundOverflow,
}

/// Validated immutable finite resource policy for call-auction public state.
#[derive(Clone, Copy, Debug, PartialEq, Eq, Structural)]
pub struct CallAuctionMarketDataLimits {
    /// Maximum active orders mirrored by a publisher.
    pub max_active_orders: usize,
    /// Maximum occupied limit prices independently on each side.
    pub max_price_levels_per_side: usize,
    /// Maximum updates in one command batch.
    pub max_batch_updates: usize,
}

/// The first reason why a policy is refused.
pub open spec fn market_data_limits_fault(spec: CallAuctionMarketDataLimitsSpec) -> Option<
    CallAuctionMarketDataLimitsError,
> {
    if spec.max_active_orders == 0 {
        Some(CallAuctionMarketDataLimitsError::ZeroActiveOrders)
    } else if spec.max_price_levels_per_side == 0 {
        Some(CallAuctionMarketDataLimitsError::ZeroPriceLevels)
    } else if spec.max_batch_updates == 0 {
        Some(CallAuctionMarketDataLimitsError::ZeroBatchUpdates)
    } else if spec.max_price_levels_per_side > spec.max_active_orders {
        Some(CallAuctionMarketDataLimitsError::PriceLevelsExceedActiveOrders)
    } else if spec.max_active_orders * 2 + 1 > usize::MAX {
        Some(CallAuctionMarketDataLimitsError::DerivedBoundOverflow)
    } else if spec.max_batch_updates < spec.max_active_orders * 2 + 1 {
        Some(CallAuctionMarketDataLimitsError::BatchUpdatesBelowUncrossMaximum)
    } else {
        None
    }
}

impl CallAuctionMarketDataLimits {
    /// The bounds are positive and coherent.
    pub open spec fn wf(self) -> bool {
        &&& 0 < self.max_price_levels_per_side <= self.max_active_orders
        &&& self.max_active_orders * 2 + 1 <= self.max_batch_updates
    }

    /// Validates one call-auction public-state resource policy.
    pub fn new(spec: CallAuctionMarketDataLimitsSpec) -> (r: Result<
        Self,
        CallAuctionMarketDataLimitsError,
    >)
        ensures
            match r {
                Ok(limits) => {
                    &&& market_data_limits_fault(spec) is None
                    &&& limits.wf()
                    &&& limits == (CallAuctionMarketDataLimits {
                        max_active_orders: spec.max_active_orders,
                        max_price_levels_per_side: spec.max_price_levels_per_side,
                        max_batch_updates: spec.max_batch_updates,
                    })
                },
                Err(error) => market_data_limits_fault(spec) == Some(error),
            },
    {
        if spec.max_active_orders == 0 {
            return Err(CallAuctionMarketDataLimitsError::ZeroActiveOrders);
        }
        if spec.max_price_levels_per_side == 0 {
            return Err(CallAuctionMarketDataLimitsError::ZeroPriceLevels);
        }
        if spec.max_batch_updates == 0 {
            return Err(CallAuctionMarketDataLimitsError::ZeroBatchUpdates);
        }
        if spec.max_price_levels_per_side > spec.max_active_orders {
            return Err(CallAuctionMarketDataLimitsError::PriceLevelsExceedActiveOrders);
        }
        let doubled: usize = match spec.max_active_orders.checked_mul(2) {
            Some(value) => value,
            None => {
                return Err(CallAuctionMarketDataLimitsError::DerivedBoundOverflow);
            },
        };
        let maximum_uncross_updates: usize = match doubled.checked_add(1) {
            Some(value) => value,
            None => {
                return Err(CallAuctionMarketDataLimitsError::DerivedBoundOverflow);
            },
        };
        if spec.max_batch_updates < maximum_uncross_updates {
            return Err(CallAuctionMarketDataLimitsError::BatchUpdatesBelowUncrossMaximum);
        }
        Ok(
            CallAuctionMarketDataLimits {
                max_active_orders: spec.max_active_orders,
                max_price_levels_per_side: spec.max_price_levels_per_side,
                max_batch_updates: spec.max_batch_updates,
            },
        )
    }

    /// Derives the exact public-state envelope of one sequenced auction shard.
    #[must_use]
    pub fn from_engine(limits: CallAuctionEngineLimits) -> (r: Self)
        ensures
            r == (CallAuctionMarketDataLimits {
                max_active_orders: limits.book.active_orders,
                max_price_levels_per_side: limits.book.price_levels_per_side,
                max_batch_updates: limits.report_events,
            }),
            limits.wf() ==> r.wf(),
    {
        CallAuctionMarketDataLimits {
            max_active_orders: limits.book().max_active_orders(),
            max_price_levels_per_side: limits.book().max_price_levels_per_side(),
            max_batch_updates: limits.max_report_events(),
        }
    }

    /// Maximum publisher-mirrored active orders.
    #[must_use]
    pub fn max_active_orders(self) -> (r: usize)
        ensures
            r == self.max_active_orders,
    {
        self.max_active_orders
    }

    /// Maximum occupied limit prices independently on each side.
    #[must_use]
    pub fn max_price_levels_per_side(self) -> (r: usize)
        ensures
            r == self.max_price_levels_per_side,
    {
        self.max_price_levels_per_side
    }

    /// Maximum updates in one command batch.
    #[must_use]
    pub fn max_batch_updates(self) -> (r: usize)
        ensures
            r == self.max_batch_updates,
    {
        self.max_batch_updates
    }

    /// Returns the corresponding raw specification.
    #[must_use]
    pub fn spec(self) -> (r: CallAuctionMarketDataLimitsSpec)
        ensures
            r == (CallAuctionMarketDataLimitsSpec {
                max_active_orders: self.max_active_orders,
                max_price_levels_per_side: self.max_price_levels_per_side,
                max_batch_updates: self.max_batch_updates,
            }),
    {
        CallAuctionMarketDataLimitsSpec {
            max_active_orders: self.max_active_orders,
            max_price_levels_per_side: self.max_price_levels_per_side,
            max_batch_updates: self.max_batch_updates,
        }
    }
}

impl Default for CallAuctionMarketDataLimits {
    fn default() -> (r: Self)
        ensures
            r.wf(),
            r == (CallAuctionMarketDataLimits {
                max_active_orders: 4_096,
                max_price_levels_per_side: 4_096,
                max_batch_updates: 8_193,
            }),
    {
        CallAuctionMarketDataLimits {
            max_active_orders: CallAuctionBookLimits::DEFAULT_MAX_ACTIVE_ORDERS,
            max_price_levels_per_side: CallAuctionBookLimits::DEFAULT_MAX_PRICE_LEVELS_PER_SIDE,
            max_batch_updates: CallAuctionBookLimits::DEFAULT_MAX_ACTIVE_ORDERS * 2 + 1,
        }
    }
}

/// Failure before a call-auction publisher or replica owns usable state.
#[derive(Clone, Copy, Debug, PartialEq, Eq)]
pub enum CallAuctionMarketDataConstructionError {
    /// The selected finite policy is invalid.
    InvalidLimits(CallAuctionMarketDataLimitsError),
    /// A publisher envelope is smaller than its authoritative engine.
    LimitsBelowSource {
        /// Insufficient resource.
        resource: CallAuctionMarketDataResource,
        /// Selected maximum.
        selected: usize,
        /// Required source maximum.
        required: usize,
    },
    /// Complete constructor-owned storage could not be reserved.
    ReservationFailed {
        /// Resource whose layout could not be represented or allocated.
        resource: CallAuctionMarketDataResource,
        /// Requested semantic maximum.
        maximum: usize,
    },
    /// The source engine failed bootstrap validation.
    Source(CallAuctionMarketDataError),
}

impl CallAuctionMarketDataError {
    /// An invalid update with a given description.
    pub open spec fn refutes_update(self, detail: Seq<char>) -> bool {
        self matches CallAuctionMarketDataError::InvalidUpdate(found) && found@ == detail
    }

    /// An invalid snapshot with a given description.
    pub open spec fn refutes_snapshot(self, detail: Seq<char>) -> bool {
        self matches CallAuctionMarketDataError::InvalidSnapshot(found) && found@ == detail
    }

    /// A trace mismatch with a given description.
    pub open spec fn mismatches(self, detail: Seq<char>) -> bool {
        self matches CallAuctionMarketDataError::TraceMismatch(found) && found@ == detail
    }

    /// A divergence with a given description.
    pub open spec fn diverges(self, detail: Seq<char>) -> bool {
        self matches CallAuctionMarketDataError::SourceDivergence(found) && found@ == detail
    }
}

/// Publication, validation, or replica-recovery failure.
#[derive(Clone, Copy, Debug, PartialEq, Eq)]
pub enum CallAuctionMarketDataError {
    /// A value belongs to another instrument.
    WrongInstrument,
    /// A value belongs to another immutable instrument version.
    WrongInstrumentVersion,
    /// A source sequence was missing, duplicated, or reordered.
    SequenceGap {
        /// Required next sequence.
        expected: u64,
        /// Received sequence.
        actual: u64,
    },
    /// A committed-command sequence was missing, duplicated, or reordered.
    CommandSequenceGap {
        /// Required next sequence.
        expected: u64,
        /// Received sequence.
        actual: u64,
    },
    /// A snapshot predates the replica state it would replace.
    StaleSnapshot {
        /// Current event sequence.
        current: u64,
        /// Snapshot event boundary.
        snapshot: u64,
    },
    /// A full-depth image violated a structural invariant.
    InvalidSnapshot(&'static str),
    /// An incremental update violated a structural invariant.
    InvalidUpdate(&'static str),
    /// A private report contradicted its command or event grammar.
    TraceMismatch(&'static str),
    /// Published aggregate state differed from the authoritative engine.
    SourceDivergence(&'static str),
    /// Checked aggregate or sequence arithmetic overflowed.
    ArithmeticOverflow,
    /// A finite state or batch cardinality would exceed its selected maximum.
    CapacityExceeded {
        /// Exhausted resource.
        resource: CallAuctionMarketDataResource,
        /// Selected maximum.
        maximum: usize,
        /// Cardinality the operation attempted to establish.
        attempted: usize,
    },
    /// Caller-owned batch, snapshot, or depth output could not be reserved.
    PreparationAllocationFailed(CallAuctionMarketDataResource),
    /// A previous partial publication or replica failure requires a snapshot.
    Poisoned,
}

/// Publisher/replica bounded index identifier.
#[derive(Clone, Copy, Debug, PartialEq, Eq, Structural)]
pub enum CallAuctionMarketDataHashIndex {
    /// Publisher active-order mirror.
    TrackedOrders,
    /// Publisher uncross-source scratch.
    PublisherUncrossSources,
    /// Replica batch level-capacity scratch.
    ReplicaBatchLevels,
}

/// Allocation and occupancy telemetry for one bounded index.
#[derive(Clone, Copy, Debug, PartialEq, Eq, Structural)]
pub struct CallAuctionMarketDataHashIndexStatus {
    /// Configured semantic maximum.
    pub configured_entries: usize,
    /// Reserved entries.
    pub allocated_entries: usize,
    /// Current occupied entries.
    pub occupied_entries: usize,
}

/// Allocation and occupancy telemetry for one limit-depth index.
#[derive(Clone, Copy, Debug, PartialEq, Eq, Structural)]
pub struct CallAuctionMarketDataArenaStatus {
    /// Configured semantic slot maximum.
    pub configured_slots: usize,
    /// Reserved slots.
    pub allocated_slots: usize,
    /// Slots initialized at least once.
    pub initialized_slots: usize,
    /// Currently occupied slots.
    pub occupied_slots: usize,
    /// Initialized vacant slots available for immediate reuse.
    pub reusable_slots: usize,
}

/// Absolute public state for one market or limit constraint on one side.
#[derive(Clone, Copy, Debug, PartialEq, Eq, Structural)]
pub struct CallAuctionMarketDataLevel {
    /// Book side.
    pub side: Side,
    /// Market or limit constraint.
    pub constraint: AuctionOrderConstraint,
    /// Aggregate active lots.
    pub quantity: u128,
    /// Active orders.
    pub order_count: u64,
}

/// How a level whose quantity and order count disagree is described.
pub open spec fn level_shape_text() -> Seq<char> {
    "auction level quantity and order count must be zero or non-zero together"@
}

impl CallAuctionMarketDataLevel {
    /// Quantity and order count are zero together.
    pub open spec fn shaped(self) -> bool {
        self.quantity == 0 <==> self.order_count == 0
    }

    /// Creates a level whose quantity and order count agree.
    pub fn from_parts(
        side: Side,
        constraint: AuctionOrderConstraint,
        quantity: u128,
        order_count: u64,
    ) -> (r: Result<Self, CallAuctionMarketDataError>)
        ensures
            ({
                let level = CallAuctionMarketDataLevel { side, constraint, quantity, order_count };
                match r {
                    Ok(made) => made == level && level.shaped(),
                    Err(error) => !level.shaped() && error.refutes_update(level_shape_text()),
                }
            }),
    {
        if (quantity == 0) != (order_count == 0) {
            return Err(
                CallAuctionMarketDataError::InvalidUpdate(
                    "auction level quantity and order count must be zero or non-zero together",
                ),
            );
        }
        Ok(CallAuctionMarketDataLevel { side, constraint, quantity, order_count })
    }

    /// Returns the book side.
    #[must_use]
    pub fn side(self) -> (r: Side)
        ensures
            r == self.side,
    {
        self.side
    }

    /// Returns the market or limit constraint represented by this aggregate.
    #[must_use]
    pub fn constraint(self) -> (r: AuctionOrderConstraint)
        ensures
            r == self.constraint,
    {
        self.constraint
    }

    /// Returns aggregate active quantity in instrument-defined lots.
    #[must_use]
    pub fn quantity(self) -> (r: u128)
        ensures
            r == self.quantity,
    {
        self.quantity
    }

    /// Returns the number of active orders represented by the aggregate.
    #[must_use]
    pub fn order_count(self) -> (r: u64)
        ensures
            r == self.order_count,
    {
        self.order_count
    }
}

/// Public reason for one aggregate collection-book transition.
#[derive(Clone, Copy, Debug, PartialEq, Eq, Structural)]
pub enum CallAuctionBookChangeReason {
    /// New interest was accepted during collection.
    Accepted,
    /// Active interest was removed by its owner.
    UserCancelled,
    /// Active interest was removed before accepting its new identity.
    Replaced,
    /// Active interest was removed by an account-scoped mass cancel.
    MassCancelled,
    /// Active quantity was reduced without changing its order count.
    Amended,
    /// Unexecuted interest was removed by the final uncross policy.
    UncrossRemainder,
}

/// An anonymized execution at the common auction clearing price.
#[derive(Clone, Copy, Debug, PartialEq, Eq, Structural)]
pub struct CallAuctionTradePrint {
    /// Producing cycle.
    pub auction_id: AuctionId,
    /// Book-local trade identifier.
    pub trade_id: TradeId,
    /// Common clearing price.
    pub price: Price,
    /// Executed lots.
    pub quantity: Quantity,
}

impl CallAuctionTradePrint {
    /// Creates a print.
    pub fn from_parts(auction_id: AuctionId, trade_id: TradeId, price: Price, quantity: Quantity) -> (r:
        Self)
        ensures
            r == (CallAuctionTradePrint { auction_id, trade_id, price, quantity }),
    {
        CallAuctionTradePrint { auction_id, trade_id, price, quantity }
    }

    /// Returns the auction cycle that produced the execution.
    #[must_use]
    pub fn auction_id(self) -> (r: AuctionId)
        ensures
            r == self.auction_id,
    {
        self.auction_id
    }

    /// Returns the book-local monotonic trade identifier.
    #[must_use]
    pub fn trade_id(self) -> (r: TradeId)
        ensures
            r == self.trade_id,
    {
        self.trade_id
    }

    /// Returns the common clearing price in instrument-defined quanta.
    #[must_use]
    pub fn price(self) -> (r: Price)
        ensures
            r == self.price,
    {
        self.price
    }

    /// Returns executed quantity in instrument-defined lots.
    #[must_use]
    pub fn quantity(self) -> (r: Quantity)
        ensures
            r == self.quantity,
    {
        self.quantity
    }
}

/// One public update corresponding to exactly one auction-engine event.
#[derive(Clone, Copy, Debug, PartialEq, Eq, Structural)]
pub enum CallAuctionMarketDataKind {
    /// The source sequence advanced without a public state change.
    NoPublicChange,
    /// One market or limit aggregate changed absolutely.
    Book {
        /// Why collection state changed.
        reason: CallAuctionBookChangeReason,
        /// Positive quantity added or removed by this source event.
        quantity: Quantity,
        /// Absolute state after the transition; zero means delete.
        level: CallAuctionMarketDataLevel,
    },
    /// One pair executed and both affected side aggregates changed atomically.
    Trade {
        /// Anonymized execution.
        print: CallAuctionTradePrint,
        /// Absolute buy-side aggregate after this pair.
        buy: CallAuctionMarketDataLevel,
        /// Absolute sell-side aggregate after this pair.
        sell: CallAuctionMarketDataLevel,
    },
    /// Effective phase authority changed.
    PhaseChanged {
        /// Controlled cycle.
        auction_id: AuctionId,
        /// Previous phase.
        previous: CallAuctionPhase,
        /// Current phase.
        current: CallAuctionPhase,
        /// Newly committed phase revision.
        revision: u64,
    },
    /// One final uncross closed its cycle.
    UncrossCompleted {
        /// Closed cycle.
        auction_id: AuctionId,
        /// Final aggregate clearing state.
        clearing: AuctionClearing,
        /// Number of anonymized pair prints.
        trade_count: u64,
        /// Number of policy-driven remainder removals.
        cancellation_count: u64,
        /// Authoritative collection-book revision after consumption.
        book_revision: u64,
        /// Authoritative phase revision after closure.
        phase_revision: u64,
    },
    /// One account-scoped mass cancellation completed.
    MassCancelCompleted {
        /// Number of anonymized order removals in this command batch.
        cancelled_order_count: u64,
        /// Sum of removed quantity in instrument-defined lots.
        cancelled_quantity_lots: u128,
        /// Authoritative collection-book revision after the command.
        book_revision: u64,
    },
}

/// A payload that can occur at a sequence.
pub open spec fn kind_feasible(sequence: u64, kind: CallAuctionMarketDataKind) -> bool {
    match kind {
        CallAuctionMarketDataKind::NoPublicChange => true,
        CallAuctionMarketDataKind::Book { level, .. } => level.shaped(),
        CallAuctionMarketDataKind::Trade { print, buy, sell } => {
            &&& buy.shaped() && sell.shaped()
            &&& print.trade_id.value <= sequence
            &&& buy.side == Side::Buy && sell.side == Side::Sell
        },
        CallAuctionMarketDataKind::PhaseChanged { previous, current, revision, .. } => previous
            != current && 0 < revision <= sequence,
        CallAuctionMarketDataKind::UncrossCompleted {
            clearing,
            trade_count,
            book_revision,
            phase_revision,
            ..
        } => clearing.executable_quantity > 0 && trade_count > 0 && book_revision > 0 && 0
            < phase_revision <= sequence,
        CallAuctionMarketDataKind::MassCancelCompleted {
            cancelled_order_count,
            cancelled_quantity_lots,
            book_revision,
        } => (cancelled_order_count == 0 <==> cancelled_quantity_lots == 0) && book_revision
            <= sequence,
    }
}

/// How a payload that cannot occur at its sequence is described.
pub open spec fn kind_text(kind: CallAuctionMarketDataKind) -> Seq<char> {
    match kind {
        CallAuctionMarketDataKind::Trade { buy, sell, .. } => if buy.shaped() && sell.shaped() {
            "auction trade print has an infeasible identifier or side update"@
        } else {
            "auction level quantity and order count disagree"@
        },
        CallAuctionMarketDataKind::PhaseChanged { .. } => {
            "auction phase update is unchanged or has an infeasible revision"@
        },
        CallAuctionMarketDataKind::UncrossCompleted { .. } => {
            "auction completion contains an infeasible clearing or revision"@
        },
        CallAuctionMarketDataKind::MassCancelCompleted { .. } => {
            "auction mass-cancel completion contains inconsistent totals or revision"@
        },
        _ => "auction level quantity and order count disagree"@,
    }
}

fn validate_level_shape(level: CallAuctionMarketDataLevel) -> (r: Result<
    (),
    CallAuctionMarketDataError,
>)
    ensures
        match r {
            Ok(_) => level.shaped(),
            Err(error) => !level.shaped() && error.refutes_update(
                "auction level quantity and order count disagree"@,
            ),
        },
{
    if (level.quantity == 0) != (level.order_count == 0) {
        return Err(
            CallAuctionMarketDataError::InvalidUpdate(
                "auction level quantity and order count disagree",
            ),
        );
    }
    Ok(())
}

/// Checks that a payload can occur at a sequence.
pub(crate) fn validate_update_kind(sequence: u64, kind: CallAuctionMarketDataKind) -> (r: Result<
    (),
    CallAuctionMarketDataError,
>)
    ensures
        match r {
            Ok(_) => kind_feasible(sequence, kind),
            Err(error) => !kind_feasible(sequence, kind) && error.refutes_update(
                kind_text(kind),
            ),
        },
{
    match kind {
        CallAuctionMarketDataKind::NoPublicChange => Ok(()),
        CallAuctionMarketDataKind::Book { level, .. } => validate_level_shape(level),
        CallAuctionMarketDataKind::Trade { print, buy, sell } => {
            if let Err(error) = validate_level_shape(buy) {
                return Err(error);
            }
            if let Err(error) = validate_level_shape(sell) {
                return Err(error);
            }
            if print.trade_id.value > sequence || buy.side != Side::Buy || sell.side
                != Side::Sell {
                return Err(
                    CallAuctionMarketDataError::InvalidUpdate(
                        "auction trade print has an infeasible identifier or side update",
                    ),
                );
            }
            Ok(())
        },
        CallAuctionMarketDataKind::PhaseChanged { previous, current, revision, .. } => {
            if previous == current || revision == 0 || revision > sequence {
                return Err(
                    CallAuctionMarketDataError::InvalidUpdate(
                        "auction phase update is unchanged or has an infeasible revision",
                    ),
                );
            }
            Ok(())
        },
        CallAuctionMarketDataKind::UncrossCompleted {
            clearing,
            trade_count,
            book_revision,
            phase_revision,
            ..
        } => {
            if clearing.executable_quantity == 0 || trade_count == 0 || book_revision == 0
                || phase_revision == 0 || phase_revision > sequence {
                return Err(
                    CallAuctionMarketDataError::InvalidUpdate(
                        "auction completion contains an infeasible clearing or revision",
                    ),
                );
            }
            Ok(())
        },
        CallAuctionMarketDataKind::MassCancelCompleted {
            cancelled_order_count,
            cancelled_quantity_lots,
            book_revision,
        } => {
            if (cancelled_order_count == 0) != (cancelled_quantity_lots == 0) || book_revision
                > sequence {
                return Err(
                    CallAuctionMarketDataError::InvalidUpdate(
                        "auction mass-cancel completion contains inconsistent totals or revision",
                    ),
                );
            }
            Ok(())
        },
    }
}

/// One source-sequenced public call-auction update.
#[derive(Clone, Copy, Debug, PartialEq, Eq, Structural)]
pub struct CallAuctionMarketDataUpdate {
    /// Instrument identity.
    pub instrument_id: InstrumentId,
    /// Immutable instrument version.
    pub instrument_version: InstrumentVersion,
    /// Auction-engine event sequence.
    pub sequence: u64,
    /// Source event time.
    pub occurred_at: TimestampNs,
    /// Public payload.
    pub kind: CallAuctionMarketDataKind,
}

impl CallAuctionMarketDataUpdate {
    /// Creates an update whose payload can occur at its sequence.
    pub fn from_parts(
        instrument_id: InstrumentId,
        instrument_version: InstrumentVersion,
        sequence: u64,
        occurred_at: TimestampNs,
        kind: CallAuctionMarketDataKind,
    ) -> (r: Result<Self, CallAuctionMarketDataError>)
        ensures
            match r {
                Ok(update) => {
                    &&& sequence > 0
                    &&& kind_feasible(sequence, kind)
                    &&& update == (CallAuctionMarketDataUpdate {
                        instrument_id,
                        instrument_version,
                        sequence,
                        occurred_at,
                        kind,
                    })
                },
                Err(error) => if sequence == 0 {
                    error.refutes_update("auction market-data sequence must be non-zero"@)
                } else {
                    !kind_feasible(sequence, kind) && error.refutes_update(kind_text(kind))
                },
            },
    {
        if sequence == 0 {
            return Err(
                CallAuctionMarketDataError::InvalidUpdate(
                    "auction market-data sequence must be non-zero",
                ),
            );
        }
        match validate_update_kind(sequence, kind) {
            Ok(()) => Ok(
                CallAuctionMarketDataUpdate {
                    instrument_id,
                    instrument_version,
                    sequence,
                    occurred_at,
                    kind,
                },
            ),
            Err(error) => Err(error),
        }
    }

    /// Returns the instrument identifier.
    #[must_use]
    pub fn instrument_id(self) -> (r: InstrumentId)
        ensures
            r == self.instrument_id,
    {
        self.instrument_id
    }

    /// Returns the immutable instrument version.
    #[must_use]
    pub fn instrument_version(self) -> (r: InstrumentVersion)
        ensures
            r == self.instrument_version,
    {
        self.instrument_version
    }

    /// Returns the auction-engine event sequence.
    #[must_use]
    pub fn sequence(self) -> (r: u64)
        ensures
            r == self.sequence,
    {
        self.sequence
    }

    /// Returns the source event timestamp.
    #[must_use]
    pub fn occurred_at(self) -> (r: TimestampNs)
        ensures
            r == self.occurred_at,
    {
        self.occurred_at
    }

    /// Returns the public payload.
    #[must_use]
    pub fn kind(self) -> (r: CallAuctionMarketDataKind)
        ensures
            r == self.kind,
    {
        self.kind
    }
}

/// A contiguous public result for one auction command.
#[derive(Clone, Debug, PartialEq, Eq)]
pub struct CallAuctionMarketDataBatch {
    /// Updates in ascending contiguous source-event order.
    pub updates: Vec<CallAuctionMarketDataUpdate>,
    /// Whether an exact source-command retry was suppressed.
    pub replayed: bool,
}

impl CallAuctionMarketDataBatch {
    /// Returns updates in ascending contiguous source-event order.
    #[must_use]
    pub fn updates(&self) -> (r: &[CallAuctionMarketDataUpdate])
        ensures
            r@ == self.updates@,
    {
        self.updates.as_slice()
    }

    /// Returns whether an exact source-command retry was suppressed.
    #[must_use]
    pub fn replayed(&self) -> (r: bool)
        ensures
            r == self.replayed,
    {
        self.replayed
    }

    /// Returns the first source sequence, if present.
    #[must_use]
    pub fn first_sequence(&self) -> (r: Option<u64>)
        ensures
            r == (if self.updates@.len() == 0 {
                None
            } else {
                Some(self.updates@[0].sequence)
            }),
    {
        if self.updates.len() == 0 {
            None
        } else {
            Some(self.updates[0].sequence)
        }
    }

    /// Returns the final source sequence, if present.
    #[must_use]
    pub fn last_sequence(&self) -> (r: Option<u64>)
        ensures
            r == (if self.updates@.len() == 0 {
                None
            } else {
                Some(self.updates@.last().sequence)
            }),
    {
        if self.updates.len() == 0 {
            None
        } else {
            Some(self.updates[self.updates.len() - 1].sequence)
        }
    }
}

/// A complete public call-auction state image at one event boundary.
#[derive(Clone, Debug, PartialEq, Eq)]
pub struct CallAuctionMarketDataSnapshot {
    /// Instrument identity.
    pub instrument_id: InstrumentId,
    /// Immutable instrument version.
    pub instrument_version: InstrumentVersion,
    /// Last reflected event sequence.
    pub as_of_sequence: u64,
    /// Last reflected committed-command sequence.
    pub command_sequence: u64,
    /// Phase and cycle state.
    pub phase: CallAuctionPhaseSnapshot,
    /// Collection-book revision.
    pub book_revision: u64,
    /// Final reflected trade.
    pub last_trade_id: Option<TradeId>,
    /// Market-constrained buy interest.
    pub market_buy: CallAuctionMarketDataLevel,
    /// Market-constrained sell interest.
    pub market_sell: CallAuctionMarketDataLevel,
    /// Limit bids from best to worst.
    pub bids: Vec<CallAuctionMarketDataLevel>,
    /// Limit asks from best to worst.
    pub asks: Vec<CallAuctionMarketDataLevel>,
}

/// A phase, its cycle and its revision agree with a sequence boundary.
pub open spec fn phase_feasible(phase: CallAuctionPhaseSnapshot, sequence: u64) -> bool {
    &&& phase.revision <= sequence
    &&& phase.coherent()
    &&& phase.revision == 0 ==> phase == CallAuctionPhaseSnapshot::genesis()
}

/// What is said of a phase that disagrees with its sequence boundary.
pub open spec fn phase_text() -> Seq<char> {
    "auction snapshot phase, cycle, revision, and command boundary disagree"@
}

/// Checks that a phase, its cycle and its revision agree with a sequence boundary.
pub(crate) fn validate_phase_snapshot(phase: CallAuctionPhaseSnapshot, sequence: u64) -> (r: Result<
    (),
    CallAuctionMarketDataError,
>)
    ensures
        match r {
            Ok(_) => phase_feasible(phase, sequence),
            Err(error) => !phase_feasible(phase, sequence) && error.refutes_snapshot(phase_text()),
        },
{
    let closed: bool = phase.phase == CallAuctionPhase::Closed;
    let foreign: bool = match phase.active_auction_id {
        Some(active) => phase.last_auction_id != Some(active),
        None => false,
    };
    if phase.revision > sequence || closed != phase.active_auction_id.is_none() || foreign || (
    phase.revision == 0 && (!closed || phase.active_auction_id.is_some()
        || phase.last_auction_id.is_some())) {
        return Err(
            CallAuctionMarketDataError::InvalidSnapshot(
                "auction snapshot phase, cycle, revision, and command boundary disagree",
            ),
        );
    }
    Ok(())
}

/// Limit price of a level.
pub open spec fn level_price(level: CallAuctionMarketDataLevel) -> Price {
    match level.constraint {
        AuctionOrderConstraint::Limit(price) => price,
        AuctionOrderConstraint::Market => Price { raw: 0 },
    }
}

/// Occupied limit levels of one side, from best to worst.
pub open spec fn depth_ordered(side: Side, levels: Seq<CallAuctionMarketDataLevel>) -> bool {
    &&& forall|i: int|
        0 <= i < levels.len() ==> {
            &&& (#[trigger] levels[i]).constraint is Limit
            &&& levels[i].side == side
            &&& levels[i].quantity > 0
            &&& levels[i].order_count > 0
        }
    &&& forall|i: int, j: int|
        0 <= i < j < levels.len() ==> match side {
            Side::Buy => level_price(#[trigger] levels[i]).raw > level_price(
                #[trigger] levels[j],
            ).raw,
            Side::Sell => level_price(levels[i]).raw < level_price(levels[j]).raw,
        }
}

/// A level is before another in the order of its side.
pub open spec fn ranks_before(
    side: Side,
    left: CallAuctionMarketDataLevel,
    right: CallAuctionMarketDataLevel,
) -> bool {
    match side {
        Side::Buy => level_price(left).raw > level_price(right).raw,
        Side::Sell => level_price(left).raw < level_price(right).raw,
    }
}

/// The first contradiction among the levels of one side from `index` on.
pub open spec fn side_fault(
    side: Side,
    levels: Seq<CallAuctionMarketDataLevel>,
    index: int,
) -> Option<Seq<char>>
    decreases levels.len() - index,
{
    if index < 0 || index >= levels.len() {
        None
    } else if !(levels[index].constraint is Limit) {
        Some("auction limit-depth image contains market interest"@)
    } else if levels[index].side != side || levels[index].quantity == 0
        || levels[index].order_count == 0 {
        Some("auction limit-depth level is empty or on the wrong side"@)
    } else if index > 0 && !ranks_before(side, levels[index - 1], levels[index]) {
        Some("auction limit-depth levels are not strictly market ordered"@)
    } else {
        side_fault(side, levels, index + 1)
    }
}

/// What is said of a market aggregate that is not shaped.
pub open spec fn market_text() -> Seq<char> {
    "auction snapshot market aggregate is structurally invalid"@
}

/// A market aggregate of one side.
pub open spec fn market_shaped(side: Side, level: CallAuctionMarketDataLevel) -> bool {
    &&& level.side == side
    &&& level.constraint == AuctionOrderConstraint::Market
    &&& level.shaped()
}

fn validate_snapshot_market(side: Side, level: CallAuctionMarketDataLevel) -> (r: Result<
    (),
    CallAuctionMarketDataError,
>)
    ensures
        match r {
            Ok(_) => market_shaped(side, level),
            Err(error) => !market_shaped(side, level) && error.refutes_snapshot(market_text()),
        },
{
    if level.side != side || level.constraint != AuctionOrderConstraint::Market || (level.quantity
        == 0) != (level.order_count == 0) {
        return Err(
            CallAuctionMarketDataError::InvalidSnapshot(
                "auction snapshot market aggregate is structurally invalid",
            ),
        );
    }
    Ok(())
}

fn validate_snapshot_side(side: Side, levels: &[CallAuctionMarketDataLevel]) -> (r: Result<
    (),
    CallAuctionMarketDataError,
>)
    ensures
        match r {
            Ok(_) => depth_ordered(side, levels@) && side_fault(side, levels@, 0) is None,
            Err(error) => !depth_ordered(side, levels@) && (side_fault(
                side,
                levels@,
                0,
            ) matches Some(detail) && error.refutes_snapshot(detail)),
        },
{
    let mut previous: Option<Price> = None;
    let mut index: usize = 0;
    while index < levels.len()
        invariant
            index <= levels@.len(),
            side_fault(side, levels@, 0) == side_fault(side, levels@, index as int),
            depth_ordered(side, levels@.take(index as int)),
            previous == (if index == 0 {
                None
            } else {
                Some(level_price(levels@[index - 1]))
            }),
        decreases levels@.len() - index,
    {
        let level = levels[index];
        let ghost seen = levels@.take(index as int);
        proof {
            assert(levels@[index as int] == level);
        }
        let price = match level.constraint {
            AuctionOrderConstraint::Limit(price) => price,
            AuctionOrderConstraint::Market => {
                return Err(
                    CallAuctionMarketDataError::InvalidSnapshot(
                        "auction limit-depth image contains market interest",
                    ),
                );
            },
        };
        if level.side != side || level.quantity == 0 || level.order_count == 0 {
            return Err(
                CallAuctionMarketDataError::InvalidSnapshot(
                    "auction limit-depth level is empty or on the wrong side",
                ),
            );
        }
        if let Some(previous_price) = previous {
            let ordered: bool = match side {
                Side::Buy => previous_price.raw > price.raw,
                Side::Sell => previous_price.raw < price.raw,
            };
            if !ordered {
                proof {
                    if depth_ordered(side, levels@) {
                        let _ = (levels@[index - 1], levels@[index as int]);
                        assert(match side {
                            Side::Buy => level_price(levels@[index - 1]).raw > level_price(
                                levels@[index as int],
                            ).raw,
                            Side::Sell => level_price(levels@[index - 1]).raw < level_price(
                                levels@[index as int],
                            ).raw,
                        });
                    }
                }
                return Err(
                    CallAuctionMarketDataError::InvalidSnapshot(
                        "auction limit-depth levels are not strictly market ordered",
                    ),
                );
            }
        }
        proof {
            let longer = levels@.take((index + 1) as int);
            assert(longer =~= seen.push(level));
            assert forall|i: int, j: int| 0 <= i < j < longer.len() implies (match side {
                Side::Buy => level_price(#[trigger] longer[i]).raw > level_price(
                    #[trigger] longer[j],
                ).raw,
                Side::Sell => level_price(longer[i]).raw < level_price(longer[j]).raw,
            }) by {
                if j < index {
                    let _ = (seen[i], seen[j]);
                    assert(longer[i] == seen[i] && longer[j] == seen[j]);
                } else if i < index - 1 {
                    let _ = (seen[i], seen[index - 1]);
                    assert(longer[i] == seen[i]);
                    assert(levels@[index - 1] == seen[index - 1]);
                    assert(match side {
                        Side::Buy => level_price(seen[i]).raw > level_price(seen[index - 1]).raw,
                        Side::Sell => level_price(seen[i]).raw < level_price(seen[index - 1]).raw,
                    });
                } else {
                    assert(longer[i] == levels@[index - 1]);
                }
            }
            assert forall|i: int| 0 <= i < longer.len() implies {
                &&& (#[trigger] longer[i]).constraint is Limit
                &&& longer[i].side == side
                &&& longer[i].quantity > 0
                &&& longer[i].order_count > 0
            } by {
                if i < index {
                    assert(longer[i] == seen[i]);
                }
            }
        }
        previous = Some(price);
        index += 1;
    }
    proof {
        assert(levels@.take(index as int) =~= levels@);
    }
    Ok(())
}

impl CallAuctionMarketDataSnapshot {
    /// Every component is consistent with the others.
    pub open spec fn valid(&self) -> bool {
        &&& phase_feasible(self.phase, self.command_sequence)
        &&& self.book_revision <= self.command_sequence <= self.as_of_sequence
        &&& self.last_trade_id matches Some(id) ==> id.value <= self.as_of_sequence
        &&& market_shaped(Side::Buy, self.market_buy)
        &&& market_shaped(Side::Sell, self.market_sell)
        &&& depth_ordered(Side::Buy, self.bids@)
        &&& depth_ordered(Side::Sell, self.asks@)
    }

    /// The first component that is not consistent.
    pub open spec fn fault(&self) -> Option<Seq<char>> {
        if !phase_feasible(self.phase, self.command_sequence) {
            Some(phase_text())
        } else if !(self.book_revision <= self.command_sequence <= self.as_of_sequence) {
            Some("auction snapshot event, command, and book revisions are inconsistent"@)
        } else if self.last_trade_id matches Some(id) && id.value > self.as_of_sequence {
            Some("auction trade identifier exceeds the event sequence"@)
        } else if !market_shaped(Side::Buy, self.market_buy) || !market_shaped(
            Side::Sell,
            self.market_sell,
        ) {
            Some(market_text())
        } else if side_fault(Side::Buy, self.bids@, 0) is Some {
            side_fault(Side::Buy, self.bids@, 0)
        } else {
            side_fault(Side::Sell, self.asks@, 0)
        }
    }

    /// Assembles a consistent image.
    pub fn from_parts(
        instrument_id: InstrumentId,
        instrument_version: InstrumentVersion,
        as_of_sequence: u64,
        command_sequence: u64,
        phase: CallAuctionPhaseSnapshot,
        book_revision: u64,
        last_trade_id: Option<TradeId>,
        market_buy: CallAuctionMarketDataLevel,
        market_sell: CallAuctionMarketDataLevel,
        bids: Vec<CallAuctionMarketDataLevel>,
        asks: Vec<CallAuctionMarketDataLevel>,
    ) -> (r: Result<Self, CallAuctionMarketDataError>)
        ensures
            ({
                let whole = CallAuctionMarketDataSnapshot {
                    instrument_id,
                    instrument_version,
                    as_of_sequence,
                    command_sequence,
                    phase,
                    book_revision,
                    last_trade_id,
                    market_buy,
                    market_sell,
                    bids,
                    asks,
                };
                match r {
                    Ok(snapshot) => snapshot == whole && whole.valid(),
                    Err(error) => !whole.valid() && (whole.fault() matches Some(detail)
                        && error.refutes_snapshot(detail)),
                }
            }),
    {
        let snapshot = CallAuctionMarketDataSnapshot {
            instrument_id,
            instrument_version,
            as_of_sequence,
            command_sequence,
            phase,
            book_revision,
            last_trade_id,
            market_buy,
            market_sell,
            bids,
            asks,
        };
        match snapshot.validate() {
            Ok(()) => Ok(snapshot),
            Err(error) => Err(error),
        }
    }

    /// Returns the instrument identifier.
    #[must_use]
    pub fn instrument_id(&self) -> (r: InstrumentId)
        ensures
            r == self.instrument_id,
    {
        self.instrument_id
    }

    /// Returns the immutable instrument version.
    #[must_use]
    pub fn instrument_version(&self) -> (r: InstrumentVersion)
        ensures
            r == self.instrument_version,
    {
        self.instrument_version
    }

    /// Returns the last engine-event sequence reflected by this image.
    #[must_use]
    pub fn as_of_sequence(&self) -> (r: u64)
        ensures
            r == self.as_of_sequence,
    {
        self.as_of_sequence
    }

    /// Returns the last committed-command sequence reflected by this image.
    #[must_use]
    pub fn command_sequence(&self) -> (r: u64)
        ensures
            r == self.command_sequence,
    {
        self.command_sequence
    }

    /// Returns effective phase and cycle identity.
    #[must_use]
    pub fn phase(&self) -> (r: CallAuctionPhaseSnapshot)
        ensures
            r == self.phase,
    {
        self.phase
    }

    /// Returns the authoritative collection-book mutation revision.
    #[must_use]
    pub fn book_revision(&self) -> (r: u64)
        ensures
            r == self.book_revision,
    {
        self.book_revision
    }

    /// Returns the final trade identifier reflected by this image.
    #[must_use]
    pub fn last_trade_id(&self) -> (r: Option<TradeId>)
        ensures
            r == self.last_trade_id,
    {
        self.last_trade_id
    }

    /// Returns absolute market-constrained buy interest.
    #[must_use]
    pub fn market_buy(&self) -> (r: CallAuctionMarketDataLevel)
        ensures
            r == self.market_buy,
    {
        self.market_buy
    }

    /// Returns absolute market-constrained sell interest.
    #[must_use]
    pub fn market_sell(&self) -> (r: CallAuctionMarketDataLevel)
        ensures
            r == self.market_sell,
    {
        self.market_sell
    }

    /// Returns limit bids in best-to-worst order.
    #[must_use]
    pub fn bids(&self) -> (r: &[CallAuctionMarketDataLevel])
        ensures
            r@ == self.bids@,
    {
        self.bids.as_slice()
    }

    /// Returns limit asks in best-to-worst order.
    #[must_use]
    pub fn asks(&self) -> (r: &[CallAuctionMarketDataLevel])
        ensures
            r@ == self.asks@,
    {
        self.asks.as_slice()
    }

    /// Checks every component against the others.
    pub(crate) fn validate(&self) -> (r: Result<(), CallAuctionMarketDataError>)
        ensures
            match r {
                Ok(_) => self.valid() && self.fault() is None,
                Err(error) => !self.valid() && (self.fault() matches Some(detail)
                    && error.refutes_snapshot(detail)),
            },
    {
        if let Err(error) = validate_phase_snapshot(self.phase, self.command_sequence) {
            return Err(error);
        }
        if self.command_sequence > self.as_of_sequence || self.book_revision
            > self.command_sequence {
            return Err(
                CallAuctionMarketDataError::InvalidSnapshot(
                    "auction snapshot event, command, and book revisions are inconsistent",
                ),
            );
        }
        if let Some(trade_id) = self.last_trade_id {
            if trade_id.value > self.as_of_sequence {
                return Err(
                    CallAuctionMarketDataError::InvalidSnapshot(
                        "auction trade identifier exceeds the event sequence",
                    ),
                );
            }
        }
        if let Err(error) = validate_snapshot_market(Side::Buy, self.market_buy) {
            return Err(error);
        }
        if let Err(error) = validate_snapshot_market(Side::Sell, self.market_sell) {
            return Err(error);
        }
        if let Err(error) = validate_snapshot_side(Side::Buy, self.bids.as_slice()) {
            return Err(error);
        }
        validate_snapshot_side(Side::Sell, self.asks.as_slice())
    }
}

} // verus!
