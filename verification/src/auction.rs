//! Deterministic call-auction price discovery.
//!
//! The kernel is independent of order storage and execution. It consumes
//! canonical aggregate bid and ask levels plus optional market quantities,
//! sweeps every constant demand/supply interval within an explicit aligned
//! price band, and selects one clearing price under an explicit tie-break
//! policy. Discovery is `O(B + A)` time and `O(1)` auxiliary space for `B` bid
//! levels and `A` ask levels.

use vstd::prelude::*;

use crate::domain::{OrderId, Price, Quantity, Side};

verus! {

/// Positive raw-price increment defining the valid discrete auction grid.
#[derive(Clone, Copy, Debug, PartialEq, Eq, Structural)]
pub struct AuctionPriceGrid {
    /// Increment as supplied.
    pub tick_size: u64,
    /// The same increment as a signed price difference.
    pub tick_i64: i64,
}

impl AuctionPriceGrid {
    /// The increment is positive and both representations agree.
    pub open spec fn wf(self) -> bool {
        0 < self.tick_i64 && self.tick_size == self.tick_i64
    }

    /// Whether a price is a multiple of the increment.
    pub open spec fn aligned(self, price: Price) -> bool {
        price.raw as int % self.tick_i64 as int == 0
    }

    /// Creates a grid anchored at raw price zero.
    pub fn new(tick_size: u64) -> (r: Result<Self, AuctionError>)
        ensures
            match r {
                Ok(grid) => 0 < tick_size <= i64::MAX && grid.wf() && grid.tick_size == tick_size,
                Err(error) => !(0 < tick_size <= i64::MAX) && error
                    == AuctionError::InvalidTickSize(tick_size),
            },
    {
        if tick_size == 0 || tick_size > 0x7fff_ffff_ffff_ffff {
            return Err(AuctionError::InvalidTickSize(tick_size));
        }
        Ok(AuctionPriceGrid { tick_size, tick_i64: tick_size as i64 })
    }

    /// Returns the positive raw-price increment.
    pub fn tick_size(self) -> (r: u64)
        ensures
            r == self.tick_size,
    {
        self.tick_size
    }

    /// Returns whether a price lies on the zero-anchored grid.
    pub fn contains(self, price: Price) -> (r: bool)
        requires
            self.wf(),
        ensures
            r == self.aligned(price),
    {
        match price.raw.checked_rem_euclid(self.tick_i64) {
            Some(remainder) => remainder == 0,
            None => false,
        }
    }

    pub(crate) fn successor(self, price: Price) -> (r: Option<Price>)
        requires
            self.wf(),
        ensures
            match r {
                Some(next) => next.raw == price.raw + self.tick_i64,
                None => price.raw + self.tick_i64 > i64::MAX,
            },
    {
        match price.raw.checked_add(self.tick_i64) {
            Some(raw) => Some(Price { raw }),
            None => None,
        }
    }

    pub(crate) fn predecessor(self, price: Price) -> (r: Option<Price>)
        requires
            self.wf(),
        ensures
            match r {
                Some(next) => next.raw == price.raw - self.tick_i64,
                None => price.raw - self.tick_i64 < i64::MIN,
            },
    {
        match price.raw.checked_sub(self.tick_i64) {
            Some(raw) => Some(Price { raw }),
            None => None,
        }
    }

    /// Greatest representable grid price.
    fn maximum(self) -> (r: Price)
        requires
            self.wf(),
        ensures
            self.aligned(r),
            i64::MAX - self.tick_i64 < r.raw,
    {
        let remainder: i64 = i64::MAX % self.tick_i64;
        proof {
            lemma_aligned_shift(i64::MAX as int, self.tick_i64 as int, remainder as int);
        }
        Price { raw: i64::MAX - remainder }
    }

    /// Least representable grid price.
    fn minimum(self) -> (r: Price)
        requires
            self.wf(),
        ensures
            self.aligned(r),
            r.raw < i64::MIN + self.tick_i64,
    {
        let remainder: i64 = match i64::MIN.checked_rem_euclid(self.tick_i64) {
            Some(value) => value,
            None => 0,
        };
        proof {
            lemma_aligned_shift(i64::MIN as int, self.tick_i64 as int, remainder as int);
            lemma_grid_step(i64::MIN - remainder, self.tick_i64 as int);
        }
        if remainder == 0 {
            Price { raw: i64::MIN }
        } else {
            Price { raw: i64::MIN + (self.tick_i64 - remainder) }
        }
    }
}

/// Inclusive finite candidate-price domain for market-aware auction discovery.
#[derive(Clone, Copy, Debug, PartialEq, Eq, Structural)]
pub struct AuctionPriceBand {
    /// Inclusive lower candidate price.
    pub minimum: Price,
    /// Inclusive upper candidate price.
    pub maximum: Price,
}

impl AuctionPriceBand {
    /// Whether a price lies between the two endpoints.
    pub open spec fn covers(self, price: Price) -> bool {
        self.minimum.raw <= price.raw <= self.maximum.raw
    }

    /// Creates an ordered band whose endpoints lie on `grid`.
    pub fn new(grid: AuctionPriceGrid, minimum: Price, maximum: Price) -> (r: Result<
        Self,
        AuctionError,
    >)
        requires
            grid.wf(),
        ensures
            match r {
                Ok(band) => band_fault(grid, minimum, maximum) is None && band == (
                AuctionPriceBand { minimum, maximum }),
                Err(error) => band_fault(grid, minimum, maximum) == Some(error),
            },
    {
        match validate_price_band(grid, minimum, maximum) {
            Err(error) => Err(error),
            Ok(()) => Ok(AuctionPriceBand { minimum, maximum }),
        }
    }

    /// Returns the complete representable domain of one grid.
    pub fn full(grid: AuctionPriceGrid) -> (r: Self)
        requires
            grid.wf(),
        ensures
            band_fault(grid, r.minimum, r.maximum) is None,
            forall|price: Price| grid.aligned(price) ==> r.covers(price),
    {
        let minimum = grid.minimum();
        let maximum = grid.maximum();
        proof {
            assert forall|price: Price| grid.aligned(price) implies minimum.raw <= price.raw
                <= maximum.raw by {
                lemma_grid_gap(minimum.raw as int, price.raw as int, grid.tick_i64 as int);
                lemma_grid_gap(price.raw as int, maximum.raw as int, grid.tick_i64 as int);
            }
            let zero = Price { raw: 0 };
            vstd::arithmetic::div_mod::lemma_small_mod(0, grid.tick_i64 as nat);
            assert(grid.aligned(zero));
        }
        AuctionPriceBand { minimum, maximum }
    }

    /// Returns the inclusive lower candidate price.
    pub fn minimum(self) -> (r: Price)
        ensures
            r == self.minimum,
    {
        self.minimum
    }

    /// Returns the inclusive upper candidate price.
    pub fn maximum(self) -> (r: Price)
        ensures
            r == self.maximum,
    {
        self.maximum
    }

    /// Creates a band from two ordered prices, whatever their alignment.
    pub fn from_ordered_prices(minimum: Price, maximum: Price) -> (r: Option<Self>)
        ensures
            r == (if minimum.raw <= maximum.raw {
                Some(AuctionPriceBand { minimum, maximum })
            } else {
                None
            }),
    {
        if minimum.raw <= maximum.raw {
            Some(AuctionPriceBand { minimum, maximum })
        } else {
            None
        }
    }
}

/// Market-constrained quantities that remain eligible across an entire price band.
#[derive(Clone, Copy, Debug, PartialEq, Eq, Structural)]
pub struct AuctionMarketInterest {
    /// Market-constrained buy lots.
    pub buy_quantity: u128,
    /// Market-constrained sell lots.
    pub sell_quantity: u128,
}

impl AuctionMarketInterest {
    /// Creates zero-or-positive market quantities in instrument-defined lots.
    pub fn new(buy_quantity: u128, sell_quantity: u128) -> (r: Self)
        ensures
            r == (AuctionMarketInterest { buy_quantity, sell_quantity }),
    {
        AuctionMarketInterest { buy_quantity, sell_quantity }
    }

    /// No market-constrained interest on either side.
    pub fn none() -> (r: Self)
        ensures
            r == (AuctionMarketInterest { buy_quantity: 0, sell_quantity: 0 }),
    {
        AuctionMarketInterest { buy_quantity: 0, sell_quantity: 0 }
    }

    /// Returns market-constrained buy quantity in lots.
    pub fn buy_quantity(self) -> (r: u128)
        ensures
            r == self.buy_quantity,
    {
        self.buy_quantity
    }

    /// Returns market-constrained sell quantity in lots.
    pub fn sell_quantity(self) -> (r: u128)
        ensures
            r == self.sell_quantity,
    {
        self.sell_quantity
    }
}

impl Default for AuctionMarketInterest {
    fn default() -> (r: Self)
        ensures
            r == (AuctionMarketInterest { buy_quantity: 0, sell_quantity: 0 }),
    {
        AuctionMarketInterest::none()
    }
}

/// One positive aggregate auction quantity at one price.
#[derive(Clone, Copy, Debug, PartialEq, Eq, Structural)]
pub struct AuctionLevel {
    /// Level price.
    pub price: Price,
    /// Aggregate lots.
    pub quantity: u128,
}

impl AuctionLevel {
    /// Creates a positive aggregate auction level.
    pub fn new(price: Price, quantity: u128) -> (r: Result<Self, AuctionError>)
        ensures
            match r {
                Ok(level) => quantity != 0 && level == (AuctionLevel { price, quantity }),
                Err(error) => quantity == 0 && error == AuctionError::ZeroLevelQuantity,
            },
    {
        if quantity == 0 {
            Err(AuctionError::ZeroLevelQuantity)
        } else {
            Ok(AuctionLevel { price, quantity })
        }
    }

    /// Returns the level price in instrument-defined quanta.
    pub fn price(self) -> (r: Price)
        ensures
            r == self.price,
    {
        self.price
    }

    /// Returns aggregate quantity in instrument-defined lots.
    pub fn quantity(self) -> (r: u128)
        ensures
            r == self.quantity,
    {
        self.quantity
    }
}

/// Price constraint for one order participating in an auction.
#[derive(Clone, Copy, Debug, PartialEq, Eq, Structural)]
pub enum AuctionOrderConstraint {
    /// Eligible at every externally selected clearing price.
    Market,
    /// Eligible only when the limit price permits execution at the clearing price.
    Limit(Price),
}

/// Authoritative execution-priority tier within one auction price/constraint.
///
/// Lower numeric values execute before higher values.
#[derive(Clone, Copy, Debug, PartialEq, Eq, PartialOrd, Ord, Hash, Structural)]
pub struct AuctionPriorityClass {
    /// Stable wire scalar.
    pub value: u16,
}

impl AuctionPriorityClass {
    /// Constructs a priority class from its stable wire scalar.
    pub fn new(value: u16) -> (r: Self)
        ensures
            r.value == value,
    {
        AuctionPriorityClass { value }
    }

    /// Highest representable priority class.
    pub fn highest() -> (r: Self)
        ensures
            r.value == 0,
    {
        AuctionPriorityClass { value: 0 }
    }

    /// Returns the stable wire scalar; lower values execute first.
    pub fn get(self) -> (r: u16)
        ensures
            r == self.value,
    {
        self.value
    }
}

/// One positive order-level quantity supplied to auction allocation.
#[derive(Clone, Copy, Debug, PartialEq, Eq, Structural)]
pub struct AuctionOrder {
    /// Caller-owned identity.
    pub order_id: OrderId,
    /// Market or limit constraint.
    pub constraint: AuctionOrderConstraint,
    /// Leaves.
    pub quantity: Quantity,
    /// Priority tier; lower executes first.
    pub priority_class: AuctionPriorityClass,
    /// Monotonic priority sequence; lower executes first.
    pub priority_sequence: u64,
}

impl AuctionOrder {
    /// Constructs one auction order from already validated domain values.
    ///
    /// Lower `priority_class` values precede higher values at an equal price.
    /// `priority_sequence` is the caller's monotonic order-priority sequence;
    /// [`OrderId`] is the final deterministic tie break.
    pub fn new(
        order_id: OrderId,
        constraint: AuctionOrderConstraint,
        quantity: Quantity,
        priority_class: AuctionPriorityClass,
        priority_sequence: u64,
    ) -> (r: Self)
        ensures
            r == (AuctionOrder {
                order_id,
                constraint,
                quantity,
                priority_class,
                priority_sequence,
            }),
    {
        AuctionOrder { order_id, constraint, quantity, priority_class, priority_sequence }
    }

    /// Returns the caller-owned order identity.
    pub fn order_id(self) -> (r: OrderId)
        ensures
            r == self.order_id,
    {
        self.order_id
    }

    /// Returns the market or limit constraint.
    pub fn constraint(self) -> (r: AuctionOrderConstraint)
        ensures
            r == self.constraint,
    {
        self.constraint
    }

    /// Returns the positive leaves quantity in instrument-defined lots.
    pub fn quantity(self) -> (r: Quantity)
        ensures
            r == self.quantity,
    {
        self.quantity
    }

    /// Returns the caller-defined priority class; lower values execute first.
    pub fn priority_class(self) -> (r: AuctionPriorityClass)
        ensures
            r == self.priority_class,
    {
        self.priority_class
    }

    /// Returns the caller-defined priority sequence; lower values execute first.
    pub fn priority_sequence(self) -> (r: u64)
        ensures
            r == self.priority_sequence,
    {
        self.priority_sequence
    }
}

/// Whether equal-volume/equal-imbalance candidates follow market pressure.
#[derive(Clone, Copy, Debug, PartialEq, Eq, Structural)]
pub enum AuctionPressureRule {
    /// Proceed directly to reference-price proximity.
    Ignore,
    /// Buy imbalance selects the higher price and sell imbalance the lower
    /// price when both candidates have the same imbalance side.
    FavorImbalance,
}

/// Deterministic final rule after every preceding auction criterion ties.
#[derive(Clone, Copy, Debug, PartialEq, Eq, Structural)]
pub enum AuctionFinalTieBreak {
    /// Select the lower raw price.
    LowerPrice,
    /// Select the higher raw price.
    HigherPrice,
}

/// Clearing-price ranking policy after volume and absolute imbalance.
#[derive(Clone, Copy, Debug, PartialEq, Eq, Structural)]
pub struct AuctionPricePolicy {
    /// Imbalance-pressure rule.
    pub pressure_rule: AuctionPressureRule,
    /// Final price rule.
    pub final_tie_break: AuctionFinalTieBreak,
}

impl AuctionPricePolicy {
    /// Constructs a policy from explicit pressure and final-tie behavior.
    pub fn new(pressure_rule: AuctionPressureRule, final_tie_break: AuctionFinalTieBreak) -> (r:
        Self)
        ensures
            r == (AuctionPricePolicy { pressure_rule, final_tie_break }),
    {
        AuctionPricePolicy { pressure_rule, final_tie_break }
    }

    /// Ignore pressure, minimize reference distance, then select lower price.
    pub fn reference_then_lower() -> (r: Self)
        ensures
            r == (AuctionPricePolicy {
                pressure_rule: AuctionPressureRule::Ignore,
                final_tie_break: AuctionFinalTieBreak::LowerPrice,
            }),
    {
        AuctionPricePolicy {
            pressure_rule: AuctionPressureRule::Ignore,
            final_tie_break: AuctionFinalTieBreak::LowerPrice,
        }
    }

    /// Ignore pressure, minimize reference distance, then select higher price.
    pub fn reference_then_higher() -> (r: Self)
        ensures
            r == (AuctionPricePolicy {
                pressure_rule: AuctionPressureRule::Ignore,
                final_tie_break: AuctionFinalTieBreak::HigherPrice,
            }),
    {
        AuctionPricePolicy {
            pressure_rule: AuctionPressureRule::Ignore,
            final_tie_break: AuctionFinalTieBreak::HigherPrice,
        }
    }

    /// Follow same-side imbalance pressure, then reference distance and lower price.
    pub fn pressure_then_reference_lower() -> (r: Self)
        ensures
            r == (AuctionPricePolicy {
                pressure_rule: AuctionPressureRule::FavorImbalance,
                final_tie_break: AuctionFinalTieBreak::LowerPrice,
            }),
    {
        AuctionPricePolicy {
            pressure_rule: AuctionPressureRule::FavorImbalance,
            final_tie_break: AuctionFinalTieBreak::LowerPrice,
        }
    }

    /// Follow same-side imbalance pressure, then reference distance and higher price.
    pub fn pressure_then_reference_higher() -> (r: Self)
        ensures
            r == (AuctionPricePolicy {
                pressure_rule: AuctionPressureRule::FavorImbalance,
                final_tie_break: AuctionFinalTieBreak::HigherPrice,
            }),
    {
        AuctionPricePolicy {
            pressure_rule: AuctionPressureRule::FavorImbalance,
            final_tie_break: AuctionFinalTieBreak::HigherPrice,
        }
    }

    /// Returns the optional imbalance-pressure rule.
    pub fn pressure_rule(self) -> (r: AuctionPressureRule)
        ensures
            r == self.pressure_rule,
    {
        self.pressure_rule
    }

    /// Returns the final deterministic price rule.
    pub fn final_tie_break(self) -> (r: AuctionFinalTieBreak)
        ensures
            r == self.final_tie_break,
    {
        self.final_tie_break
    }
}

impl Default for AuctionPricePolicy {
    /// Ignore pressure, minimize reference distance, then select lower price.
    fn default() -> (r: Self)
        ensures
            r == (AuctionPricePolicy {
                pressure_rule: AuctionPressureRule::Ignore,
                final_tie_break: AuctionFinalTieBreak::LowerPrice,
            }),
    {
        AuctionPricePolicy {
            pressure_rule: AuctionPressureRule::Ignore,
            final_tie_break: AuctionFinalTieBreak::LowerPrice,
        }
    }
}

/// Aggregate state evaluated at one selected auction clearing price.
#[derive(Clone, Copy, Debug, PartialEq, Eq, Structural)]
pub struct AuctionClearing {
    /// Clearing price.
    pub price: Price,
    /// Executable lots.
    pub executable_quantity: u128,
    /// Eligible buy lots.
    pub buy_quantity: u128,
    /// Eligible sell lots.
    pub sell_quantity: u128,
    /// Side with excess eligible quantity.
    pub imbalance_side: Option<Side>,
    /// Absolute unexecuted eligible quantity.
    pub imbalance_quantity: u128,
}

/// The aggregate state at one price with the given eligible quantities.
pub open spec fn clearing_of(price: Price, buy: u128, sell: u128) -> AuctionClearing {
    AuctionClearing {
        price,
        executable_quantity: if buy < sell {
            buy
        } else {
            sell
        },
        buy_quantity: buy,
        sell_quantity: sell,
        imbalance_side: if buy > sell {
            Some(Side::Buy)
        } else if sell > buy {
            Some(Side::Sell)
        } else {
            None
        },
        imbalance_quantity: if buy > sell {
            (buy - sell) as u128
        } else {
            (sell - buy) as u128
        },
    }
}

/// Absolute difference of two raw prices.
pub open spec fn price_distance(left: Price, right: Price) -> int {
    if left.raw >= right.raw {
        left.raw - right.raw
    } else {
        right.raw - left.raw
    }
}

/// Candidate ranking: volume, imbalance, optional same-side pressure, distance
/// to the reference, and the final price rule, in that order.
pub open spec fn outranks(
    left: AuctionClearing,
    right: AuctionClearing,
    reference: Price,
    policy: AuctionPricePolicy,
) -> bool {
    if left.executable_quantity != right.executable_quantity {
        left.executable_quantity > right.executable_quantity
    } else if left.imbalance_quantity != right.imbalance_quantity {
        left.imbalance_quantity < right.imbalance_quantity
    } else if policy.pressure_rule == AuctionPressureRule::FavorImbalance && left.imbalance_side
        == right.imbalance_side && left.imbalance_side is Some && left.price != right.price {
        if left.imbalance_side == Some(Side::Buy) {
            left.price.raw > right.price.raw
        } else {
            left.price.raw < right.price.raw
        }
    } else if price_distance(left.price, reference) != price_distance(right.price, reference) {
        price_distance(left.price, reference) < price_distance(right.price, reference)
    } else {
        match policy.final_tie_break {
            AuctionFinalTieBreak::LowerPrice => left.price.raw < right.price.raw,
            AuctionFinalTieBreak::HigherPrice => left.price.raw > right.price.raw,
        }
    }
}

impl AuctionClearing {
    /// The derived fields agree with the price and the two quantities.
    pub open spec fn wf(self) -> bool {
        self == clearing_of(self.price, self.buy_quantity, self.sell_quantity)
    }

    /// Evaluates aggregate executable volume and imbalance at one price.
    ///
    /// `buy_quantity` is cumulative demand priced at or above `price`;
    /// `sell_quantity` is cumulative supply priced at or below it.
    pub fn from_quantities(price: Price, buy_quantity: u128, sell_quantity: u128) -> (r: Self)
        ensures
            r == clearing_of(price, buy_quantity, sell_quantity),
            r.wf(),
    {
        let executable_quantity: u128 = if buy_quantity < sell_quantity {
            buy_quantity
        } else {
            sell_quantity
        };
        let (imbalance_side, imbalance_quantity) = if buy_quantity > sell_quantity {
            (Some(Side::Buy), buy_quantity - sell_quantity)
        } else if sell_quantity > buy_quantity {
            (Some(Side::Sell), sell_quantity - buy_quantity)
        } else {
            (None, 0u128)
        };
        AuctionClearing {
            price,
            executable_quantity,
            buy_quantity,
            sell_quantity,
            imbalance_side,
            imbalance_quantity,
        }
    }

    /// Returns the selected clearing price.
    pub fn price(self) -> (r: Price)
        ensures
            r == self.price,
    {
        self.price
    }

    /// Returns executable aggregate quantity in lots.
    pub fn executable_quantity(self) -> (r: u128)
        ensures
            r == self.executable_quantity,
    {
        self.executable_quantity
    }

    /// Returns cumulative eligible buy quantity at the selected price.
    pub fn buy_quantity(self) -> (r: u128)
        ensures
            r == self.buy_quantity,
    {
        self.buy_quantity
    }

    /// Returns cumulative eligible sell quantity at the selected price.
    pub fn sell_quantity(self) -> (r: u128)
        ensures
            r == self.sell_quantity,
    {
        self.sell_quantity
    }

    /// Returns the side with excess eligible quantity, or `None` when balanced.
    pub fn imbalance_side(self) -> (r: Option<Side>)
        ensures
            r == self.imbalance_side,
    {
        self.imbalance_side
    }

    /// Returns absolute unexecuted eligible quantity at the selected price.
    pub fn imbalance_quantity(self) -> (r: u128)
        ensures
            r == self.imbalance_quantity,
    {
        self.imbalance_quantity
    }

    /// Returns whether this candidate outranks another under the supplied policy.
    pub fn is_better_than(
        self,
        other: Self,
        reference_price: Price,
        policy: AuctionPricePolicy,
    ) -> (r: bool)
        ensures
            r == outranks(self, other, reference_price, policy),
    {
        if self.executable_quantity != other.executable_quantity {
            return self.executable_quantity > other.executable_quantity;
        }
        if self.imbalance_quantity != other.imbalance_quantity {
            return self.imbalance_quantity < other.imbalance_quantity;
        }
        if policy.pressure_rule == AuctionPressureRule::FavorImbalance && self.imbalance_side
            == other.imbalance_side && self.price != other.price {
            match self.imbalance_side {
                Some(Side::Buy) => {
                    return self.price.raw > other.price.raw;
                },
                Some(Side::Sell) => {
                    return self.price.raw < other.price.raw;
                },
                None => {},
            }
        }
        let self_distance: u64 = distance(self.price, reference_price);
        let other_distance: u64 = distance(other.price, reference_price);
        if self_distance != other_distance {
            return self_distance < other_distance;
        }
        match policy.final_tie_break {
            AuctionFinalTieBreak::LowerPrice => self.price.raw < other.price.raw,
            AuctionFinalTieBreak::HigherPrice => self.price.raw > other.price.raw,
        }
    }
}

fn distance(left: Price, right: Price) -> (r: u64)
    ensures
        r == price_distance(left, right),
{
    if left.raw >= right.raw {
        (left.raw as i128 - right.raw as i128) as u64
    } else {
        (right.raw as i128 - left.raw as i128) as u64
    }
}

/// Invalid aggregate input or arithmetic exhaustion during auction discovery.
#[derive(Clone, Copy, Debug, PartialEq, Eq, Structural)]
pub enum AuctionError {
    /// Tick size was zero or exceeded the signed raw-price representation.
    InvalidTickSize(u64),
    /// The inclusive candidate-price minimum exceeded its maximum.
    PriceBandInverted,
    /// The inclusive candidate-price minimum was not grid aligned.
    PriceBandMinimumOffGrid,
    /// The inclusive candidate-price maximum was not grid aligned.
    PriceBandMaximumOffGrid,
    /// An aggregate level had zero quantity.
    ZeroLevelQuantity,
    /// One aggregate level was not aligned to the selected tick grid.
    PriceOffGrid {
        /// Side containing the invalid level.
        side: Side,
        /// Zero-based index of the invalid level.
        index: usize,
    },
    /// The reference price was not aligned to the selected tick grid.
    ReferencePriceOffGrid,
    /// Levels were duplicated or not strictly ordered for their side.
    NonCanonicalLevels {
        /// Side whose level order failed validation.
        side: Side,
        /// Zero-based index of the first invalid level.
        index: usize,
    },
    /// Aggregate quantity exceeded `u128` on one side.
    QuantityOverflow(Side),
    /// A cumulative aggregate contradicted the validated level total.
    QuantityUnderflow(Side),
}

/// The first reason why two prices do not form a band on the grid.
pub open spec fn band_fault(grid: AuctionPriceGrid, minimum: Price, maximum: Price) -> Option<
    AuctionError,
> {
    if minimum.raw > maximum.raw {
        Some(AuctionError::PriceBandInverted)
    } else if !grid.aligned(minimum) {
        Some(AuctionError::PriceBandMinimumOffGrid)
    } else if !grid.aligned(maximum) {
        Some(AuctionError::PriceBandMaximumOffGrid)
    } else {
        None
    }
}

pub(crate) fn validate_price_band(grid: AuctionPriceGrid, minimum: Price, maximum: Price) -> (r:
    Result<(), AuctionError>)
    requires
        grid.wf(),
    ensures
        match r {
            Ok(_) => band_fault(grid, minimum, maximum) is None,
            Err(error) => band_fault(grid, minimum, maximum) == Some(error),
        },
{
    if minimum.raw > maximum.raw {
        return Err(AuctionError::PriceBandInverted);
    }
    if !grid.contains(minimum) {
        return Err(AuctionError::PriceBandMinimumOffGrid);
    }
    if !grid.contains(maximum) {
        return Err(AuctionError::PriceBandMaximumOffGrid);
    }
    Ok(())
}

/// Subtracting the remainder of a value leaves a multiple.
pub(crate) proof fn lemma_aligned_shift(value: int, tick: int, remainder: int)
    requires
        tick > 0,
        remainder == value % tick,
    ensures
        (value - remainder) % tick == 0,
        0 <= remainder < tick,
{
    vstd::arithmetic::div_mod::lemma_fundamental_div_mod(value, tick);
    vstd::arithmetic::div_mod::lemma_mod_multiples_basic(value / tick, tick);
    assert((value / tick) * tick == tick * (value / tick)) by (nonlinear_arith);
    vstd::arithmetic::div_mod::lemma_mod_bound(value, tick);
}

/// The grid is closed under one step in either direction.
pub(crate) proof fn lemma_grid_step(value: int, tick: int)
    requires
        tick > 0,
        value % tick == 0,
    ensures
        (value + tick) % tick == 0,
        (value - tick) % tick == 0,
{
    vstd::arithmetic::div_mod::lemma_mod_add_multiples_vanish(value, tick);
    vstd::arithmetic::div_mod::lemma_mod_sub_multiples_vanish(value, tick);
}

/// Two distinct multiples are at least one step apart.
pub(crate) proof fn lemma_grid_gap(upper: int, lower: int, tick: int)
    requires
        tick > 0,
        upper % tick == 0,
        lower % tick == 0,
    ensures
        upper > lower ==> upper >= lower + tick,
{
    vstd::arithmetic::div_mod::lemma_fundamental_div_mod(upper, tick);
    vstd::arithmetic::div_mod::lemma_fundamental_div_mod(lower, tick);
    let a = upper / tick;
    let b = lower / tick;
    assert(tick * a > tick * b ==> tick * a >= tick * b + tick) by (nonlinear_arith)
        requires
            tick > 0,
    ;
}

} // verus!
