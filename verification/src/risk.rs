//! Account risk profiles, exposures and the pre-trade rule.

use vstd::prelude::*;

use crate::auction::AuctionOrderConstraint;
use crate::domain::{AccountId, Price, Side};
use crate::instrument::InstrumentDefinition;

verus! {

/// Trading permission of one account.
#[derive(Clone, Copy, Debug, PartialEq, Eq, Structural)]
pub enum AccountRiskState {
    /// New interest is admitted within the limits.
    Active,
    /// Only interest that strictly reduces the position is admitted.
    ReduceOnly,
    /// No new interest is admitted.
    Blocked,
}

/// Raw account limits.
#[derive(Clone, Copy, Debug, PartialEq, Eq, Structural)]
pub struct RiskLimitSpec {
    /// Largest order in lots.
    pub max_order_quantity_lots: u64,
    /// Largest conservative order notional.
    pub max_order_notional: u128,
    /// Most open orders.
    pub max_open_orders: u64,
    /// Most open lots, both sides together.
    pub max_open_quantity_lots: u128,
    /// Largest conservative open notional.
    pub max_open_notional: u128,
    /// Largest long position.
    pub max_long_position_lots: u128,
    /// Largest short position.
    pub max_short_position_lots: u128,
}

/// Why limits or a profile are refused.
#[derive(Clone, Copy, Debug, PartialEq, Eq, Structural)]
pub enum RiskConfigurationError {
    /// An order or open-interest limit is zero.
    ZeroLimit,
    /// A position limit is no signed position.
    PositionLimitUnrepresentable,
    /// The initial position lies outside the position limits.
    InitialPositionOutsideLimits,
}

/// Largest representable position.
pub const MAX_POSITION_LOTS: u128 = 170141183460469231731687303715884105727;

/// Validated account limits.
#[derive(Clone, Copy, Debug, PartialEq, Eq, Structural)]
pub struct RiskLimits {
    /// Largest order in lots.
    pub max_order_quantity_lots: u64,
    /// Largest conservative order notional.
    pub max_order_notional: u128,
    /// Most open orders.
    pub max_open_orders: u64,
    /// Most open lots, both sides together.
    pub max_open_quantity_lots: u128,
    /// Largest conservative open notional.
    pub max_open_notional: u128,
    /// Largest long position.
    pub max_long_position_lots: u128,
    /// Largest short position.
    pub max_short_position_lots: u128,
}

impl RiskLimits {
    /// Both position limits are signed positions.
    pub open spec fn wf(self) -> bool {
        self.max_long_position_lots <= MAX_POSITION_LOTS && self.max_short_position_lots
            <= MAX_POSITION_LOTS
    }

    /// Validates account limits.
    pub fn new(spec: RiskLimitSpec) -> (r: Result<Self, RiskConfigurationError>)
        ensures
            match r {
                Ok(limits) => {
                    &&& limits.wf()
                    &&& limits == (RiskLimits {
                        max_order_quantity_lots: spec.max_order_quantity_lots,
                        max_order_notional: spec.max_order_notional,
                        max_open_orders: spec.max_open_orders,
                        max_open_quantity_lots: spec.max_open_quantity_lots,
                        max_open_notional: spec.max_open_notional,
                        max_long_position_lots: spec.max_long_position_lots,
                        max_short_position_lots: spec.max_short_position_lots,
                    })
                    &&& spec.max_order_quantity_lots > 0 && spec.max_open_orders > 0
                        && spec.max_open_quantity_lots > 0
                },
                Err(RiskConfigurationError::ZeroLimit) => spec.max_order_quantity_lots == 0
                    || spec.max_open_orders == 0 || spec.max_open_quantity_lots == 0,
                Err(error) => error == RiskConfigurationError::PositionLimitUnrepresentable && (
                spec.max_long_position_lots > MAX_POSITION_LOTS || spec.max_short_position_lots
                    > MAX_POSITION_LOTS),
            },
    {
        if spec.max_order_quantity_lots == 0 || spec.max_open_orders == 0
            || spec.max_open_quantity_lots == 0 {
            return Err(RiskConfigurationError::ZeroLimit);
        }
        if spec.max_long_position_lots > MAX_POSITION_LOTS || spec.max_short_position_lots
            > MAX_POSITION_LOTS {
            return Err(RiskConfigurationError::PositionLimitUnrepresentable);
        }
        Ok(
            RiskLimits {
                max_order_quantity_lots: spec.max_order_quantity_lots,
                max_order_notional: spec.max_order_notional,
                max_open_orders: spec.max_open_orders,
                max_open_quantity_lots: spec.max_open_quantity_lots,
                max_open_notional: spec.max_open_notional,
                max_long_position_lots: spec.max_long_position_lots,
                max_short_position_lots: spec.max_short_position_lots,
            },
        )
    }

    /// A position lies within the limits.
    pub open spec fn holds(self, position: int) -> bool {
        -(self.max_short_position_lots as int) <= position <= self.max_long_position_lots
    }

    /// Every outcome of the open interest lies within the limits.
    pub open spec fn bears(self, position: int, open_buys: int, open_sells: int) -> bool {
        position + open_buys <= self.max_long_position_lots && open_sells - position
            <= self.max_short_position_lots
    }
}

/// Returns whether a position lies within the limits.
pub fn position_within_limits(position_lots: i128, limits: RiskLimits) -> (r: bool)
    requires
        limits.wf(),
    ensures
        r == limits.holds(position_lots as int),
{
    if position_lots >= 0 {
        position_lots as u128 <= limits.max_long_position_lots
    } else {
        let floor: i128 = -(limits.max_short_position_lots as i128);
        position_lots >= floor
    }
}

/// The magnitude of a non-negative or negative position.
fn distance(position_lots: i128) -> (r: u128)
    ensures
        r == (if position_lots < 0 {
            -(position_lots as int)
        } else {
            position_lots as int
        }),
{
    if position_lots >= 0 {
        position_lots as u128
    } else {
        let above: i128 = -(position_lots + 1);
        above as u128 + 1
    }
}

/// Returns whether `position + open <= limit`, or `open - position <= limit` for
/// the short side.
fn reach_within(position_lots: i128, open_lots: u128, limit: u128, long: bool) -> (r: bool)
    ensures
        r == (open_lots + (if long {
            position_lots as int
        } else {
            -(position_lots as int)
        }) <= limit),
{
    let magnitude: u128 = distance(position_lots);
    let adds: bool = (position_lots >= 0) == long;
    if adds {
        match open_lots.checked_add(magnitude) {
            Some(reach) => reach <= limit,
            None => false,
        }
    } else if open_lots <= magnitude {
        true
    } else {
        open_lots - magnitude <= limit
    }
}

/// Returns whether every outcome of the open interest lies within the limits.
pub fn worst_case_position_within_limits(
    position_lots: i128,
    open_buy_lots: u128,
    open_sell_lots: u128,
    limits: RiskLimits,
) -> (r: bool)
    ensures
        r == limits.bears(position_lots as int, open_buy_lots as int, open_sell_lots as int),
{
    reach_within(position_lots, open_buy_lots, limits.max_long_position_lots, true)
        && reach_within(position_lots, open_sell_lots, limits.max_short_position_lots, false)
}

/// Immutable risk profile of one account.
#[derive(Clone, Copy, Debug, PartialEq, Eq, Structural)]
pub struct RiskProfile {
    /// Trading permission.
    pub state: AccountRiskState,
    /// Position before the first command.
    pub initial_position_lots: i128,
    /// Account limits.
    pub limits: RiskLimits,
}

impl RiskProfile {
    /// The limits are valid and hold the initial position.
    pub open spec fn wf(self) -> bool {
        self.limits.wf() && self.limits.holds(self.initial_position_lots as int)
    }

    /// Creates a profile.
    pub fn new(state: AccountRiskState, initial_position_lots: i128, limits: RiskLimits) -> (r:
        Result<Self, RiskConfigurationError>)
        requires
            limits.wf(),
        ensures
            match r {
                Ok(profile) => profile.wf() && profile == (RiskProfile {
                    state,
                    initial_position_lots,
                    limits,
                }),
                Err(error) => error == RiskConfigurationError::InitialPositionOutsideLimits
                    && !limits.holds(initial_position_lots as int),
            },
    {
        if position_within_limits(initial_position_lots, limits) {
            Ok(RiskProfile { state, initial_position_lots, limits })
        } else {
            Err(RiskConfigurationError::InitialPositionOutsideLimits)
        }
    }

    /// Returns the trading permission.
    pub fn state(self) -> (r: AccountRiskState)
        ensures
            r == self.state,
    {
        self.state
    }

    /// Returns the position before the first command.
    pub fn initial_position_lots(self) -> (r: i128)
        ensures
            r == self.initial_position_lots,
    {
        self.initial_position_lots
    }

    /// Returns the account limits.
    pub fn limits(self) -> (r: RiskLimits)
        ensures
            r == self.limits,
    {
        self.limits
    }
}

/// Position and open interest of one account.
#[derive(Clone, Copy, Debug, PartialEq, Eq, Structural)]
pub struct RiskSnapshot {
    /// Signed position.
    pub position_lots: i128,
    /// Open buy lots.
    pub open_buy_lots: u128,
    /// Open sell lots.
    pub open_sell_lots: u128,
    /// Conservative open notional.
    pub open_notional: u128,
    /// Open orders.
    pub open_orders: u64,
}

impl RiskSnapshot {
    /// Creates a snapshot.
    pub fn from_parts(
        position_lots: i128,
        open_buy_lots: u128,
        open_sell_lots: u128,
        open_notional: u128,
        open_orders: u64,
    ) -> (r: Self)
        ensures
            r == (RiskSnapshot {
                position_lots,
                open_buy_lots,
                open_sell_lots,
                open_notional,
                open_orders,
            }),
    {
        RiskSnapshot { position_lots, open_buy_lots, open_sell_lots, open_notional, open_orders }
    }

    /// Returns the signed position.
    pub fn position_lots(self) -> (r: i128)
        ensures
            r == self.position_lots,
    {
        self.position_lots
    }

    /// Returns open buy lots.
    pub fn open_buy_lots(self) -> (r: u128)
        ensures
            r == self.open_buy_lots,
    {
        self.open_buy_lots
    }

    /// Returns open sell lots.
    pub fn open_sell_lots(self) -> (r: u128)
        ensures
            r == self.open_sell_lots,
    {
        self.open_sell_lots
    }

    /// Returns the conservative open notional.
    pub fn open_notional(self) -> (r: u128)
        ensures
            r == self.open_notional,
    {
        self.open_notional
    }

    /// Returns the number of open orders.
    pub fn open_orders(self) -> (r: u64)
        ensures
            r == self.open_orders,
    {
        self.open_orders
    }

    /// Open lots of one side.
    pub open spec fn open_lots(self, side: Side) -> u128 {
        match side {
            Side::Buy => self.open_buy_lots,
            Side::Sell => self.open_sell_lots,
        }
    }
}

/// Account registration failure.
#[derive(Clone, Copy, Debug, PartialEq, Eq, Structural)]
pub enum RiskError {
    /// The account already has a profile.
    DuplicateProfile(AccountId),
    /// The registry is full.
    ProfileCapacityExhausted {
        /// Configured maximum.
        maximum: usize,
    },
    /// Commands have been sequenced.
    ProfileRegistryLocked,
}

/// Why the pre-trade rule refuses an order.
#[derive(Clone, Copy, Debug, PartialEq, Eq, Structural)]
pub enum RiskRejectReason {
    /// The account is blocked.
    AccountBlocked,
    /// The order does not strictly reduce the position.
    ReduceOnly,
    /// The order is too large.
    OrderQuantityLimit,
    /// The conservative order notional is too large.
    OrderNotionalLimit,
    /// There would be too many open orders.
    OpenOrderCountLimit,
    /// There would be too many open lots.
    OpenQuantityLimit,
    /// The conservative open notional would be too large.
    OpenNotionalLimit,
    /// A worst-case position would lie outside the limits.
    PositionLimit,
    /// An aggregate would not be representable.
    ArithmeticOverflow,
}

/// One account of a checkpoint.
#[derive(Clone, Copy, Debug, PartialEq, Eq, Structural)]
pub struct RiskAccountCheckpoint {
    /// Account identity.
    pub account_id: AccountId,
    /// Immutable profile.
    pub profile: RiskProfile,
    /// Position and open interest.
    pub exposure: RiskSnapshot,
}

impl RiskAccountCheckpoint {
    /// Creates a checkpoint row.
    pub fn from_parts(account_id: AccountId, profile: RiskProfile, exposure: RiskSnapshot) -> (r:
        Self)
        ensures
            r == (RiskAccountCheckpoint { account_id, profile, exposure }),
    {
        RiskAccountCheckpoint { account_id, profile, exposure }
    }

    /// Returns the account identity.
    pub fn account_id(self) -> (r: AccountId)
        ensures
            r == self.account_id,
    {
        self.account_id
    }

    /// Returns the immutable profile.
    pub fn profile(self) -> (r: RiskProfile)
        ensures
            r == self.profile,
    {
        self.profile
    }

    /// Returns position and open interest.
    pub fn exposure(self) -> (r: RiskSnapshot)
        ensures
            r == self.exposure,
    {
        self.exposure
    }
}

/// A constructor-reserved risk index.
#[derive(Clone, Copy, Debug, PartialEq, Eq, Structural)]
pub enum RiskHashIndex {
    /// Account profiles.
    AccountProfiles,
    /// Active reservations.
    ActiveReservations,
}

/// Storage of one risk index.
#[derive(Clone, Copy, Debug, PartialEq, Eq, Structural)]
pub struct RiskHashIndexStatus {
    /// Configured maximum.
    pub configured_entries: usize,
    /// Reserved entries.
    pub allocated_entries: usize,
    /// Occupied entries.
    pub occupied_entries: usize,
}

/// Absolute value of a raw price.
pub open spec fn price_magnitude(price: Price) -> int {
    if price.raw < 0 {
        -(price.raw as int)
    } else {
        price.raw as int
    }
}

/// The lowest price at which an order can execute.
pub open spec fn lowest_reach(
    definition: InstrumentDefinition,
    side: Side,
    constraint: AuctionOrderConstraint,
) -> Price {
    match (side, constraint) {
        (Side::Sell, AuctionOrderConstraint::Limit(price)) => price,
        _ => definition.price.minimum,
    }
}

/// The highest price at which an order can execute.
pub open spec fn highest_reach(
    definition: InstrumentDefinition,
    side: Side,
    constraint: AuctionOrderConstraint,
) -> Price {
    match (side, constraint) {
        (Side::Buy, AuctionOrderConstraint::Limit(price)) => price,
        _ => definition.price.maximum,
    }
}

/// Largest absolute price at which an order can execute.
pub open spec fn reach_magnitude(
    definition: InstrumentDefinition,
    side: Side,
    constraint: AuctionOrderConstraint,
) -> int {
    let low = price_magnitude(lowest_reach(definition, side, constraint));
    let high = price_magnitude(highest_reach(definition, side, constraint));
    if low >= high {
        low
    } else {
        high
    }
}

/// No price that an order can execute at is larger than its valuation.
pub proof fn law_valuation_is_conservative(
    definition: InstrumentDefinition,
    side: Side,
    constraint: AuctionOrderConstraint,
    price: Price,
)
    requires
        lowest_reach(definition, side, constraint).raw <= price.raw,
        price.raw <= highest_reach(definition, side, constraint).raw,
    ensures
        price_magnitude(price) <= reach_magnitude(definition, side, constraint),
{
}

fn raw_magnitude(price: Price) -> (r: u64)
    ensures
        r == price_magnitude(price),
{
    if price.raw < 0 {
        let raw: i128 = price.raw as i128;
        (-raw) as u64
    } else {
        price.raw as u64
    }
}

/// Returns the largest absolute price at which an order can execute.
pub fn conservative_price_magnitude(
    definition: InstrumentDefinition,
    side: Side,
    constraint: AuctionOrderConstraint,
) -> (r: u64)
    ensures
        r == reach_magnitude(definition, side, constraint),
{
    let mut low = definition.price.minimum;
    let mut high = definition.price.maximum;
    if let AuctionOrderConstraint::Limit(price) = constraint {
        match side {
            Side::Buy => {
                high = price;
            },
            Side::Sell => {
                low = price;
            },
        }
    }
    let low_magnitude: u64 = raw_magnitude(low);
    let high_magnitude: u64 = raw_magnitude(high);
    if low_magnitude >= high_magnitude {
        low_magnitude
    } else {
        high_magnitude
    }
}

/// Conservative notional of a quantity.
pub open spec fn conservative_notional(valuation: u64, lots: u64) -> u128 {
    (valuation as nat * lots as nat) as u128
}

/// Multiplies a valuation by a quantity.
pub fn reserve_notional(valuation_per_lot: u64, lots: u64) -> (r: u128)
    ensures
        r == valuation_per_lot * lots,
        r == conservative_notional(valuation_per_lot, lots),
{
    assert(valuation_per_lot as nat * lots as nat <= u64::MAX as nat * u64::MAX as nat)
        by (nonlinear_arith)
        requires
            valuation_per_lot <= u64::MAX,
            lots <= u64::MAX,
    ;
    valuation_per_lot as u128 * lots as u128
}

/// Returns the conservative notional of an order.
pub fn conservative_order_notional(
    definition: InstrumentDefinition,
    side: Side,
    constraint: AuctionOrderConstraint,
    lots: u64,
) -> (r: u128)
    ensures
        r == conservative_notional(reach_magnitude(definition, side, constraint) as u64, lots),
        r == reach_magnitude(definition, side, constraint) * lots,
{
    let valuation: u64 = conservative_price_magnitude(definition, side, constraint);
    reserve_notional(valuation, lots)
}

/// The open interest of an order can only shrink the position towards zero.
pub open spec fn strictly_reduces(exposure: RiskSnapshot, side: Side, lots: u64) -> bool {
    match side {
        Side::Buy => exposure.position_lots < 0 && exposure.open_buy_lots + lots <= -(
        exposure.position_lots as int),
        Side::Sell => exposure.position_lots > 0 && exposure.open_sell_lots + lots
            <= exposure.position_lots,
    }
}

/// The first reason why an order is refused, if any.
pub open spec fn pretrade_fault(
    profile: RiskProfile,
    exposure: RiskSnapshot,
    side: Side,
    lots: u64,
    notional: u128,
) -> Option<RiskRejectReason> {
    let limits = profile.limits;
    let open = exposure.open_buy_lots + exposure.open_sell_lots + lots;
    let buys = exposure.open_buy_lots + if side == Side::Buy {
        lots as int
    } else {
        0
    };
    let sells = exposure.open_sell_lots + if side == Side::Sell {
        lots as int
    } else {
        0
    };
    if profile.state == AccountRiskState::Blocked {
        Some(RiskRejectReason::AccountBlocked)
    } else if profile.state == AccountRiskState::ReduceOnly && !strictly_reduces(
        exposure,
        side,
        lots,
    ) {
        Some(RiskRejectReason::ReduceOnly)
    } else if lots > limits.max_order_quantity_lots {
        Some(RiskRejectReason::OrderQuantityLimit)
    } else if notional > limits.max_order_notional {
        Some(RiskRejectReason::OrderNotionalLimit)
    } else if exposure.open_orders == u64::MAX {
        Some(RiskRejectReason::ArithmeticOverflow)
    } else if exposure.open_orders + 1 > limits.max_open_orders {
        Some(RiskRejectReason::OpenOrderCountLimit)
    } else if open > u128::MAX {
        Some(RiskRejectReason::ArithmeticOverflow)
    } else if open > limits.max_open_quantity_lots {
        Some(RiskRejectReason::OpenQuantityLimit)
    } else if exposure.open_notional + notional > u128::MAX {
        Some(RiskRejectReason::ArithmeticOverflow)
    } else if exposure.open_notional + notional > limits.max_open_notional {
        Some(RiskRejectReason::OpenNotionalLimit)
    } else if !limits.bears(exposure.position_lots as int, buys, sells) {
        Some(RiskRejectReason::PositionLimit)
    } else {
        None
    }
}

/// Applies the pre-trade rule to one order that would rest.
pub fn evaluate_pretrade_order(
    profile: RiskProfile,
    exposure: RiskSnapshot,
    side: Side,
    lots: u64,
    notional: u128,
) -> (r: Result<(), RiskRejectReason>)
    ensures
        match r {
            Ok(_) => pretrade_fault(profile, exposure, side, lots, notional) is None,
            Err(reason) => pretrade_fault(profile, exposure, side, lots, notional) == Some(reason),
        },
{
    let limits = profile.limits;
    let quantity: u128 = lots as u128;
    match profile.state {
        AccountRiskState::Blocked => {
            return Err(RiskRejectReason::AccountBlocked);
        },
        AccountRiskState::ReduceOnly => {
            let reduces: bool = match side {
                Side::Buy => exposure.position_lots < 0 && match exposure.open_buy_lots.checked_add(
                    quantity,
                ) {
                    Some(open) => open <= distance(exposure.position_lots),
                    None => false,
                },
                Side::Sell => exposure.position_lots > 0
                    && match exposure.open_sell_lots.checked_add(quantity) {
                    Some(open) => open <= distance(exposure.position_lots),
                    None => false,
                },
            };
            if !reduces {
                return Err(RiskRejectReason::ReduceOnly);
            }
        },
        AccountRiskState::Active => {},
    }
    if lots > limits.max_order_quantity_lots {
        return Err(RiskRejectReason::OrderQuantityLimit);
    }
    if notional > limits.max_order_notional {
        return Err(RiskRejectReason::OrderNotionalLimit);
    }
    if exposure.open_orders == u64::MAX {
        return Err(RiskRejectReason::ArithmeticOverflow);
    }
    if exposure.open_orders + 1 > limits.max_open_orders {
        return Err(RiskRejectReason::OpenOrderCountLimit);
    }
    let resting: u128 = match exposure.open_buy_lots.checked_add(exposure.open_sell_lots) {
        Some(total) => total,
        None => {
            return Err(RiskRejectReason::ArithmeticOverflow);
        },
    };
    match resting.checked_add(quantity) {
        Some(open) => {
            if open > limits.max_open_quantity_lots {
                return Err(RiskRejectReason::OpenQuantityLimit);
            }
        },
        None => {
            return Err(RiskRejectReason::ArithmeticOverflow);
        },
    }
    match exposure.open_notional.checked_add(notional) {
        Some(open) => {
            if open > limits.max_open_notional {
                return Err(RiskRejectReason::OpenNotionalLimit);
            }
        },
        None => {
            return Err(RiskRejectReason::ArithmeticOverflow);
        },
    }
    let mut buys: u128 = exposure.open_buy_lots;
    let mut sells: u128 = exposure.open_sell_lots;
    match side {
        Side::Buy => {
            buys = buys + quantity;
        },
        Side::Sell => {
            sells = sells + quantity;
        },
    }
    if worst_case_position_within_limits(exposure.position_lots, buys, sells, limits) {
        Ok(())
    } else {
        Err(RiskRejectReason::PositionLimit)
    }
}

} // verus!
