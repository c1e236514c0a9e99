//! Order-level allocation of one clearing result.
//!
//! Price-time and price/class-tier pro-rata allocators reconcile canonical
//! order-level interest to one clearing result and emit independent per-side
//! fills. Neither mutates an order book or pairs counterparties.

use vstd::prelude::*;

use crate::auction::{AuctionClearing, AuctionOrder, AuctionOrderConstraint, AuctionPriceGrid};
use crate::domain::{OrderId, Price, Side};
use crate::storage::try_vector;

verus! {

/// Finite input bound for one order-level auction allocation.
#[derive(Clone, Copy, Debug, PartialEq, Eq, Structural)]
pub struct AuctionAllocationLimits {
    /// Maximum supplied orders on either side.
    pub max_orders_per_side: usize,
}

/// Deterministic order-level allocation within one aggregate clearing result.
#[derive(Clone, Copy, Debug, PartialEq, Eq, Structural)]
pub enum AuctionAllocationPolicy {
    /// Strict market/price/class/time/identity priority.
    PriceTime,
    /// Strict market/price/class tiers with pro-rata marginal allocation and
    /// time/identity priority for residual allocation quanta.
    ProRataTime,
}

/// An allocation policy with its pro-rata quantum.
#[derive(Clone, Copy)]
pub(crate) struct AuctionAllocationMethod {
    pub(crate) policy: AuctionAllocationPolicy,
    pub(crate) allocation_quantum_lots: u64,
}

impl AuctionAllocationMethod {
    pub(crate) fn new(policy: AuctionAllocationPolicy, allocation_quantum_lots: u64) -> (r: Self)
        ensures
            r.policy == policy,
            r.allocation_quantum_lots == allocation_quantum_lots,
    {
        AuctionAllocationMethod { policy, allocation_quantum_lots }
    }
}

impl AuctionAllocationLimits {
    /// Operational default for each side of one allocation request.
    pub const DEFAULT_MAX_ORDERS_PER_SIDE: usize = 65_536;

    /// Creates a positive per-side order bound.
    pub fn new(max_orders_per_side: usize) -> (r: Result<Self, AuctionAllocationError>)
        ensures
            match r {
                Ok(limits) => max_orders_per_side != 0 && limits.max_orders_per_side
                    == max_orders_per_side,
                Err(error) => max_orders_per_side == 0 && error
                    == AuctionAllocationError::InvalidOrderLimit(0),
            },
    {
        if max_orders_per_side == 0 {
            Err(AuctionAllocationError::InvalidOrderLimit(max_orders_per_side))
        } else {
            Ok(AuctionAllocationLimits { max_orders_per_side })
        }
    }

    /// Returns the maximum supplied orders on either side.
    pub fn max_orders_per_side(self) -> (r: usize)
        ensures
            r == self.max_orders_per_side,
    {
        self.max_orders_per_side
    }
}

impl Default for AuctionAllocationLimits {
    fn default() -> (r: Self)
        ensures
            r.max_orders_per_side == 65_536,
    {
        AuctionAllocationLimits { max_orders_per_side: Self::DEFAULT_MAX_ORDERS_PER_SIDE }
    }
}

/// One positive order fill in a deterministic auction allocation plan.
#[derive(Clone, Copy, Debug, PartialEq, Eq, Structural)]
pub struct AuctionOrderFill {
    /// Zero-based index in the source-side slice.
    pub source_index: usize,
    /// Order identity.
    pub order_id: OrderId,
    /// Allocated lots.
    pub quantity_lots: u64,
}

impl AuctionOrderFill {
    /// Returns the order's zero-based index in its source-side slice.
    pub fn source_index(self) -> (r: usize)
        ensures
            r == self.source_index,
    {
        self.source_index
    }

    /// Returns the caller-owned order identity.
    pub fn order_id(self) -> (r: OrderId)
        ensures
            r == self.order_id,
    {
        self.order_id
    }

    /// Returns the strictly positive allocated quantity in lots.
    pub fn quantity_lots(self) -> (r: u64)
        ensures
            r == self.quantity_lots,
    {
        self.quantity_lots
    }
}

/// Fully reconciled per-side fills at one aggregate clearing result.
#[derive(Clone, Debug, PartialEq, Eq)]
pub struct AuctionAllocationPlan {
    /// Aggregate clearing state to which both sides reconcile.
    pub clearing: AuctionClearing,
    /// Fills in canonical buy execution priority.
    pub buy_fills: Vec<AuctionOrderFill>,
    /// Fills in canonical sell execution priority.
    pub sell_fills: Vec<AuctionOrderFill>,
}

impl AuctionAllocationPlan {
    /// Returns the aggregate clearing state to which both sides reconcile.
    pub fn clearing(&self) -> (r: AuctionClearing)
        ensures
            r == self.clearing,
    {
        self.clearing
    }

    /// Returns the equal aggregate quantity allocated on each side.
    pub fn executable_quantity(&self) -> (r: u128)
        ensures
            r == self.clearing.executable_quantity,
    {
        self.clearing.executable_quantity()
    }

    /// Returns fills in canonical buy execution priority.
    pub fn buy_fills(&self) -> (r: &[AuctionOrderFill])
        ensures
            r@ == self.buy_fills@,
    {
        self.buy_fills.as_slice()
    }

    /// Returns fills in canonical sell execution priority.
    pub fn sell_fills(&self) -> (r: &[AuctionOrderFill])
        ensures
            r@ == self.sell_fills@,
    {
        self.sell_fills.as_slice()
    }

    /// An empty plan that owns the given fill storage.
    pub(crate) fn with_fill_storage(
        buy_fills: Vec<AuctionOrderFill>,
        sell_fills: Vec<AuctionOrderFill>,
    ) -> (r: Self)
        ensures
            r.buy_fills == buy_fills,
            r.sell_fills == sell_fills,
            r.clearing.wf(),
            r.clearing.executable_quantity == 0,
    {
        AuctionAllocationPlan {
            clearing: AuctionClearing::from_quantities(Price::from_raw(0), 0, 0),
            buy_fills,
            sell_fills,
        }
    }

    /// Empties the plan and keeps its storage.
    pub(crate) fn clear_reusable(&mut self)
        ensures
            final(self).buy_fills@ == Seq::<AuctionOrderFill>::empty(),
            final(self).sell_fills@ == Seq::<AuctionOrderFill>::empty(),
            final(self).clearing.wf(),
            final(self).clearing.executable_quantity == 0,
    {
        self.clearing = AuctionClearing::from_quantities(Price::from_raw(0), 0, 0);
        self.buy_fills.clear();
        self.sell_fills.clear();
    }
}

/// Invalid input or resource exhaustion during order-level auction allocation.
#[derive(Clone, Copy, Debug, PartialEq, Eq, Structural)]
pub enum AuctionAllocationError {
    /// The configured per-side order maximum was zero.
    InvalidOrderLimit(usize),
    /// The configured pro-rata allocation quantum was zero.
    InvalidAllocationQuantum(u64),
    /// A supplied side exceeded its explicit operational bound.
    OrderLimitExceeded {
        /// Side exceeding the bound.
        side: Side,
        /// Supplied order count.
        count: usize,
        /// Configured maximum.
        maximum: usize,
    },
    /// The selected clearing price was not aligned to the allocation grid.
    ClearingPriceOffGrid,
    /// A limit order was not aligned to the allocation grid.
    LimitPriceOffGrid {
        /// Side containing the invalid order.
        side: Side,
        /// Zero-based source index.
        index: usize,
    },
    /// An order quantity was not aligned to the pro-rata allocation quantum.
    OrderQuantityOffAllocationGrid {
        /// Side containing the invalid order.
        side: Side,
        /// Zero-based source index.
        index: usize,
        /// Supplied order quantity in instrument-defined lots.
        quantity_lots: u64,
        /// Required allocation quantum in instrument-defined lots.
        allocation_quantum_lots: u64,
    },
    /// Market/price/class/time/ID priority was not strictly canonical.
    NonCanonicalOrders {
        /// Side whose priority order failed validation.
        side: Side,
        /// Zero-based index of the first invalid order.
        index: usize,
    },
    /// Eligible order quantity exceeded `u128` on one side.
    QuantityOverflow(Side),
    /// Eligible order totals did not equal the supplied discovery result.
    ClearingQuantityMismatch {
        /// Buy quantity recorded by discovery.
        expected_buy: u128,
        /// Buy quantity reconstructed from eligible orders.
        observed_buy: u128,
        /// Sell quantity recorded by discovery.
        expected_sell: u128,
        /// Sell quantity reconstructed from eligible orders.
        observed_sell: u128,
    },
    /// The supplied aggregate state had no executable quantity.
    ZeroExecutableQuantity,
    /// Exact fill-vector reservation failed before plan construction.
    CapacityReservationFailed(Side),
    /// An internal fill scalar could not fit its order-level `u64` representation.
    FillQuantityOverflow(Side),
    /// Validated eligible quantity was insufficient while constructing fills.
    InsufficientEligibleQuantity(Side),
}

/// Whether an order may execute at the clearing price.
pub open spec fn eligible(order: AuctionOrder, side: Side, price: Price) -> bool {
    match order.constraint {
        AuctionOrderConstraint::Market => true,
        AuctionOrderConstraint::Limit(limit) => match side {
            Side::Buy => limit.raw >= price.raw,
            Side::Sell => limit.raw <= price.raw,
        },
    }
}

/// Class, then sequence, then identity.
pub open spec fn priority_before(left: AuctionOrder, right: AuctionOrder) -> bool {
    if left.priority_class.value != right.priority_class.value {
        left.priority_class.value < right.priority_class.value
    } else if left.priority_sequence != right.priority_sequence {
        left.priority_sequence < right.priority_sequence
    } else {
        left.order_id.value < right.order_id.value
    }
}

/// Canonical execution priority: market orders first, then the better price,
/// then class, sequence and identity.
pub open spec fn order_before(left: AuctionOrder, right: AuctionOrder, side: Side) -> bool {
    match (left.constraint, right.constraint) {
        (AuctionOrderConstraint::Market, AuctionOrderConstraint::Limit(_)) => true,
        (AuctionOrderConstraint::Limit(_), AuctionOrderConstraint::Market) => false,
        (AuctionOrderConstraint::Market, AuctionOrderConstraint::Market) => priority_before(
            left,
            right,
        ),
        (AuctionOrderConstraint::Limit(a), AuctionOrderConstraint::Limit(b)) => if a == b {
            priority_before(left, right)
        } else {
            match side {
                Side::Buy => a.raw > b.raw,
                Side::Sell => a.raw < b.raw,
            }
        },
    }
}

/// Sum of the order quantities in lots.
pub open spec fn lots_sum(orders: Seq<AuctionOrder>) -> int
    decreases orders.len(),
{
    if orders.len() == 0 {
        0
    } else {
        lots_sum(orders.drop_last()) + orders.last().quantity.lots
    }
}

/// Sum of the quantities of the orders that may execute at the price.
pub open spec fn eligible_lots(orders: Seq<AuctionOrder>, side: Side, price: Price) -> int
    decreases orders.len(),
{
    if orders.len() == 0 {
        0
    } else {
        eligible_lots(orders.drop_last(), side, price) + if eligible(orders.last(), side, price) {
            orders.last().quantity.lots as int
        } else {
            0
        }
    }
}

/// The fault of the order at `index`, given that no earlier order has one.
pub open spec fn order_fault(
    orders: Seq<AuctionOrder>,
    side: Side,
    grid: AuctionPriceGrid,
    price: Price,
    index: int,
) -> Option<AuctionAllocationError> {
    let order = orders[index];
    if order.constraint matches AuctionOrderConstraint::Limit(limit) && !grid.aligned(limit) {
        Some(AuctionAllocationError::LimitPriceOffGrid { side, index: index as usize })
    } else if index > 0 && !order_before(orders[index - 1], order, side) {
        Some(AuctionAllocationError::NonCanonicalOrders { side, index: index as usize })
    } else if eligible_lots(orders.take(index + 1), side, price) > u128::MAX {
        Some(AuctionAllocationError::QuantityOverflow(side))
    } else {
        None
    }
}

/// The fault of the first invalid order among the first `count`.
pub open spec fn first_order_fault(
    orders: Seq<AuctionOrder>,
    side: Side,
    grid: AuctionPriceGrid,
    price: Price,
    count: nat,
) -> Option<AuctionAllocationError>
    decreases count,
{
    if count == 0 {
        None
    } else {
        match first_order_fault(orders, side, grid, price, (count - 1) as nat) {
            Some(error) => Some(error),
            None => order_fault(orders, side, grid, price, count - 1),
        }
    }
}

/// The first order among the first `count` that is off the allocation quantum.
pub open spec fn first_quantum_fault(
    orders: Seq<AuctionOrder>,
    side: Side,
    quantum: u64,
    count: nat,
) -> Option<AuctionAllocationError>
    decreases count,
{
    if count == 0 {
        None
    } else {
        match first_quantum_fault(orders, side, quantum, (count - 1) as nat) {
            Some(error) => Some(error),
            None => if orders[count - 1].quantity.lots % quantum != 0 {
                Some(
                    AuctionAllocationError::OrderQuantityOffAllocationGrid {
                        side,
                        index: (count - 1) as usize,
                        quantity_lots: orders[count - 1].quantity.lots,
                        allocation_quantum_lots: quantum,
                    },
                )
            } else {
                None
            },
        }
    }
}

/// The first reason why an allocation request is refused under any policy.
pub open spec fn request_fault(
    bids: Seq<AuctionOrder>,
    asks: Seq<AuctionOrder>,
    grid: AuctionPriceGrid,
    clearing: AuctionClearing,
    limits: AuctionAllocationLimits,
) -> Option<AuctionAllocationError> {
    let price = clearing.price;
    let buy = eligible_lots(bids, Side::Buy, price);
    let sell = eligible_lots(asks, Side::Sell, price);
    if limits.max_orders_per_side == 0 {
        Some(AuctionAllocationError::InvalidOrderLimit(0))
    } else if bids.len() > limits.max_orders_per_side {
        Some(
            AuctionAllocationError::OrderLimitExceeded {
                side: Side::Buy,
                count: bids.len() as usize,
                maximum: limits.max_orders_per_side,
            },
        )
    } else if asks.len() > limits.max_orders_per_side {
        Some(
            AuctionAllocationError::OrderLimitExceeded {
                side: Side::Sell,
                count: asks.len() as usize,
                maximum: limits.max_orders_per_side,
            },
        )
    } else if !grid.aligned(price) {
        Some(AuctionAllocationError::ClearingPriceOffGrid)
    } else if first_order_fault(bids, Side::Buy, grid, price, bids.len()) is Some {
        first_order_fault(bids, Side::Buy, grid, price, bids.len())
    } else if first_order_fault(asks, Side::Sell, grid, price, asks.len()) is Some {
        first_order_fault(asks, Side::Sell, grid, price, asks.len())
    } else if buy != clearing.buy_quantity || sell != clearing.sell_quantity {
        Some(
            AuctionAllocationError::ClearingQuantityMismatch {
                expected_buy: clearing.buy_quantity,
                observed_buy: buy as u128,
                expected_sell: clearing.sell_quantity,
                observed_sell: sell as u128,
            },
        )
    } else if clearing.executable_quantity == 0 {
        Some(AuctionAllocationError::ZeroExecutableQuantity)
    } else {
        None
    }
}

/// The first reason why a request is refused under one policy.
pub open spec fn allocation_fault(
    bids: Seq<AuctionOrder>,
    asks: Seq<AuctionOrder>,
    grid: AuctionPriceGrid,
    clearing: AuctionClearing,
    policy: AuctionAllocationPolicy,
    quantum: u64,
    limits: AuctionAllocationLimits,
) -> Option<AuctionAllocationError> {
    if request_fault(bids, asks, grid, clearing, limits) is Some {
        request_fault(bids, asks, grid, clearing, limits)
    } else if policy == AuctionAllocationPolicy::PriceTime {
        None
    } else if quantum == 0 {
        Some(AuctionAllocationError::InvalidAllocationQuantum(0))
    } else if first_quantum_fault(bids, Side::Buy, quantum, bids.len()) is Some {
        first_quantum_fault(bids, Side::Buy, quantum, bids.len())
    } else {
        first_quantum_fault(asks, Side::Sell, quantum, asks.len())
    }
}

/// Orders that passed validation.
pub open spec fn orders_valid(orders: Seq<AuctionOrder>, side: Side, price: Price) -> bool {
    &&& forall|i: int, j: int|
        0 <= i < j < orders.len() ==> #[trigger] order_before(orders[i], orders[j], side)
    &&& eligible_lots(orders, side, price) <= u128::MAX
}

/// Every quantity is a multiple of the allocation quantum.
pub open spec fn quanta_aligned(orders: Seq<AuctionOrder>, quantum: int) -> bool {
    forall|i: int|
        0 <= i < orders.len() ==> (#[trigger] orders[i]).quantity.lots as int % quantum == 0
}

/// Number of leading orders that a strict-priority allocation reaches.
pub open spec fn price_time_count(orders: Seq<AuctionOrder>, executable: int) -> nat
    decreases orders.len(),
{
    if executable <= 0 || orders.len() == 0 {
        0
    } else if lots_sum(orders.drop_last()) >= executable {
        price_time_count(orders.drop_last(), executable)
    } else {
        orders.len()
    }
}

/// Strict-priority fills: each order takes what its predecessors left.
pub open spec fn price_time_fills(orders: Seq<AuctionOrder>, executable: int) -> Seq<
    AuctionOrderFill,
> {
    Seq::new(
        price_time_count(orders, executable),
        |i: int|
            AuctionOrderFill {
                source_index: i as usize,
                order_id: orders[i].order_id,
                quantity_lots: (if executable - lots_sum(orders.take(i))
                    < orders[i].quantity.lots {
                    executable - lots_sum(orders.take(i))
                } else {
                    orders[i].quantity.lots as int
                }) as u64,
            },
    )
}

/// Whether two orders share one allocation tier.
pub open spec fn same_tier(left: AuctionOrder, right: AuctionOrder) -> bool {
    left.constraint == right.constraint && left.priority_class == right.priority_class
}

/// End of the run of eligible orders that share the tier of `first`.
pub open spec fn tier_end(
    orders: Seq<AuctionOrder>,
    side: Side,
    price: Price,
    first: AuctionOrder,
    index: int,
) -> int
    decreases orders.len() - index,
{
    if 0 <= index < orders.len() && eligible(orders[index], side, price) && same_tier(
        first,
        orders[index],
    ) {
        tier_end(orders, side, price, first, index + 1)
    } else {
        index
    }
}

/// Complete fills of the orders in `[start, end)`.
pub open spec fn full_fills(orders: Seq<AuctionOrder>, start: int, end: int) -> Seq<
    AuctionOrderFill,
> {
    Seq::new(
        (end - start) as nat,
        |k: int|
            AuctionOrderFill {
                source_index: (start + k) as usize,
                order_id: orders[start + k].order_id,
                quantity_lots: orders[start + k].quantity.lots,
            },
    )
}

/// Whole quanta of one order.
pub open spec fn order_quanta(order: AuctionOrder, quantum: int) -> int {
    order.quantity.lots as int / quantum
}

/// Floored proportional share of one order, in quanta.
pub open spec fn base_quanta(
    order: AuctionOrder,
    quantum: int,
    remaining_quanta: int,
    tier_quanta: int,
) -> int {
    (order_quanta(order, quantum) * remaining_quanta) / tier_quanta
}

/// Sum of the floored shares of the orders in `[index, end)`.
pub open spec fn base_sum(
    orders: Seq<AuctionOrder>,
    index: int,
    end: int,
    quantum: int,
    remaining_quanta: int,
    tier_quanta: int,
) -> int
    decreases end - index,
{
    if index >= end {
        0
    } else {
        base_quanta(orders[index], quantum, remaining_quanta, tier_quanta) + base_sum(
            orders,
            index + 1,
            end,
            quantum,
            remaining_quanta,
            tier_quanta,
        )
    }
}

/// Number of orders in `[start, index)` that hold at least one quantum.
pub open spec fn quantum_holders(
    orders: Seq<AuctionOrder>,
    start: int,
    index: int,
    quantum: int,
) -> int
    decreases index - start,
{
    if index <= start {
        0
    } else {
        quantum_holders(orders, start, index - 1, quantum) + if order_quanta(
            orders[index - 1],
            quantum,
        ) > 0 {
            1int
        } else {
            0
        }
    }
}

/// Quanta of one order of the marginal tier that begins at `start`: its floored
/// share, and one quantum more if it is among the first `residual` orders that
/// hold a quantum.
pub open spec fn marginal_quanta(
    orders: Seq<AuctionOrder>,
    start: int,
    index: int,
    quantum: int,
    remaining_quanta: int,
    tier_quanta: int,
    residual: int,
) -> int {
    let first = order_quanta(orders[index], quantum) > 0 && quantum_holders(
        orders,
        start,
        index,
        quantum,
    ) < residual;
    base_quanta(orders[index], quantum, remaining_quanta, tier_quanta) + if first {
        1int
    } else {
        0
    }
}

/// Fills of the marginal tier that begins at `start`, from `index` on: the quanta
/// of each order, where there are any.
pub open spec fn marginal_fills(
    orders: Seq<AuctionOrder>,
    start: int,
    index: int,
    end: int,
    quantum: int,
    remaining_quanta: int,
    tier_quanta: int,
    residual: int,
) -> Seq<AuctionOrderFill>
    decreases end - index,
{
    if index >= end {
        Seq::empty()
    } else {
        let quanta = marginal_quanta(
            orders,
            start,
            index,
            quantum,
            remaining_quanta,
            tier_quanta,
            residual,
        );
        let rest = marginal_fills(
            orders,
            start,
            index + 1,
            end,
            quantum,
            remaining_quanta,
            tier_quanta,
            residual,
        );
        if quanta == 0 {
            rest
        } else {
            seq![
                AuctionOrderFill {
                    source_index: index as usize,
                    order_id: orders[index].order_id,
                    quantity_lots: (quanta * quantum) as u64,
                },
            ] + rest
        }
    }
}

/// Tiered pro-rata fills from `start` on: better tiers fill completely, and the
/// marginal tier shares what is left.
pub open spec fn pro_rata_fills(
    orders: Seq<AuctionOrder>,
    side: Side,
    price: Price,
    quantum: int,
    start: int,
    remaining: int,
) -> Seq<AuctionOrderFill>
    decreases orders.len() - start,
{
    if remaining <= 0 || start < 0 || start >= orders.len() || !eligible(
        orders[start],
        side,
        price,
    ) {
        Seq::empty()
    } else {
        let end = tier_end(orders, side, price, orders[start], start + 1);
        let tier = lots_sum(orders.subrange(start, end));
        if end <= start || end > orders.len() {
            Seq::empty()
        } else if remaining >= tier {
            full_fills(orders, start, end) + pro_rata_fills(
                orders,
                side,
                price,
                quantum,
                end,
                remaining - tier,
            )
        } else {
            let remaining_quanta = remaining / quantum;
            let tier_quanta = tier / quantum;
            marginal_fills(
                orders,
                start,
                start,
                end,
                quantum,
                remaining_quanta,
                tier_quanta,
                remaining_quanta - base_sum(
                    orders,
                    start,
                    end,
                    quantum,
                    remaining_quanta,
                    tier_quanta,
                ),
            )
        }
    }
}

/// The fills of one side under one policy.
pub open spec fn policy_fills(
    orders: Seq<AuctionOrder>,
    side: Side,
    price: Price,
    executable: int,
    policy: AuctionAllocationPolicy,
    quantum: int,
) -> Seq<AuctionOrderFill> {
    match policy {
        AuctionAllocationPolicy::PriceTime => price_time_fills(orders, executable),
        AuctionAllocationPolicy::ProRataTime => pro_rata_fills(
            orders,
            side,
            price,
            quantum,
            0,
            executable,
        ),
    }
}

/// Sum of the fill quantities.
pub open spec fn fill_lots(fills: Seq<AuctionOrderFill>) -> int
    decreases fills.len(),
{
    if fills.len() == 0 {
        0
    } else {
        fill_lots(fills.drop_last()) + fills.last().quantity_lots
    }
}

/// Every fill is positive, fits its source order, and follows its predecessors.
pub open spec fn fills_sound(orders: Seq<AuctionOrder>, fills: Seq<AuctionOrderFill>) -> bool {
    &&& forall|k: int|
        0 <= k < fills.len() ==> {
            let fill = #[trigger] fills[k];
            &&& fill.source_index < orders.len()
            &&& fill.order_id == orders[fill.source_index as int].order_id
            &&& 0 < fill.quantity_lots <= orders[fill.source_index as int].quantity.lots
        }
    &&& forall|j: int, k: int|
        0 <= j < k < fills.len() ==> (#[trigger] fills[j]).source_index < (
        #[trigger] fills[k]).source_index
}

// Facts about the model

/// Canonical priority is transitive.
pub proof fn law_priority_transitive(
    first: AuctionOrder,
    second: AuctionOrder,
    third: AuctionOrder,
    side: Side,
)
    requires
        order_before(first, second, side),
        order_before(second, third, side),
    ensures
        order_before(first, third, side),
{
}

/// Two orders with different identities are ordered one way and not the other.
pub proof fn law_priority_total(left: AuctionOrder, right: AuctionOrder, side: Side)
    requires
        left.order_id != right.order_id,
    ensures
        order_before(left, right, side) <==> !order_before(right, left, side),
{
    assert(left.order_id.value != right.order_id.value);
}

/// An order that precedes an eligible order is eligible.
pub(crate) proof fn lemma_eligible_downward(left: AuctionOrder, right: AuctionOrder, side: Side, price: Price)
    requires
        order_before(left, right, side),
        eligible(right, side, price),
    ensures
        eligible(left, side, price),
{
}

pub(crate) proof fn lemma_lots_push(orders: Seq<AuctionOrder>, index: int)
    requires
        0 <= index < orders.len(),
    ensures
        lots_sum(orders.take(index + 1)) == lots_sum(orders.take(index))
            + orders[index].quantity.lots,
{
    assert(orders.take(index + 1).drop_last() =~= orders.take(index));
}

proof fn lemma_lots_nonnegative(orders: Seq<AuctionOrder>)
    ensures
        0 <= lots_sum(orders),
    decreases orders.len(),
{
    if orders.len() > 0 {
        lemma_lots_nonnegative(orders.drop_last());
    }
}

pub(crate) proof fn lemma_lots_split(orders: Seq<AuctionOrder>, start: int, end: int)
    requires
        0 <= start <= end <= orders.len(),
    ensures
        lots_sum(orders.take(end)) == lots_sum(orders.take(start)) + lots_sum(
            orders.subrange(start, end),
        ),
        0 <= lots_sum(orders.subrange(start, end)),
    decreases end - start,
{
    lemma_lots_nonnegative(orders.subrange(start, end));
    if start == end {
        assert(orders.subrange(start, end) =~= Seq::<AuctionOrder>::empty());
    } else {
        lemma_lots_split(orders, start, end - 1);
        lemma_lots_push(orders, end - 1);
        assert(orders.subrange(start, end).drop_last() =~= orders.subrange(start, end - 1));
    }
}

proof fn lemma_eligible_push(orders: Seq<AuctionOrder>, side: Side, price: Price, index: int)
    requires
        0 <= index < orders.len(),
    ensures
        eligible_lots(orders.take(index + 1), side, price) == eligible_lots(
            orders.take(index),
            side,
            price,
        ) + if eligible(orders[index], side, price) {
            orders[index].quantity.lots as int
        } else {
            0
        },
{
    assert(orders.take(index + 1).drop_last() =~= orders.take(index));
}

/// Leading eligible orders contribute their whole quantity.
pub(crate) proof fn lemma_eligible_prefix(orders: Seq<AuctionOrder>, side: Side, price: Price, count: int)
    requires
        0 <= count <= orders.len(),
        forall|i: int| 0 <= i < count ==> eligible(#[trigger] orders[i], side, price),
    ensures
        eligible_lots(orders.take(count), side, price) == lots_sum(orders.take(count)),
        lots_sum(orders.take(count)) <= eligible_lots(orders, side, price),
    decreases count,
{
    lemma_eligible_rest(orders, side, price, count);
    if count > 0 {
        lemma_eligible_prefix(orders, side, price, count - 1);
        lemma_eligible_push(orders, side, price, count - 1);
        lemma_lots_push(orders, count - 1);
    } else {
        assert(orders.take(0) =~= Seq::<AuctionOrder>::empty());
    }
}

pub(crate) proof fn lemma_eligible_rest(orders: Seq<AuctionOrder>, side: Side, price: Price, count: int)
    requires
        0 <= count <= orders.len(),
    ensures
        eligible_lots(orders.take(count), side, price) <= eligible_lots(orders, side, price),
    decreases orders.len() - count,
{
    if count < orders.len() {
        lemma_eligible_rest(orders, side, price, count + 1);
        lemma_eligible_push(orders, side, price, count);
    } else {
        assert(orders.take(count) =~= orders);
    }
}

/// Once canonical orders stop being eligible, none follows.
proof fn lemma_eligible_stops(orders: Seq<AuctionOrder>, side: Side, price: Price, count: int, end: int)
    requires
        0 <= count <= end <= orders.len(),
        orders_valid(orders, side, price),
        forall|i: int| 0 <= i < count ==> eligible(#[trigger] orders[i], side, price),
        count < orders.len() ==> !eligible(orders[count], side, price),
    ensures
        eligible_lots(orders.take(end), side, price) == lots_sum(orders.take(count)),
    decreases end,
{
    if end == count {
        lemma_eligible_prefix(orders, side, price, count);
    } else {
        lemma_eligible_stops(orders, side, price, count, end - 1);
        lemma_eligible_push(orders, side, price, end - 1);
        if eligible(orders[end - 1], side, price) && end - 1 > count {
            assert(order_before(orders[count], orders[end - 1], side));
            lemma_eligible_downward(orders[count], orders[end - 1], side, price);
        }
    }
}

/// While eligible quantity remains after `count` eligible orders, the next
/// order exists and is eligible.
proof fn lemma_next_is_eligible(orders: Seq<AuctionOrder>, side: Side, price: Price, count: int)
    requires
        0 <= count <= orders.len(),
        orders_valid(orders, side, price),
        forall|i: int| 0 <= i < count ==> eligible(#[trigger] orders[i], side, price),
        lots_sum(orders.take(count)) < eligible_lots(orders, side, price),
    ensures
        count < orders.len(),
        eligible(orders[count], side, price),
{
    if count == orders.len() || !eligible(orders[count], side, price) {
        lemma_eligible_stops(orders, side, price, count, orders.len() as int);
        assert(orders.take(orders.len() as int) =~= orders);
    }
}

pub(crate) proof fn lemma_orders_valid(
    orders: Seq<AuctionOrder>,
    side: Side,
    grid: AuctionPriceGrid,
    price: Price,
    count: nat,
)
    requires
        count <= orders.len(),
        first_order_fault(orders, side, grid, price, count) is None,
    ensures
        orders_valid(orders.take(count as int), side, price),
    decreases count,
{
    if count > 0 {
        lemma_orders_valid(orders, side, grid, price, (count - 1) as nat);
        let prefix = orders.take(count as int);
        let shorter = orders.take(count - 1);
        assert(order_fault(orders, side, grid, price, count - 1) is None);
        assert forall|i: int, j: int| 0 <= i < j < prefix.len() implies #[trigger] order_before(
            prefix[i],
            prefix[j],
            side,
        ) by {
            assert(shorter[i] == prefix[i]);
            if j < count - 1 {
                assert(shorter[j] == prefix[j]);
                assert(order_before(shorter[i], shorter[j], side));
            } else if i < count - 2 {
                assert(shorter[count - 2] == prefix[count - 2]);
                assert(order_before(shorter[i], shorter[count - 2], side));
                law_priority_transitive(prefix[i], prefix[count - 2], prefix[j], side);
            }
        }
    } else {
        assert(orders.take(0) =~= Seq::<AuctionOrder>::empty());
    }
}

proof fn lemma_first_order_fault_persists(
    orders: Seq<AuctionOrder>,
    side: Side,
    grid: AuctionPriceGrid,
    price: Price,
    count: nat,
    total: nat,
)
    requires
        count <= total,
        first_order_fault(orders, side, grid, price, count) is Some,
    ensures
        first_order_fault(orders, side, grid, price, total) == first_order_fault(
            orders,
            side,
            grid,
            price,
            count,
        ),
    decreases total,
{
    if count < total {
        lemma_first_order_fault_persists(orders, side, grid, price, count, (total - 1) as nat);
    }
}

proof fn lemma_first_quantum_fault_persists(
    orders: Seq<AuctionOrder>,
    side: Side,
    quantum: u64,
    count: nat,
    total: nat,
)
    requires
        count <= total,
        first_quantum_fault(orders, side, quantum, count) is Some,
    ensures
        first_quantum_fault(orders, side, quantum, total) == first_quantum_fault(
            orders,
            side,
            quantum,
            count,
        ),
    decreases total,
{
    if count < total {
        lemma_first_quantum_fault_persists(orders, side, quantum, count, (total - 1) as nat);
    }
}

pub(crate) proof fn lemma_multiple_sum(left: int, right: int, quantum: int)
    requires
        quantum > 0,
        left % quantum == 0,
        right % quantum == 0,
    ensures
        (left + right) % quantum == 0,
        (left - right) % quantum == 0,
{
    vstd::arithmetic::div_mod::lemma_fundamental_div_mod(left, quantum);
    vstd::arithmetic::div_mod::lemma_fundamental_div_mod(right, quantum);
    let a = left / quantum;
    let b = right / quantum;
    assert(left + right == (a + b) * quantum && left - right == (a - b) * quantum)
        by (nonlinear_arith)
        requires
            left == quantum * a,
            right == quantum * b,
    ;
    vstd::arithmetic::div_mod::lemma_mod_multiples_basic(a + b, quantum);
    vstd::arithmetic::div_mod::lemma_mod_multiples_basic(a - b, quantum);
}

/// Eligible totals of quantum-aligned orders are quantum aligned.
pub(crate) proof fn lemma_eligible_aligned(
    orders: Seq<AuctionOrder>,
    side: Side,
    price: Price,
    quantum: int,
)
    requires
        quantum > 0,
        quanta_aligned(orders, quantum),
    ensures
        eligible_lots(orders, side, price) % quantum == 0,
    decreases orders.len(),
{
    if orders.len() > 0 {
        let shorter = orders.drop_last();
        assert forall|i: int| 0 <= i < shorter.len() implies (
        #[trigger] shorter[i]).quantity.lots as int % quantum == 0 by {
            assert(shorter[i] == orders[i]);
        }
        lemma_eligible_aligned(shorter, side, price, quantum);
        assert(orders[orders.len() - 1].quantity.lots as int % quantum == 0);
        lemma_multiple_sum(
            eligible_lots(shorter, side, price),
            orders.last().quantity.lots as int,
            quantum,
        );
    } else {
        vstd::arithmetic::div_mod::lemma_small_mod(0, quantum as nat);
    }
}

/// Totals of quantum-aligned runs are quantum aligned.
proof fn lemma_lots_aligned(orders: Seq<AuctionOrder>, quantum: int)
    requires
        quantum > 0,
        quanta_aligned(orders, quantum),
    ensures
        lots_sum(orders) % quantum == 0,
    decreases orders.len(),
{
    if orders.len() > 0 {
        let shorter = orders.drop_last();
        assert forall|i: int| 0 <= i < shorter.len() implies (
        #[trigger] shorter[i]).quantity.lots as int % quantum == 0 by {
            assert(shorter[i] == orders[i]);
        }
        lemma_lots_aligned(shorter, quantum);
        assert(orders[orders.len() - 1].quantity.lots as int % quantum == 0);
        lemma_multiple_sum(lots_sum(shorter), orders.last().quantity.lots as int, quantum);
    } else {
        vstd::arithmetic::div_mod::lemma_small_mod(0, quantum as nat);
    }
}

pub(crate) proof fn lemma_tier_end(
    orders: Seq<AuctionOrder>,
    side: Side,
    price: Price,
    first: AuctionOrder,
    index: int,
)
    requires
        0 <= index <= orders.len(),
    ensures
        index <= tier_end(orders, side, price, first, index) <= orders.len(),
        forall|i: int|
            index <= i < tier_end(orders, side, price, first, index) ==> eligible(
                #[trigger] orders[i],
                side,
                price,
            ),
    decreases orders.len() - index,
{
    if index < orders.len() && eligible(orders[index], side, price) && same_tier(
        first,
        orders[index],
    ) {
        lemma_tier_end(orders, side, price, first, index + 1);
    }
}

/// Whole quanta of the orders in `[index, end)`.
pub(crate) open spec fn quanta_sum(orders: Seq<AuctionOrder>, index: int, end: int, quantum: int) -> int
    decreases end - index,
{
    if index >= end {
        0
    } else {
        order_quanta(orders[index], quantum) + quanta_sum(orders, index + 1, end, quantum)
    }
}

proof fn lemma_quanta_sum(orders: Seq<AuctionOrder>, index: int, end: int, quantum: int)
    requires
        0 <= index <= end <= orders.len(),
        quantum > 0,
        quanta_aligned(orders, quantum),
    ensures
        quantum * quanta_sum(orders, index, end, quantum) == lots_sum(
            orders.subrange(index, end),
        ),
        quanta_sum(orders, index, end, quantum) == lots_sum(orders.subrange(index, end)) / quantum,
        0 <= quanta_sum(orders, index, end, quantum),
    decreases end - index,
{
    if index < end {
        lemma_quanta_sum(orders, index + 1, end, quantum);
        lemma_lots_split(orders, index, end);
        lemma_lots_split(orders, index + 1, end);
        lemma_lots_push(orders, index);
        let lots = orders[index].quantity.lots as int;
        assert(lots % quantum == 0);
        vstd::arithmetic::div_mod::lemma_fundamental_div_mod(lots, quantum);
        vstd::arithmetic::div_mod::lemma_div_pos_is_pos(lots, quantum);
        assert(quantum * (order_quanta(orders[index], quantum) + quanta_sum(
            orders,
            index + 1,
            end,
            quantum,
        )) == quantum * order_quanta(orders[index], quantum) + quantum * quanta_sum(
            orders,
            index + 1,
            end,
            quantum,
        )) by (nonlinear_arith);
    } else {
        assert(orders.subrange(index, end) =~= Seq::<AuctionOrder>::empty());
        assert(quantum * 0 == 0) by (nonlinear_arith);
    }
    vstd::arithmetic::div_mod::lemma_div_by_multiple(
        quanta_sum(orders, index, end, quantum),
        quantum,
    );
    assert(quantum * quanta_sum(orders, index, end, quantum) == quanta_sum(
        orders,
        index,
        end,
        quantum,
    ) * quantum) by (nonlinear_arith);
}

/// The floored share of one order is below its whole quantity.
pub(crate) proof fn lemma_base_bounds(order: AuctionOrder, quantum: int, remaining: int, tier: int)
    requires
        quantum > 0,
        0 <= remaining < tier,
    ensures
        0 <= base_quanta(order, quantum, remaining, tier) <= order_quanta(order, quantum),
        order_quanta(order, quantum) > 0 ==> base_quanta(order, quantum, remaining, tier)
            < order_quanta(order, quantum),
        0 <= order_quanta(order, quantum),
        order_quanta(order, quantum) * quantum <= order.quantity.lots,
        tier * base_quanta(order, quantum, remaining, tier) <= order_quanta(order, quantum)
            * remaining,
        order_quanta(order, quantum) * remaining - tier * base_quanta(
            order,
            quantum,
            remaining,
            tier,
        ) <= tier - 1,
{
    let quanta = order_quanta(order, quantum);
    let lots = order.quantity.lots as int;
    vstd::arithmetic::div_mod::lemma_div_pos_is_pos(lots, quantum);
    vstd::arithmetic::div_mod::lemma_fundamental_div_mod(lots, quantum);
    vstd::arithmetic::div_mod::lemma_mod_bound(lots, quantum);
    assert(quanta * quantum == quantum * quanta) by (nonlinear_arith);
    let product = quanta * remaining;
    assert(0 <= product) by (nonlinear_arith)
        requires
            quanta >= 0,
            remaining >= 0,
            product == quanta * remaining,
    ;
    vstd::arithmetic::div_mod::lemma_fundamental_div_mod(product, tier);
    vstd::arithmetic::div_mod::lemma_mod_bound(product, tier);
    vstd::arithmetic::div_mod::lemma_div_pos_is_pos(product, tier);
    let base = product / tier;
    assert(base <= quanta && (quanta > 0 ==> base < quanta)) by (nonlinear_arith)
        requires
            tier * base <= quanta * remaining,
            0 <= remaining < tier,
            quanta >= 0,
            base >= 0,
    ;
}

/// The floored shares leave no more quanta than there are orders to take them.
pub(crate) proof fn lemma_base_sum(
    orders: Seq<AuctionOrder>,
    start: int,
    index: int,
    end: int,
    quantum: int,
    remaining: int,
    tier: int,
)
    requires
        0 <= start <= index <= end <= orders.len(),
        quantum > 0,
        0 <= remaining < tier,
    ensures
        0 <= base_sum(orders, index, end, quantum, remaining, tier),
        quantum_holders(orders, start, index, quantum) <= quantum_holders(
            orders,
            start,
            end,
            quantum,
        ),
        tier * base_sum(orders, index, end, quantum, remaining, tier) <= quanta_sum(
            orders,
            index,
            end,
            quantum,
        ) * remaining,
        quanta_sum(orders, index, end, quantum) * remaining - tier * base_sum(
            orders,
            index,
            end,
            quantum,
            remaining,
            tier,
        ) <= (tier - 1) * (quantum_holders(orders, start, end, quantum) - quantum_holders(
            orders,
            start,
            index,
            quantum,
        )),
    decreases end - index,
{
    if index < end {
        lemma_base_sum(orders, start, index + 1, end, quantum, remaining, tier);
        lemma_base_bounds(orders[index], quantum, remaining, tier);
        let q = order_quanta(orders[index], quantum);
        let b = base_quanta(orders[index], quantum, remaining, tier);
        let qs = quanta_sum(orders, index + 1, end, quantum);
        let bs = base_sum(orders, index + 1, end, quantum, remaining, tier);
        let n = quantum_holders(orders, start, end, quantum) - quantum_holders(
            orders,
            start,
            index + 1,
            quantum,
        );
        let one: int = if q > 0 {
            1
        } else {
            0
        };
        assert((q + qs) * remaining == q * remaining + qs * remaining) by (nonlinear_arith);
        assert(tier * (b + bs) == tier * b + tier * bs) by (nonlinear_arith);
        assert((tier - 1) * (one + n) == (tier - 1) * one + (tier - 1) * n) by (nonlinear_arith);
        if q == 0 {
            assert(q * remaining == 0) by (nonlinear_arith)
                requires
                    q == 0,
            ;
            assert(tier * b >= 0) by (nonlinear_arith)
                requires
                    tier > 0,
                    b >= 0,
            ;
            assert((tier - 1) * one == 0) by (nonlinear_arith)
                requires
                    one == 0,
            ;
        } else {
            assert((tier - 1) * one == tier - 1) by (nonlinear_arith)
                requires
                    one == 1,
            ;
        }
    } else {
        assert(tier * 0 == 0) by (nonlinear_arith);
        assert((tier - 1) * 0 == 0) by (nonlinear_arith);
        assert(0 * remaining == 0) by (nonlinear_arith);
    }
}

/// The residual of the marginal tier fits the orders that can still grow.
pub(crate) proof fn lemma_residual(
    orders: Seq<AuctionOrder>,
    start: int,
    end: int,
    quantum: int,
    remaining: int,
    tier: int,
)
    requires
        0 <= start <= end <= orders.len(),
        quantum > 0,
        0 <= remaining < tier,
        tier == quanta_sum(orders, start, end, quantum),
    ensures
        0 <= remaining - base_sum(orders, start, end, quantum, remaining, tier) <= quantum_holders(
            orders,
            start,
            end,
            quantum,
        ),
{
    lemma_base_sum(orders, start, start, end, quantum, remaining, tier);
    let bs = base_sum(orders, start, end, quantum, remaining, tier);
    let n = quantum_holders(orders, start, end, quantum);
    assert(0 <= remaining - bs <= n) by (nonlinear_arith)
        requires
            tier > 0,
            n >= 0,
            tier * bs <= tier * remaining,
            tier * remaining - tier * bs <= (tier - 1) * n,
    ;
}

proof fn lemma_fill_lots_concat(left: Seq<AuctionOrderFill>, right: Seq<AuctionOrderFill>)
    ensures
        fill_lots(left + right) == fill_lots(left) + fill_lots(right),
    decreases right.len(),
{
    if right.len() == 0 {
        assert(left + right =~= left);
    } else {
        lemma_fill_lots_concat(left, right.drop_last());
        assert((left + right).drop_last() =~= left + right.drop_last());
    }
}

/// Concatenated sound fills are sound when the right part starts after the left.
proof fn lemma_fills_sound_concat(
    orders: Seq<AuctionOrder>,
    left: Seq<AuctionOrderFill>,
    right: Seq<AuctionOrderFill>,
    bound: int,
)
    requires
        fills_sound(orders, left),
        fills_sound(orders, right),
        forall|k: int| 0 <= k < left.len() ==> (#[trigger] left[k]).source_index < bound,
        forall|k: int| 0 <= k < right.len() ==> (#[trigger] right[k]).source_index >= bound,
    ensures
        fills_sound(orders, left + right),
{
    let joined = left + right;
    assert forall|k: int| 0 <= k < joined.len() implies {
        let fill = #[trigger] joined[k];
        &&& fill.source_index < orders.len()
        &&& fill.order_id == orders[fill.source_index as int].order_id
        &&& 0 < fill.quantity_lots <= orders[fill.source_index as int].quantity.lots
    } by {
        if k < left.len() {
            assert(joined[k] == left[k]);
        } else {
            assert(joined[k] == right[k - left.len()]);
        }
    }
    assert forall|j: int, k: int| 0 <= j < k < joined.len() implies (
    #[trigger] joined[j]).source_index < (#[trigger] joined[k]).source_index by {
        if k < left.len() {
            assert(joined[j] == left[j] && joined[k] == left[k]);
        } else if j < left.len() {
            assert(joined[j] == left[j] && joined[k] == right[k - left.len()]);
        } else {
            assert(joined[j] == right[j - left.len()] && joined[k] == right[k - left.len()]);
        }
    }
}

/// Every order holds at least one lot, and indexes fit their representation.
pub open spec fn orders_positive(orders: Seq<AuctionOrder>) -> bool {
    &&& orders.len() <= usize::MAX
    &&& forall|i: int| 0 <= i < orders.len() ==> (#[trigger] orders[i]).quantity.wf()
}

proof fn lemma_full_fills(orders: Seq<AuctionOrder>, start: int, end: int)
    requires
        0 <= start <= end <= orders.len(),
    ensures
        fill_lots(full_fills(orders, start, end)) == lots_sum(orders.subrange(start, end)),
    decreases end - start,
{
    if start == end {
        assert(full_fills(orders, start, end) =~= Seq::<AuctionOrderFill>::empty());
        assert(orders.subrange(start, end) =~= Seq::<AuctionOrder>::empty());
    } else {
        lemma_full_fills(orders, start, end - 1);
        assert(full_fills(orders, start, end).drop_last() =~= full_fills(orders, start, end - 1));
        assert(orders.subrange(start, end).drop_last() =~= orders.subrange(start, end - 1));
        assert(orders.subrange(start, end).last() == orders[end - 1]);
    }
}

/// What orders that take one quantum each leave of the residual.
spec fn residual_left(residual: int, taken: int) -> int {
    if taken < residual {
        residual - taken
    } else {
        0
    }
}

proof fn lemma_marginal_fills(
    orders: Seq<AuctionOrder>,
    start: int,
    index: int,
    end: int,
    quantum: int,
    remaining: int,
    tier: int,
    residual: int,
)
    requires
        0 <= start <= index <= end <= orders.len(),
        quantum > 0,
        0 <= remaining < tier,
        0 <= residual <= quantum_holders(orders, start, end, quantum),
        orders.len() <= usize::MAX,
    ensures
        ({
            let fills = marginal_fills(
                orders,
                start,
                index,
                end,
                quantum,
                remaining,
                tier,
                residual,
            );
            &&& fill_lots(fills) == quantum * (base_sum(
                orders,
                index,
                end,
                quantum,
                remaining,
                tier,
            ) + residual_left(residual, quantum_holders(orders, start, index, quantum)))
            &&& fills_sound(orders, fills)
            &&& forall|k: int|
                0 <= k < fills.len() ==> {
                    let fill = #[trigger] fills[k];
                    index <= fill.source_index < end && fill.quantity_lots as int % quantum == 0
                }
        }),
    decreases end - index,
{
    let fills = marginal_fills(orders, start, index, end, quantum, remaining, tier, residual);
    if index < end {
        let order = orders[index];
        lemma_base_bounds(order, quantum, remaining, tier);
        lemma_base_sum(orders, start, index + 1, end, quantum, remaining, tier);
        let share = marginal_quanta(orders, start, index, quantum, remaining, tier, residual);
        let rest = marginal_fills(
            orders,
            start,
            index + 1,
            end,
            quantum,
            remaining,
            tier,
            residual,
        );
        lemma_marginal_fills(orders, start, index + 1, end, quantum, remaining, tier, residual);
        let others = base_sum(orders, index + 1, end, quantum, remaining, tier) + residual_left(
            residual,
            quantum_holders(orders, start, index + 1, quantum),
        );
        assert(quantum * (share + others) == quantum * share + quantum * others)
            by (nonlinear_arith);
        if share == 0 {
            assert(quantum * share == 0) by (nonlinear_arith)
                requires
                    share == 0,
            ;
        } else {
            let quanta = order_quanta(order, quantum);
            assert(0 < share * quantum <= quanta * quantum) by (nonlinear_arith)
                requires
                    0 < share <= quanta,
                    quantum > 0,
            ;
            assert(share * quantum == quantum * share) by (nonlinear_arith);
            vstd::arithmetic::div_mod::lemma_mod_multiples_basic(share, quantum);
            let head = seq![
                AuctionOrderFill {
                    source_index: index as usize,
                    order_id: order.order_id,
                    quantity_lots: (share * quantum) as u64,
                },
            ];
            assert(fills == head + rest);
            assert(head.drop_last() =~= Seq::<AuctionOrderFill>::empty());
            assert(fill_lots(head) == share * quantum) by {
                assert(fill_lots(head.drop_last()) == 0);
            }
            lemma_fill_lots_concat(head, rest);
            lemma_fills_sound_concat(orders, head, rest, index + 1);
            assert forall|k: int| 0 <= k < fills.len() implies {
                let fill = #[trigger] fills[k];
                index <= fill.source_index < end && fill.quantity_lots as int % quantum == 0
            } by {
                if k > 0 {
                    assert(fills[k] == rest[k - 1]);
                }
            }
        }
    } else {
        assert(quantum * 0 == 0) by (nonlinear_arith);
    }
}

/// What a pro-rata walk needs to know of its side.
pub open spec fn pro_rata_ready(
    orders: Seq<AuctionOrder>,
    side: Side,
    price: Price,
    quantum: int,
    start: int,
    remaining: int,
) -> bool {
    &&& quantum > 0
    &&& orders_valid(orders, side, price)
    &&& quanta_aligned(orders, quantum)
    &&& 0 <= start <= orders.len()
    &&& forall|i: int| 0 <= i < start ==> eligible(#[trigger] orders[i], side, price)
    &&& 0 <= remaining
    &&& remaining % quantum == 0
    &&& lots_sum(orders.take(start)) + remaining <= eligible_lots(orders, side, price)
}

/// One whole tier keeps a pro-rata walk going.
pub(crate) proof fn lemma_pro_rata_step(
    orders: Seq<AuctionOrder>,
    side: Side,
    price: Price,
    quantum: int,
    start: int,
    remaining: int,
)
    requires
        pro_rata_ready(orders, side, price, quantum, start, remaining),
        remaining > 0,
    ensures
        start < orders.len(),
        eligible(orders[start], side, price),
        ({
            let end = tier_end(orders, side, price, orders[start], start + 1);
            let tier = lots_sum(orders.subrange(start, end));
            &&& start < end <= orders.len()
            &&& lots_sum(orders.take(end)) == lots_sum(orders.take(start)) + tier
            &&& lots_sum(orders.take(end)) <= eligible_lots(orders, side, price)
            &&& 0 <= tier
            &&& tier % quantum == 0
            &&& tier / quantum == quanta_sum(orders, start, end, quantum)
            &&& forall|i: int| 0 <= i < end ==> eligible(#[trigger] orders[i], side, price)
            &&& remaining >= tier ==> pro_rata_ready(
                orders,
                side,
                price,
                quantum,
                end,
                remaining - tier,
            )
            &&& remaining < tier ==> 0 < remaining / quantum < tier / quantum && quantum * (
            remaining / quantum) == remaining
        }),
{
    lemma_next_is_eligible(orders, side, price, start);
    lemma_tier_end(orders, side, price, orders[start], start + 1);
    let end = tier_end(orders, side, price, orders[start], start + 1);
    let run = orders.subrange(start, end);
    let tier = lots_sum(run);
    lemma_lots_split(orders, start, end);
    lemma_eligible_prefix(orders, side, price, end);
    assert forall|i: int| 0 <= i < run.len() implies (#[trigger] run[i]).quantity.lots as int
        % quantum == 0 by {
        assert(run[i] == orders[start + i]);
    }
    lemma_lots_aligned(run, quantum);
    lemma_quanta_sum(orders, start, end, quantum);
    lemma_multiple_sum(remaining, tier, quantum);
    vstd::arithmetic::div_mod::lemma_fundamental_div_mod(remaining, quantum);
    vstd::arithmetic::div_mod::lemma_fundamental_div_mod(tier, quantum);
    let r = remaining / quantum;
    let t = tier / quantum;
    assert(remaining < tier ==> 0 < r < t) by (nonlinear_arith)
        requires
            quantum > 0,
            remaining == quantum * r,
            tier == quantum * t,
            remaining > 0,
    ;
}

/// Pro-rata fills distribute exactly the remaining quantity.
proof fn lemma_pro_rata_fills(
    orders: Seq<AuctionOrder>,
    side: Side,
    price: Price,
    quantum: int,
    start: int,
    remaining: int,
)
    requires
        pro_rata_ready(orders, side, price, quantum, start, remaining),
        orders_positive(orders),
    ensures
        fill_lots(pro_rata_fills(orders, side, price, quantum, start, remaining)) == remaining,
        fills_sound(orders, pro_rata_fills(orders, side, price, quantum, start, remaining)),
        forall|k: int|
            0 <= k < pro_rata_fills(orders, side, price, quantum, start, remaining).len() ==> {
                let fill = #[trigger] pro_rata_fills(
                    orders,
                    side,
                    price,
                    quantum,
                    start,
                    remaining,
                )[k];
                &&& start <= fill.source_index
                &&& fill.quantity_lots as int % quantum == 0
                &&& eligible(orders[fill.source_index as int], side, price)
            },
    decreases orders.len() - start,
{
    let fills = pro_rata_fills(orders, side, price, quantum, start, remaining);
    if remaining > 0 {
        lemma_pro_rata_step(orders, side, price, quantum, start, remaining);
        let end = tier_end(orders, side, price, orders[start], start + 1);
        let tier = lots_sum(orders.subrange(start, end));
        if remaining >= tier {
            let head = full_fills(orders, start, end);
            let rest = pro_rata_fills(orders, side, price, quantum, end, remaining - tier);
            lemma_pro_rata_fills(orders, side, price, quantum, end, remaining - tier);
            lemma_full_fills(orders, start, end);
            lemma_fill_lots_concat(head, rest);
            assert forall|k: int| 0 <= k < head.len() implies {
                let fill = #[trigger] head[k];
                &&& fill.source_index == start + k
                &&& fill.order_id == orders[start + k].order_id
                &&& fill.quantity_lots == orders[start + k].quantity.lots
                &&& 0 < fill.quantity_lots
                &&& fill.quantity_lots as int % quantum == 0
                &&& eligible(orders[start + k], side, price)
            } by {
                assert(orders[start + k].quantity.wf());
            }
            lemma_fills_sound_concat(orders, head, rest, end);
            assert forall|k: int| 0 <= k < fills.len() implies {
                let fill = #[trigger] fills[k];
                &&& start <= fill.source_index
                &&& fill.quantity_lots as int % quantum == 0
                &&& eligible(orders[fill.source_index as int], side, price)
            } by {
                if k < head.len() {
                    assert(fills[k] == head[k]);
                } else {
                    assert(fills[k] == rest[k - head.len()]);
                }
            }
        } else {
            let rq = remaining / quantum;
            let tq = tier / quantum;
            lemma_residual(orders, start, end, quantum, rq, tq);
            let residual = rq - base_sum(orders, start, end, quantum, rq, tq);
            lemma_marginal_fills(orders, start, start, end, quantum, rq, tq, residual);
        }
    }
}

pub(crate) proof fn lemma_price_time_count(orders: Seq<AuctionOrder>, executable: int)
    requires
        0 <= executable <= lots_sum(orders),
    ensures
        price_time_count(orders, executable) <= orders.len(),
        lots_sum(orders.take(price_time_count(orders, executable) as int)) >= executable,
        forall|i: int|
            0 <= i < price_time_count(orders, executable) ==> lots_sum(#[trigger] orders.take(i))
                < executable,
    decreases orders.len(),
{
    let count = price_time_count(orders, executable);
    if executable == 0 || orders.len() == 0 {
        assert(orders.take(0) =~= Seq::<AuctionOrder>::empty());
    } else if lots_sum(orders.drop_last()) >= executable {
        let shorter = orders.drop_last();
        lemma_price_time_count(shorter, executable);
        assert(shorter.take(count as int) =~= orders.take(count as int));
        assert forall|i: int| 0 <= i < count implies lots_sum(#[trigger] orders.take(i))
            < executable by {
            assert(shorter.take(i) =~= orders.take(i));
        }
    } else {
        assert(orders.take(count as int) =~= orders);
        assert forall|i: int| 0 <= i < count implies lots_sum(#[trigger] orders.take(i))
            < executable by {
            lemma_lots_split(orders, i, orders.len() - 1);
            assert(orders.take(orders.len() - 1) =~= orders.drop_last());
        }
    }
}

/// Strict-priority fills distribute exactly the executable quantity.
proof fn lemma_price_time_fills(orders: Seq<AuctionOrder>, executable: int)
    requires
        0 <= executable <= lots_sum(orders),
        orders_positive(orders),
    ensures
        fill_lots(price_time_fills(orders, executable)) == executable,
        fills_sound(orders, price_time_fills(orders, executable)),
{
    lemma_price_time_count(orders, executable);
    let fills = price_time_fills(orders, executable);
    let count = price_time_count(orders, executable) as int;
    assert forall|k: int| 0 <= k < fills.len() implies {
        let fill = #[trigger] fills[k];
        &&& fill.source_index == k
        &&& fill.order_id == orders[k].order_id
        &&& 0 < fill.quantity_lots <= orders[k].quantity.lots
    } by {
        assert(lots_sum(orders.take(k)) < executable);
        assert(orders[k].quantity.wf());
    }
    lemma_price_time_prefix(orders, executable, count);
    assert(fills.take(count) =~= fills);
}

proof fn lemma_price_time_prefix(orders: Seq<AuctionOrder>, executable: int, count: int)
    requires
        0 <= executable <= lots_sum(orders),
        orders_positive(orders),
        0 <= count <= price_time_count(orders, executable),
    ensures
        fill_lots(price_time_fills(orders, executable).take(count)) == (if lots_sum(
            orders.take(count),
        ) < executable {
            lots_sum(orders.take(count))
        } else {
            executable
        }),
    decreases count,
{
    lemma_price_time_count(orders, executable);
    let fills = price_time_fills(orders, executable);
    if count == 0 {
        assert(fills.take(0) =~= Seq::<AuctionOrderFill>::empty());
        assert(orders.take(0) =~= Seq::<AuctionOrder>::empty());
    } else {
        lemma_price_time_prefix(orders, executable, count - 1);
        assert(fills.take(count).drop_last() =~= fills.take(count - 1));
        assert(lots_sum(orders.take(count - 1)) < executable);
        lemma_lots_push(orders, count - 1);
    }
}

/// The executable quantity of a valid side is covered by its leading orders.
pub(crate) proof fn lemma_executable_covered(
    orders: Seq<AuctionOrder>,
    side: Side,
    price: Price,
    count: int,
)
    requires
        0 <= count <= orders.len(),
    ensures
        eligible_lots(orders, side, price) <= lots_sum(orders),
    decreases orders.len(),
{
    if orders.len() > 0 {
        lemma_executable_covered(orders.drop_last(), side, price, 0);
    }
}

/// Under either policy the fills of one side add up to the executable quantity,
/// each is positive and fits its order, and none appears out of priority.
pub proof fn law_fills_reconcile(
    orders: Seq<AuctionOrder>,
    side: Side,
    price: Price,
    executable: int,
    policy: AuctionAllocationPolicy,
    quantum: int,
)
    requires
        orders_positive(orders),
        orders_valid(orders, side, price),
        0 <= executable <= eligible_lots(orders, side, price),
        policy == AuctionAllocationPolicy::ProRataTime ==> quantum > 0 && quanta_aligned(
            orders,
            quantum,
        ) && executable % quantum == 0,
    ensures
        fill_lots(policy_fills(orders, side, price, executable, policy, quantum)) == executable,
        fills_sound(orders, policy_fills(orders, side, price, executable, policy, quantum)),
        forall|k: int|
            0 <= k < policy_fills(orders, side, price, executable, policy, quantum).len()
                ==> eligible(
                orders[(#[trigger] policy_fills(
                    orders,
                    side,
                    price,
                    executable,
                    policy,
                    quantum,
                )[k]).source_index as int],
                side,
                price,
            ),
{
    match policy {
        AuctionAllocationPolicy::PriceTime => {
            lemma_executable_covered(orders, side, price, 0);
            lemma_price_time_fills(orders, executable);
            lemma_price_time_count(orders, executable);
            let fills = price_time_fills(orders, executable);
            assert forall|k: int| 0 <= k < fills.len() implies eligible(
                orders[(#[trigger] fills[k]).source_index as int],
                side,
                price,
            ) by {
                lemma_price_time_eligible(orders, side, price, executable, k);
            }
        },
        AuctionAllocationPolicy::ProRataTime => {
            assert(orders.take(0) =~= Seq::<AuctionOrder>::empty());
            lemma_pro_rata_fills(orders, side, price, quantum, 0, executable);
        },
    }
}

/// Quantum-aligned orders and quantity give quantum-aligned fills.
pub proof fn law_fills_keep_quantum(
    orders: Seq<AuctionOrder>,
    side: Side,
    price: Price,
    executable: int,
    policy: AuctionAllocationPolicy,
    quantum: int,
)
    requires
        orders_positive(orders),
        orders_valid(orders, side, price),
        0 <= executable <= eligible_lots(orders, side, price),
        quantum > 0,
        quanta_aligned(orders, quantum),
        executable % quantum == 0,
    ensures
        forall|k: int|
            0 <= k < policy_fills(orders, side, price, executable, policy, quantum).len() ==> (
            #[trigger] policy_fills(
                orders,
                side,
                price,
                executable,
                policy,
                quantum,
            )[k]).quantity_lots as int % quantum == 0,
{
    match policy {
        AuctionAllocationPolicy::PriceTime => {
            lemma_executable_covered(orders, side, price, 0);
            lemma_price_time_count(orders, executable);
            let fills = price_time_fills(orders, executable);
            assert forall|k: int| 0 <= k < fills.len() implies (
            #[trigger] fills[k]).quantity_lots as int % quantum == 0 by {
                let prefix = orders.take(k);
                assert forall|i: int| 0 <= i < prefix.len() implies (
                #[trigger] prefix[i]).quantity.lots as int % quantum == 0 by {
                    assert(prefix[i] == orders[i]);
                }
                lemma_lots_aligned(prefix, quantum);
                lemma_multiple_sum(executable, lots_sum(prefix), quantum);
                assert(orders[k].quantity.lots as int % quantum == 0);
                assert(lots_sum(orders.take(k)) < executable);
            }
        },
        AuctionAllocationPolicy::ProRataTime => {
            assert(orders.take(0) =~= Seq::<AuctionOrder>::empty());
            lemma_pro_rata_fills(orders, side, price, quantum, 0, executable);
        },
    }
}

/// The orders that strict priority reaches are all eligible.
pub(crate) proof fn lemma_price_time_eligible(
    orders: Seq<AuctionOrder>,
    side: Side,
    price: Price,
    executable: int,
    index: int,
)
    requires
        orders_valid(orders, side, price),
        0 <= executable <= eligible_lots(orders, side, price),
        0 <= index < price_time_count(orders, executable),
        executable <= lots_sum(orders),
    ensures
        eligible(orders[index], side, price),
        forall|i: int| 0 <= i <= index ==> eligible(#[trigger] orders[i], side, price),
    decreases index,
{
    lemma_price_time_count(orders, executable);
    if index > 0 {
        lemma_price_time_eligible(orders, side, price, executable, index - 1);
    }
    assert(lots_sum(orders.take(index)) < executable);
    lemma_next_is_eligible(orders, side, price, index);
}

// Executable allocation

fn is_eligible(order: AuctionOrder, side: Side, clearing_price: Price) -> (r: bool)
    ensures
        r == eligible(order, side, clearing_price),
{
    match order.constraint {
        AuctionOrderConstraint::Market => true,
        AuctionOrderConstraint::Limit(price) => match side {
            Side::Buy => price.raw >= clearing_price.raw,
            Side::Sell => price.raw <= clearing_price.raw,
        },
    }
}

fn priority_precedes(left: AuctionOrder, right: AuctionOrder) -> (r: bool)
    ensures
        r == priority_before(left, right),
{
    if left.priority_class.value != right.priority_class.value {
        left.priority_class.value < right.priority_class.value
    } else if left.priority_sequence != right.priority_sequence {
        left.priority_sequence < right.priority_sequence
    } else {
        left.order_id.value < right.order_id.value
    }
}

/// Returns whether `previous` executes before `current` on one side.
pub(crate) fn precedes(previous: AuctionOrder, current: AuctionOrder, side: Side) -> (r: bool)
    ensures
        r == order_before(previous, current, side),
{
    match (previous.constraint, current.constraint) {
        (AuctionOrderConstraint::Market, AuctionOrderConstraint::Limit(_)) => true,
        (AuctionOrderConstraint::Limit(_), AuctionOrderConstraint::Market) => false,
        (AuctionOrderConstraint::Market, AuctionOrderConstraint::Market) => priority_precedes(
            previous,
            current,
        ),
        (
            AuctionOrderConstraint::Limit(previous_price),
            AuctionOrderConstraint::Limit(price),
        ) => if previous_price == price {
            priority_precedes(previous, current)
        } else {
            match side {
                Side::Buy => previous_price.raw > price.raw,
                Side::Sell => previous_price.raw < price.raw,
            }
        },
    }
}

fn same_allocation_tier(first: AuctionOrder, other: AuctionOrder) -> (r: bool)
    ensures
        r == same_tier(first, other),
{
    first.constraint == other.constraint && first.priority_class == other.priority_class
}

fn validate_order_count(orders: &[AuctionOrder], side: Side, limits: AuctionAllocationLimits) -> (r:
    Result<(), AuctionAllocationError>)
    ensures
        match r {
            Ok(_) => orders@.len() <= limits.max_orders_per_side,
            Err(error) => orders@.len() > limits.max_orders_per_side && error
                == AuctionAllocationError::OrderLimitExceeded {
                side,
                count: orders@.len() as usize,
                maximum: limits.max_orders_per_side,
            },
        },
{
    if orders.len() > limits.max_orders_per_side {
        return Err(
            AuctionAllocationError::OrderLimitExceeded {
                side,
                count: orders.len(),
                maximum: limits.max_orders_per_side,
            },
        );
    }
    Ok(())
}

fn validate_allocation_orders(
    orders: &[AuctionOrder],
    side: Side,
    grid: AuctionPriceGrid,
    clearing_price: Price,
) -> (r: Result<u128, AuctionAllocationError>)
    requires
        grid.wf(),
    ensures
        match r {
            Ok(total) => {
                &&& first_order_fault(
                    orders@,
                    side,
                    grid,
                    clearing_price,
                    orders@.len(),
                ) is None
                &&& total == eligible_lots(orders@, side, clearing_price)
                &&& orders_valid(orders@, side, clearing_price)
            },
            Err(error) => first_order_fault(orders@, side, grid, clearing_price, orders@.len())
                == Some(error),
        },
{
    let mut eligible_quantity: u128 = 0;
    let mut index: usize = 0;
    proof {
        assert(orders@.take(0) =~= Seq::<AuctionOrder>::empty());
    }
    while index < orders.len()
        invariant
            grid.wf(),
            index <= orders@.len(),
            eligible_quantity == eligible_lots(
                orders@.take(index as int),
                side,
                clearing_price,
            ),
            first_order_fault(orders@, side, grid, clearing_price, index as nat) is None,
        decreases orders@.len() - index,
    {
        let order = orders[index];
        proof {
            lemma_eligible_push(orders@, side, clearing_price, index as int);
            assert(first_order_fault(orders@, side, grid, clearing_price, (index + 1) as nat)
                == order_fault(orders@, side, grid, clearing_price, index as int));
            if order_fault(orders@, side, grid, clearing_price, index as int) is Some {
                lemma_first_order_fault_persists(
                    orders@,
                    side,
                    grid,
                    clearing_price,
                    (index + 1) as nat,
                    orders@.len(),
                );
            }
        }
        if let AuctionOrderConstraint::Limit(price) = order.constraint {
            if !grid.contains(price) {
                return Err(AuctionAllocationError::LimitPriceOffGrid { side, index });
            }
        }
        if index > 0 && !precedes(orders[index - 1], order, side) {
            return Err(AuctionAllocationError::NonCanonicalOrders { side, index });
        }
        if is_eligible(order, side, clearing_price) {
            match eligible_quantity.checked_add(order.quantity.lots as u128) {
                Some(sum) => {
                    eligible_quantity = sum;
                },
                None => {
                    return Err(AuctionAllocationError::QuantityOverflow(side));
                },
            }
        }
        index += 1;
    }
    proof {
        assert(orders@.take(index as int) =~= orders@);
        lemma_orders_valid(orders@, side, grid, clearing_price, orders@.len());
    }
    Ok(eligible_quantity)
}

fn validate_allocation_request(
    bids: &[AuctionOrder],
    asks: &[AuctionOrder],
    grid: AuctionPriceGrid,
    clearing: AuctionClearing,
    limits: AuctionAllocationLimits,
) -> (r: Result<(), AuctionAllocationError>)
    requires
        grid.wf(),
    ensures
        match r {
            Ok(_) => request_fault(bids@, asks@, grid, clearing, limits) is None && orders_valid(
                bids@,
                Side::Buy,
                clearing.price,
            ) && orders_valid(asks@, Side::Sell, clearing.price),
            Err(error) => request_fault(bids@, asks@, grid, clearing, limits) == Some(error),
        },
{
    if limits.max_orders_per_side == 0 {
        return Err(AuctionAllocationError::InvalidOrderLimit(0));
    }
    match validate_order_count(bids, Side::Buy, limits) {
        Err(error) => {
            return Err(error);
        },
        Ok(()) => {},
    }
    match validate_order_count(asks, Side::Sell, limits) {
        Err(error) => {
            return Err(error);
        },
        Ok(()) => {},
    }
    if !grid.contains(clearing.price) {
        return Err(AuctionAllocationError::ClearingPriceOffGrid);
    }
    let observed_buy: u128 = match validate_allocation_orders(
        bids,
        Side::Buy,
        grid,
        clearing.price,
    ) {
        Err(error) => {
            return Err(error);
        },
        Ok(total) => total,
    };
    let observed_sell: u128 = match validate_allocation_orders(
        asks,
        Side::Sell,
        grid,
        clearing.price,
    ) {
        Err(error) => {
            return Err(error);
        },
        Ok(total) => total,
    };
    if observed_buy != clearing.buy_quantity || observed_sell != clearing.sell_quantity {
        return Err(
            AuctionAllocationError::ClearingQuantityMismatch {
                expected_buy: clearing.buy_quantity,
                observed_buy,
                expected_sell: clearing.sell_quantity,
                observed_sell,
            },
        );
    }
    if clearing.executable_quantity == 0 {
        return Err(AuctionAllocationError::ZeroExecutableQuantity);
    }
    Ok(())
}

fn validate_allocation_quantum(
    orders: &[AuctionOrder],
    side: Side,
    allocation_quantum_lots: u64,
) -> (r: Result<(), AuctionAllocationError>)
    ensures
        match r {
            Ok(_) => {
                &&& allocation_quantum_lots != 0
                &&& first_quantum_fault(
                    orders@,
                    side,
                    allocation_quantum_lots,
                    orders@.len(),
                ) is None
                &&& quanta_aligned(orders@, allocation_quantum_lots as int)
            },
            Err(error) => if allocation_quantum_lots == 0 {
                error == AuctionAllocationError::InvalidAllocationQuantum(0)
            } else {
                first_quantum_fault(orders@, side, allocation_quantum_lots, orders@.len()) == Some(
                    error,
                )
            },
        },
{
    if allocation_quantum_lots == 0 {
        return Err(AuctionAllocationError::InvalidAllocationQuantum(0));
    }
    let mut index: usize = 0;
    while index < orders.len()
        invariant
            allocation_quantum_lots != 0,
            index <= orders@.len(),
            first_quantum_fault(orders@, side, allocation_quantum_lots, index as nat) is None,
            forall|i: int|
                0 <= i < index ==> (#[trigger] orders@[i]).quantity.lots as int
                    % allocation_quantum_lots as int == 0,
        decreases orders@.len() - index,
    {
        let lots: u64 = orders[index].quantity.lots;
        if lots % allocation_quantum_lots != 0 {
            proof {
                assert(first_quantum_fault(
                    orders@,
                    side,
                    allocation_quantum_lots,
                    (index + 1) as nat,
                ) is Some);
                lemma_first_quantum_fault_persists(
                    orders@,
                    side,
                    allocation_quantum_lots,
                    (index + 1) as nat,
                    orders@.len(),
                );
            }
            return Err(
                AuctionAllocationError::OrderQuantityOffAllocationGrid {
                    side,
                    index,
                    quantity_lots: lots,
                    allocation_quantum_lots,
                },
            );
        }
        index += 1;
    }
    Ok(())
}

/// Number of fills that strict priority needs.
fn required_fill_count(
    orders: &[AuctionOrder],
    side: Side,
    clearing_price: Price,
    executable: u128,
) -> (r: usize)
    requires
        orders_valid(orders@, side, clearing_price),
        executable <= eligible_lots(orders@, side, clearing_price),
    ensures
        r == price_time_count(orders@, executable as int),
{
    let mut remaining: u128 = executable;
    let mut count: usize = 0;
    proof {
        assert(orders@.take(0) =~= Seq::<AuctionOrder>::empty());
        lemma_executable_covered(orders@, side, clearing_price, 0);
        lemma_price_time_count(orders@, executable as int);
    }
    while remaining != 0
        invariant
            orders_valid(orders@, side, clearing_price),
            executable <= eligible_lots(orders@, side, clearing_price),
            executable <= lots_sum(orders@),
            count <= orders@.len(),
            forall|i: int| 0 <= i < count ==> eligible(#[trigger] orders@[i], side, clearing_price),
            remaining > 0 ==> remaining == executable - lots_sum(orders@.take(count as int)),
            remaining == 0 ==> lots_sum(orders@.take(count as int)) >= executable,
            count > 0 ==> lots_sum(orders@.take(count - 1)) < executable,
        decreases orders@.len() - count,
    {
        proof {
            lemma_next_is_eligible(orders@, side, clearing_price, count as int);
            lemma_lots_push(orders@, count as int);
        }
        remaining = remaining.saturating_sub(orders[count].quantity.lots as u128);
        count += 1;
    }
    proof {
        lemma_price_time_count(orders@, executable as int);
        let expected = price_time_count(orders@, executable as int) as int;
        if count > expected {
            lemma_lots_split(orders@, expected, count - 1);
        }
        if expected > count {
            assert(lots_sum(orders@.take(count as int)) < executable);
        }
    }
    count
}

fn append_fills(
    orders: &[AuctionOrder],
    side: Side,
    clearing_price: Price,
    executable: u128,
    fills: &mut Vec<AuctionOrderFill>,
)
    requires
        orders_valid(orders@, side, clearing_price),
        executable <= eligible_lots(orders@, side, clearing_price),
    ensures
        final(fills)@ == old(fills)@ + price_time_fills(orders@, executable as int),
{
    let mut remaining: u128 = executable;
    let mut index: usize = 0;
    let ghost plan = price_time_fills(orders@, executable as int);
    proof {
        assert(orders@.take(0) =~= Seq::<AuctionOrder>::empty());
        lemma_executable_covered(orders@, side, clearing_price, 0);
        lemma_price_time_count(orders@, executable as int);
        assert(plan.take(0) =~= Seq::<AuctionOrderFill>::empty());
        assert(fills@ =~= old(fills)@ + plan.take(0));
    }
    while remaining != 0
        invariant
            orders_valid(orders@, side, clearing_price),
            executable <= eligible_lots(orders@, side, clearing_price),
            executable <= lots_sum(orders@),
            plan == price_time_fills(orders@, executable as int),
            index <= plan.len() <= orders@.len(),
            forall|i: int| 0 <= i < index ==> eligible(#[trigger] orders@[i], side, clearing_price),
            remaining > 0 ==> remaining == executable - lots_sum(orders@.take(index as int)),
            remaining == 0 ==> lots_sum(orders@.take(index as int)) >= executable,
            fills@ == old(fills)@ + plan.take(index as int),
        decreases orders@.len() - index,
    {
        proof {
            lemma_next_is_eligible(orders@, side, clearing_price, index as int);
            lemma_lots_push(orders@, index as int);
            lemma_price_time_count(orders@, executable as int);
            if index == plan.len() {
                assert(lots_sum(orders@.take(index as int)) >= executable);
            }
        }
        let order = orders[index];
        let lots: u128 = order.quantity.lots as u128;
        let fill_quantity: u128 = if remaining < lots {
            remaining
        } else {
            lots
        };
        fills.push(
            AuctionOrderFill {
                source_index: index,
                order_id: order.order_id,
                quantity_lots: fill_quantity as u64,
            },
        );
        proof {
            assert(plan.take(index + 1) =~= plan.take(index as int).push(plan[index as int]));
            assert(fills@ =~= old(fills)@ + plan.take(index + 1));
        }
        remaining = remaining - fill_quantity;
        index += 1;
    }
    proof {
        lemma_price_time_count(orders@, executable as int);
        if index < plan.len() {
            assert(lots_sum(orders@.take(index as int)) < executable);
        }
        assert(plan.take(index as int) =~= plan);
    }
}

proof fn lemma_modular_step(
    quotient: int,
    remainder: int,
    divisor: int,
    factor: int,
    multiplier: int,
    double_carry: int,
    add_carry: int,
    bit: int,
    next: int,
)
    requires
        quotient * divisor + remainder == factor * multiplier,
        bit == 0 || bit == 1,
        next == 2 * remainder - double_carry * divisor + bit * multiplier - add_carry * divisor,
        0 <= next < divisor,
        0 <= multiplier < divisor,
        factor >= 0,
    ensures
        (2 * quotient + double_carry + add_carry) * divisor + next == (2 * factor + bit)
            * multiplier,
        2 * quotient + double_carry + add_carry <= 2 * factor + bit,
{
    let q = 2 * quotient + double_carry + add_carry;
    let f = 2 * factor + bit;
    assert(q * divisor + next == f * multiplier) by (nonlinear_arith)
        requires
            q == 2 * quotient + double_carry + add_carry,
            f == 2 * factor + bit,
            quotient * divisor + remainder == factor * multiplier,
            next == 2 * remainder - double_carry * divisor + bit * multiplier - add_carry
                * divisor,
    ;
    assert(q <= f) by (nonlinear_arith)
        requires
            q * divisor + next == f * multiplier,
            0 <= next,
            0 <= multiplier < divisor,
            f >= 0,
    ;
}

/// Returns `factor * multiplier / divisor` rounded down, without forming the
/// product, for a multiplier below the divisor.
pub(crate) fn exact_mul_div_floor(factor: u64, multiplier: u128, divisor: u128) -> (r: Option<u64>)
    ensures
        match r {
            Some(quotient) => multiplier < divisor && quotient == (factor * multiplier)
                / divisor as int,
            None => multiplier >= divisor,
        },
{
    if divisor == 0 || multiplier >= divisor {
        return None;
    }
    let mut quotient: u64 = 0;
    let mut remainder: u128 = 0;
    let mut bit: u32 = 64;
    let ghost mut prefix: int = 0;
    proof {
        assert(0 * divisor + 0 == 0 * multiplier) by (nonlinear_arith);
    }
    while bit > 0
        invariant
            bit <= 64,
            0 <= multiplier < divisor,
            remainder < divisor,
            quotient * divisor + remainder == prefix * multiplier,
            0 <= quotient <= prefix,
            bit == 64 ==> prefix == 0,
            bit < 64 ==> prefix == factor >> bit,
        decreases bit,
    {
        bit -= 1;
        let (doubled, double_carry) = modular_double(remainder, divisor);
        let mut next: u128 = doubled;
        let mut add_carry: u64 = 0;
        let set = factor & (1u64 << bit) != 0;
        proof {
            if bit == 63 {
                assert(factor >> 63u32 == (if factor & (1u64 << 63u32) != 0 {
                    1u64
                } else {
                    0u64
                })) by (bit_vector);
            } else {
                assert(factor >> bit == 2 * (factor >> ((bit + 1) as u32)) + (if factor & (1u64
                    << bit) != 0 {
                    1u64
                } else {
                    0u64
                })) by (bit_vector)
                    requires
                        bit < 63,
                ;
            }
        }
        if set {
            let (added, carry) = modular_add(next, multiplier, divisor);
            next = added;
            add_carry = carry;
        }
        proof {
            let b: int = if set {
                1
            } else {
                0
            };
            assert(double_carry * divisor == (if double_carry == 1 {
                divisor as int
            } else {
                0
            })) by (nonlinear_arith)
                requires
                    double_carry == 0 || double_carry == 1,
            ;
            assert(add_carry * divisor == (if add_carry == 1 {
                divisor as int
            } else {
                0
            })) by (nonlinear_arith)
                requires
                    add_carry == 0 || add_carry == 1,
            ;
            assert(b * multiplier == (if set {
                multiplier as int
            } else {
                0
            })) by (nonlinear_arith)
                requires
                    b == (if set {
                        1int
                    } else {
                        0
                    }),
            ;
            lemma_modular_step(
                quotient as int,
                remainder as int,
                divisor as int,
                prefix,
                multiplier as int,
                double_carry as int,
                add_carry as int,
                b,
                next as int,
            );
            prefix = 2 * prefix + b;
        }
        quotient = quotient * 2 + double_carry + add_carry;
        remainder = next;
    }
    proof {
        assert(factor >> 0u32 == factor) by (bit_vector);
        vstd::arithmetic::div_mod::lemma_fundamental_div_mod_converse(
            factor * multiplier,
            divisor as int,
            quotient as int,
            remainder as int,
        );
    }
    Some(quotient)
}

fn modular_double(value: u128, modulus: u128) -> (r: (u128, u64))
    requires
        value < modulus,
    ensures
        r.0 < modulus,
        r.1 == 0 || r.1 == 1,
        r.0 == 2 * value - (if r.1 == 1 {
            modulus as int
        } else {
            0
        }),
{
    let complement: u128 = modulus - value;
    if value >= complement {
        (value - complement, 1)
    } else {
        (value + value, 0)
    }
}

fn modular_add(left: u128, right: u128, modulus: u128) -> (r: (u128, u64))
    requires
        left < modulus,
        right < modulus,
    ensures
        r.0 < modulus,
        r.1 == 0 || r.1 == 1,
        r.0 == left + right - (if r.1 == 1 {
            modulus as int
        } else {
            0
        }),
{
    let complement: u128 = modulus - right;
    if left >= complement {
        (left - complement, 1)
    } else {
        (left + right, 0)
    }
}

/// Ends the tier that starts at `start`.
fn tier_end_from(
    orders: &[AuctionOrder],
    side: Side,
    clearing_price: Price,
    start: usize,
) -> (r: usize)
    requires
        start < orders@.len(),
    ensures
        r == tier_end(orders@, side, clearing_price, orders@[start as int], start + 1),
        start < r <= orders@.len(),
{
    let first = orders[start];
    let mut end: usize = start + 1;
    while end < orders.len() && is_eligible(orders[end], side, clearing_price)
        && same_allocation_tier(first, orders[end])
        invariant
            start < end <= orders@.len(),
            first == orders@[start as int],
            tier_end(orders@, side, clearing_price, first, start + 1) == tier_end(
                orders@,
                side,
                clearing_price,
                first,
                end as int,
            ),
        decreases orders@.len() - end,
    {
        end += 1;
    }
    end
}

/// Sums the quantities of the orders in `[start, end)`.
fn run_lots(orders: &[AuctionOrder], start: usize, end: usize) -> (r: u128)
    requires
        start <= end <= orders@.len(),
        lots_sum(orders@.take(end as int)) <= u128::MAX,
    ensures
        r == lots_sum(orders@.subrange(start as int, end as int)),
{
    let mut total: u128 = 0;
    let mut index: usize = start;
    proof {
        assert(orders@.subrange(start as int, start as int) =~= Seq::<AuctionOrder>::empty());
    }
    while index < end
        invariant
            start <= index <= end <= orders@.len(),
            lots_sum(orders@.take(end as int)) <= u128::MAX,
            total == lots_sum(orders@.subrange(start as int, index as int)),
        decreases end - index,
    {
        proof {
            lemma_lots_split(orders@, start as int, index + 1);
            lemma_lots_split(orders@, index + 1, end as int);
            lemma_lots_nonnegative(orders@.take(start as int));
            assert(orders@.subrange(start as int, index + 1).drop_last() =~= orders@.subrange(
                start as int,
                index as int,
            ));
            assert(orders@.subrange(start as int, index + 1).last() == orders@[index as int]);
        }
        total = total + orders[index].quantity.lots as u128;
        index += 1;
    }
    total
}

/// Emits one complete tier.
fn append_full_tier(
    orders: &[AuctionOrder],
    start: usize,
    end: usize,
    emit: bool,
    fills: &mut Vec<AuctionOrderFill>,
)
    requires
        start <= end <= orders@.len(),
    ensures
        final(fills)@ == (if emit {
            old(fills)@ + full_fills(orders@, start as int, end as int)
        } else {
            old(fills)@
        }),
{
    if !emit {
        return ;
    }
    let ghost plan = full_fills(orders@, start as int, end as int);
    let mut index: usize = start;
    proof {
        assert(fills@ =~= old(fills)@ + plan.take(0));
    }
    while index < end
        invariant
            start <= index <= end <= orders@.len(),
            plan == full_fills(orders@, start as int, end as int),
            fills@ == old(fills)@ + plan.take(index - start),
        decreases end - index,
    {
        let order = orders[index];
        fills.push(
            AuctionOrderFill {
                source_index: index,
                order_id: order.order_id,
                quantity_lots: order.quantity.lots,
            },
        );
        proof {
            assert(plan.take(index + 1 - start) =~= plan.take(index - start).push(
                plan[index - start],
            ));
            assert(fills@ =~= old(fills)@ + plan.take(index + 1 - start));
        }
        index += 1;
    }
    proof {
        assert(plan.take(index - start) =~= plan);
    }
}

/// Sums the floored proportional shares of the orders in `[start, end)`.
fn base_quanta_total(
    orders: &[AuctionOrder],
    start: usize,
    end: usize,
    quantum: u64,
    remaining_quanta: u128,
    tier_quanta: u128,
) -> (r: u128)
    requires
        start <= end <= orders@.len(),
        quantum > 0,
        remaining_quanta < tier_quanta,
        base_sum(
            orders@,
            start as int,
            end as int,
            quantum as int,
            remaining_quanta as int,
            tier_quanta as int,
        ) <= u128::MAX,
    ensures
        r == base_sum(
            orders@,
            start as int,
            end as int,
            quantum as int,
            remaining_quanta as int,
            tier_quanta as int,
        ),
{
    let mut total: u128 = 0;
    let mut index: usize = start;
    while index < end
        invariant
            start <= index <= end <= orders@.len(),
            quantum > 0,
            remaining_quanta < tier_quanta,
            base_sum(
                orders@,
                start as int,
                end as int,
                quantum as int,
                remaining_quanta as int,
                tier_quanta as int,
            ) <= u128::MAX,
            total + base_sum(
                orders@,
                index as int,
                end as int,
                quantum as int,
                remaining_quanta as int,
                tier_quanta as int,
            ) == base_sum(
                orders@,
                start as int,
                end as int,
                quantum as int,
                remaining_quanta as int,
                tier_quanta as int,
            ),
        decreases end - index,
    {
        proof {
            lemma_base_sum(
                orders@,
                start as int,
                index + 1,
                end as int,
                quantum as int,
                remaining_quanta as int,
                tier_quanta as int,
            );
            lemma_base_bounds(
                orders@[index as int],
                quantum as int,
                remaining_quanta as int,
                tier_quanta as int,
            );
        }
        let quanta: u64 = orders[index].quantity.lots / quantum;
        let base: u64 = match exact_mul_div_floor(quanta, remaining_quanta, tier_quanta) {
            Some(value) => value,
            None => 0,
        };
        total = total + base as u128;
        index += 1;
    }
    total
}

/// Emits the marginal tier and returns how many of its orders are filled.
fn append_marginal_tier(
    orders: &[AuctionOrder],
    start: usize,
    end: usize,
    quantum: u64,
    remaining_quanta: u128,
    tier_quanta: u128,
    residual_quanta: u128,
    emit: bool,
    fills: &mut Vec<AuctionOrderFill>,
) -> (r: usize)
    requires
        start <= end <= orders@.len(),
        quantum > 0,
        remaining_quanta < tier_quanta,
    ensures
        ({
            let plan = marginal_fills(
                orders@,
                start as int,
                start as int,
                end as int,
                quantum as int,
                remaining_quanta as int,
                tier_quanta as int,
                residual_quanta as int,
            );
            &&& r == plan.len()
            &&& r <= end - start
            &&& final(fills)@ == (if emit {
                old(fills)@ + plan
            } else {
                old(fills)@
            })
        }),
{
    let mut residual: u128 = residual_quanta;
    let mut index: usize = start;
    let mut count: usize = 0;
    let ghost plan = marginal_fills(
        orders@,
        start as int,
        start as int,
        end as int,
        quantum as int,
        remaining_quanta as int,
        tier_quanta as int,
        residual_quanta as int,
    );
    let ghost mut done = Seq::<AuctionOrderFill>::empty();
    proof {
        assert(done + plan =~= plan);
        assert(fills@ =~= old(fills)@ + done);
    }
    while index < end
        invariant
            start <= index <= end <= orders@.len(),
            quantum > 0,
            remaining_quanta < tier_quanta,
            residual == residual_left(
                residual_quanta as int,
                quantum_holders(orders@, start as int, index as int, quantum as int),
            ),
            done + marginal_fills(
                orders@,
                start as int,
                index as int,
                end as int,
                quantum as int,
                remaining_quanta as int,
                tier_quanta as int,
                residual_quanta as int,
            ) == plan,
            count == done.len(),
            count <= index - start,
            fills@ == (if emit {
                old(fills)@ + done
            } else {
                old(fills)@
            }),
        decreases end - index,
    {
        let order = orders[index];
        proof {
            lemma_base_bounds(
                order,
                quantum as int,
                remaining_quanta as int,
                tier_quanta as int,
            );
        }
        let quanta: u64 = order.quantity.lots / quantum;
        let base: u64 = match exact_mul_div_floor(quanta, remaining_quanta, tier_quanta) {
            Some(value) => value,
            None => 0,
        };
        let mut fill_quanta: u64 = base;
        if residual != 0 && fill_quanta < quanta {
            fill_quanta = fill_quanta + 1;
            residual = residual - 1;
        }
        let ghost rest = marginal_fills(
            orders@,
            start as int,
            index + 1,
            end as int,
            quantum as int,
            remaining_quanta as int,
            tier_quanta as int,
            residual_quanta as int,
        );
        if fill_quanta != 0 {
            assert(fill_quanta * quantum <= order.quantity.lots) by (nonlinear_arith)
                requires
                    fill_quanta <= quanta,
                    quanta * quantum <= order.quantity.lots,
                    quantum > 0,
            ;
            let fill = AuctionOrderFill {
                source_index: index,
                order_id: order.order_id,
                quantity_lots: fill_quanta * quantum,
            };
            if emit {
                fills.push(fill);
            }
            count += 1;
            proof {
                assert(done + (seq![fill] + rest) =~= done.push(fill) + rest);
                done = done.push(fill);
                if emit {
                    assert(fills@ =~= old(fills)@ + done);
                }
            }
        }
        index += 1;
    }
    proof {
        assert(done + Seq::<AuctionOrderFill>::empty() =~= done);
    }
    count
}

/// Walks the allocation tiers of one side and returns the number of fills;
/// `emit` selects whether they are appended as well.
fn walk_pro_rata_fills(
    orders: &[AuctionOrder],
    side: Side,
    clearing_price: Price,
    executable: u128,
    allocation_quantum_lots: u64,
    emit: bool,
    fills: &mut Vec<AuctionOrderFill>,
) -> (r: usize)
    requires
        pro_rata_ready(
            orders@,
            side,
            clearing_price,
            allocation_quantum_lots as int,
            0,
            executable as int,
        ),
    ensures
        ({
            let plan = pro_rata_fills(
                orders@,
                side,
                clearing_price,
                allocation_quantum_lots as int,
                0,
                executable as int,
            );
            &&& r == plan.len()
            &&& final(fills)@ == (if emit {
                old(fills)@ + plan
            } else {
                old(fills)@
            })
        }),
{
    let ghost quantum = allocation_quantum_lots as int;
    let allocation_quantum: u128 = allocation_quantum_lots as u128;
    let mut remaining: u128 = executable;
    let mut source_index: usize = 0;
    let mut fill_count: usize = 0;
    let ghost plan = pro_rata_fills(
        orders@,
        side,
        clearing_price,
        quantum,
        0,
        executable as int,
    );
    let ghost mut done = Seq::<AuctionOrderFill>::empty();
    proof {
        assert(done + plan =~= plan);
        assert(fills@ =~= old(fills)@ + done);
    }
    while remaining != 0
        invariant
            quantum == allocation_quantum_lots,
            allocation_quantum == quantum,
            pro_rata_ready(
                orders@,
                side,
                clearing_price,
                quantum,
                source_index as int,
                remaining as int,
            ),
            done + pro_rata_fills(
                orders@,
                side,
                clearing_price,
                quantum,
                source_index as int,
                remaining as int,
            ) == plan,
            fill_count == done.len(),
            fill_count <= source_index,
            fills@ == (if emit {
                old(fills)@ + done
            } else {
                old(fills)@
            }),
        decreases orders@.len() - source_index, remaining,
    {
        proof {
            lemma_pro_rata_step(
                orders@,
                side,
                clearing_price,
                quantum,
                source_index as int,
                remaining as int,
            );
        }
        let tier_end = tier_end_from(orders, side, clearing_price, source_index);
        let tier_quantity: u128 = run_lots(orders, source_index, tier_end);
        let ghost rest = pro_rata_fills(
            orders@,
            side,
            clearing_price,
            quantum,
            tier_end as int,
            remaining - tier_quantity,
        );
        if remaining >= tier_quantity {
            append_full_tier(orders, source_index, tier_end, emit, fills);
            proof {
                let head = full_fills(orders@, source_index as int, tier_end as int);
                assert(done + (head + rest) =~= (done + head) + rest);
                if emit {
                    assert(fills@ =~= old(fills)@ + (done + head));
                }
                done = done + head;
            }
            fill_count = fill_count + (tier_end - source_index);
            remaining = remaining - tier_quantity;
            source_index = tier_end;
        } else {
            let remaining_quanta: u128 = remaining / allocation_quantum;
            let tier_quanta: u128 = tier_quantity / allocation_quantum;
            proof {
                lemma_residual(
                    orders@,
                    source_index as int,
                    tier_end as int,
                    quantum,
                    remaining_quanta as int,
                    tier_quanta as int,
                );
            }
            let allocated: u128 = base_quanta_total(
                orders,
                source_index,
                tier_end,
                allocation_quantum_lots,
                remaining_quanta,
                tier_quanta,
            );
            let filled: usize = append_marginal_tier(
                orders,
                source_index,
                tier_end,
                allocation_quantum_lots,
                remaining_quanta,
                tier_quanta,
                remaining_quanta - allocated,
                emit,
                fills,
            );
            proof {
                let last = marginal_fills(
                    orders@,
                    source_index as int,
                    source_index as int,
                    tier_end as int,
                    quantum,
                    remaining_quanta as int,
                    tier_quanta as int,
                    remaining_quanta - allocated,
                );
                assert(done + last =~= plan);
                if emit {
                    assert(fills@ =~= old(fills)@ + (done + last));
                }
                done = done + last;
                lemma_lots_nonnegative(orders@.take(tier_end as int));
                vstd::arithmetic::div_mod::lemma_small_mod(0, quantum as nat);
                assert(done + Seq::<AuctionOrderFill>::empty() =~= done);
            }
            fill_count = fill_count + filled;
            remaining = 0;
            source_index = tier_end;
        }
    }
    proof {
        assert(done + Seq::<AuctionOrderFill>::empty() =~= done);
    }
    fill_count
}

/// What the fill writers need to know of one validated side.
pub open spec fn side_ready(
    orders: Seq<AuctionOrder>,
    side: Side,
    price: Price,
    executable: int,
    policy: AuctionAllocationPolicy,
    quantum: int,
) -> bool {
    &&& orders_valid(orders, side, price)
    &&& 0 <= executable <= eligible_lots(orders, side, price)
    &&& policy == AuctionAllocationPolicy::ProRataTime ==> pro_rata_ready(
        orders,
        side,
        price,
        quantum,
        0,
        executable,
    )
}

fn append_policy_fills(
    orders: &[AuctionOrder],
    side: Side,
    clearing_price: Price,
    executable_quantity: u128,
    policy: AuctionAllocationPolicy,
    allocation_quantum_lots: u64,
    fills: &mut Vec<AuctionOrderFill>,
)
    requires
        side_ready(
            orders@,
            side,
            clearing_price,
            executable_quantity as int,
            policy,
            allocation_quantum_lots as int,
        ),
    ensures
        final(fills)@ == old(fills)@ + policy_fills(
            orders@,
            side,
            clearing_price,
            executable_quantity as int,
            policy,
            allocation_quantum_lots as int,
        ),
{
    match policy {
        AuctionAllocationPolicy::PriceTime => {
            append_fills(orders, side, clearing_price, executable_quantity, fills);
        },
        AuctionAllocationPolicy::ProRataTime => {
            let _count = walk_pro_rata_fills(
                orders,
                side,
                clearing_price,
                executable_quantity,
                allocation_quantum_lots,
                true,
                fills,
            );
        },
    }
}

/// Validates one request and returns the exact fill count of each side.
fn validate_policy_allocation_request(
    bids: &[AuctionOrder],
    asks: &[AuctionOrder],
    grid: AuctionPriceGrid,
    clearing: AuctionClearing,
    policy: AuctionAllocationPolicy,
    allocation_quantum_lots: u64,
    limits: AuctionAllocationLimits,
) -> (r: Result<(usize, usize), AuctionAllocationError>)
    requires
        grid.wf(),
        clearing.wf(),
    ensures
        match r {
            Ok((buy_count, sell_count)) => {
                let executable = clearing.executable_quantity as int;
                let quantum = allocation_quantum_lots as int;
                &&& allocation_fault(
                    bids@,
                    asks@,
                    grid,
                    clearing,
                    policy,
                    allocation_quantum_lots,
                    limits,
                ) is None
                &&& side_ready(bids@, Side::Buy, clearing.price, executable, policy, quantum)
                &&& side_ready(asks@, Side::Sell, clearing.price, executable, policy, quantum)
                &&& buy_count == policy_fills(
                    bids@,
                    Side::Buy,
                    clearing.price,
                    executable,
                    policy,
                    quantum,
                ).len()
                &&& sell_count == policy_fills(
                    asks@,
                    Side::Sell,
                    clearing.price,
                    executable,
                    policy,
                    quantum,
                ).len()
            },
            Err(error) => allocation_fault(
                bids@,
                asks@,
                grid,
                clearing,
                policy,
                allocation_quantum_lots,
                limits,
            ) == Some(error),
        },
{
    match validate_allocation_request(bids, asks, grid, clearing, limits) {
        Err(error) => {
            return Err(error);
        },
        Ok(()) => {},
    }
    let executable: u128 = clearing.executable_quantity;
    if policy == AuctionAllocationPolicy::PriceTime {
        return Ok(
            (
                required_fill_count(bids, Side::Buy, clearing.price, executable),
                required_fill_count(asks, Side::Sell, clearing.price, executable),
            ),
        );
    }
    match validate_allocation_quantum(bids, Side::Buy, allocation_quantum_lots) {
        Err(error) => {
            return Err(error);
        },
        Ok(()) => {},
    }
    match validate_allocation_quantum(asks, Side::Sell, allocation_quantum_lots) {
        Err(error) => {
            return Err(error);
        },
        Ok(()) => {},
    }
    proof {
        lemma_eligible_aligned(bids@, Side::Buy, clearing.price, allocation_quantum_lots as int);
        lemma_eligible_aligned(asks@, Side::Sell, clearing.price, allocation_quantum_lots as int);
        assert(bids@.take(0) =~= Seq::<AuctionOrder>::empty());
        assert(asks@.take(0) =~= Seq::<AuctionOrder>::empty());
    }
    let mut none: Vec<AuctionOrderFill> = Vec::new();
    let buy_count = walk_pro_rata_fills(
        bids,
        Side::Buy,
        clearing.price,
        executable,
        allocation_quantum_lots,
        false,
        &mut none,
    );
    let sell_count = walk_pro_rata_fills(
        asks,
        Side::Sell,
        clearing.price,
        executable,
        allocation_quantum_lots,
        false,
        &mut none,
    );
    Ok((buy_count, sell_count))
}

/// The plan that one valid request produces.
pub open spec fn is_allocation(
    bids: Seq<AuctionOrder>,
    asks: Seq<AuctionOrder>,
    clearing: AuctionClearing,
    policy: AuctionAllocationPolicy,
    quantum: u64,
    plan: AuctionAllocationPlan,
) -> bool {
    &&& plan.clearing == clearing
    &&& plan.buy_fills@ == policy_fills(
        bids,
        Side::Buy,
        clearing.price,
        clearing.executable_quantity as int,
        policy,
        quantum as int,
    )
    &&& plan.sell_fills@ == policy_fills(
        asks,
        Side::Sell,
        clearing.price,
        clearing.executable_quantity as int,
        policy,
        quantum as int,
    )
}

/// Allocates one clearing result under an explicit policy.
///
/// A valid request fails only when the fill storage cannot be reserved.
pub(crate) fn allocate_clearing_with_policy(
    bids: &[AuctionOrder],
    asks: &[AuctionOrder],
    grid: AuctionPriceGrid,
    clearing: AuctionClearing,
    policy: AuctionAllocationPolicy,
    allocation_quantum_lots: u64,
    limits: AuctionAllocationLimits,
) -> (r: Result<AuctionAllocationPlan, AuctionAllocationError>)
    requires
        grid.wf(),
        clearing.wf(),
    ensures
        match allocation_fault(
            bids@,
            asks@,
            grid,
            clearing,
            policy,
            allocation_quantum_lots,
            limits,
        ) {
            Some(fault) => r == Err::<AuctionAllocationPlan, AuctionAllocationError>(fault),
            None => match r {
                Ok(plan) => is_allocation(
                    bids@,
                    asks@,
                    clearing,
                    policy,
                    allocation_quantum_lots,
                    plan,
                ),
                Err(error) => error is CapacityReservationFailed,
            },
        },
{
    let (buy_count, sell_count) = match validate_policy_allocation_request(
        bids,
        asks,
        grid,
        clearing,
        policy,
        allocation_quantum_lots,
        limits,
    ) {
        Err(error) => {
            return Err(error);
        },
        Ok(counts) => counts,
    };
    allocate_clearing_from_storage(
        bids,
        asks,
        clearing,
        policy,
        allocation_quantum_lots,
        try_vector(buy_count),
        try_vector(sell_count),
    )
}

/// Allocates a reconciled clearing over the fill storage of both sides, or names
/// the first side for which there is none, buys before sells.
pub fn allocate_clearing_from_storage(
    bids: &[AuctionOrder],
    asks: &[AuctionOrder],
    clearing: AuctionClearing,
    policy: AuctionAllocationPolicy,
    allocation_quantum_lots: u64,
    buy_storage: Option<Vec<AuctionOrderFill>>,
    sell_storage: Option<Vec<AuctionOrderFill>>,
) -> (r: Result<AuctionAllocationPlan, AuctionAllocationError>)
    requires
        side_ready(
            bids@,
            Side::Buy,
            clearing.price,
            clearing.executable_quantity as int,
            policy,
            allocation_quantum_lots as int,
        ),
        side_ready(
            asks@,
            Side::Sell,
            clearing.price,
            clearing.executable_quantity as int,
            policy,
            allocation_quantum_lots as int,
        ),
    ensures
        match r {
            Ok(plan) => {
                &&& buy_storage is Some
                &&& sell_storage is Some
                &&& is_allocation(bids@, asks@, clearing, policy, allocation_quantum_lots, plan)
            },
            Err(error) => if buy_storage is None {
                error == AuctionAllocationError::CapacityReservationFailed(Side::Buy)
            } else {
                &&& sell_storage is None
                &&& error == AuctionAllocationError::CapacityReservationFailed(Side::Sell)
            },
        },
{
    let mut buy_fills = match buy_storage {
        Some(storage) => storage,
        None => {
            return Err(AuctionAllocationError::CapacityReservationFailed(Side::Buy));
        },
    };
    let mut sell_fills = match sell_storage {
        Some(storage) => storage,
        None => {
            return Err(AuctionAllocationError::CapacityReservationFailed(Side::Sell));
        },
    };
    buy_fills.clear();
    sell_fills.clear();
    append_policy_fills(
        bids,
        Side::Buy,
        clearing.price,
        clearing.executable_quantity,
        policy,
        allocation_quantum_lots,
        &mut buy_fills,
    );
    append_policy_fills(
        asks,
        Side::Sell,
        clearing.price,
        clearing.executable_quantity,
        policy,
        allocation_quantum_lots,
        &mut sell_fills,
    );
    proof {
        let buy = policy_fills(
            bids@,
            Side::Buy,
            clearing.price,
            clearing.executable_quantity as int,
            policy,
            allocation_quantum_lots as int,
        );
        let sell = policy_fills(
            asks@,
            Side::Sell,
            clearing.price,
            clearing.executable_quantity as int,
            policy,
            allocation_quantum_lots as int,
        );
        assert(Seq::<AuctionOrderFill>::empty() + buy =~= buy);
        assert(Seq::<AuctionOrderFill>::empty() + sell =~= sell);
    }
    Ok(AuctionAllocationPlan { clearing, buy_fills, sell_fills })
}

/// Rewrites a caller-owned plan whose fill storage holds `fill_capacity` fills
/// on each side. A refused request leaves the plan as it was.
pub(crate) fn allocate_clearing_reusing(
    bids: &[AuctionOrder],
    asks: &[AuctionOrder],
    grid: AuctionPriceGrid,
    clearing: AuctionClearing,
    method: AuctionAllocationMethod,
    limits: AuctionAllocationLimits,
    fill_capacity: usize,
    plan: &mut AuctionAllocationPlan,
) -> (r: Result<(), AuctionAllocationError>)
    requires
        grid.wf(),
        clearing.wf(),
    ensures
        ({
            let executable = clearing.executable_quantity as int;
            let quantum = method.allocation_quantum_lots as int;
            let buy_count = policy_fills(
                bids@,
                Side::Buy,
                clearing.price,
                executable,
                method.policy,
                quantum,
            ).len();
            let sell_count = policy_fills(
                asks@,
                Side::Sell,
                clearing.price,
                executable,
                method.policy,
                quantum,
            ).len();
            let fault = allocation_fault(
                bids@,
                asks@,
                grid,
                clearing,
                method.policy,
                method.allocation_quantum_lots,
                limits,
            );
            let expected = if fault is Some {
                fault
            } else if fill_capacity < buy_count {
                Some(AuctionAllocationError::CapacityReservationFailed(Side::Buy))
            } else if fill_capacity < sell_count {
                Some(AuctionAllocationError::CapacityReservationFailed(Side::Sell))
            } else {
                None
            };
            match r {
                Ok(_) => expected is None && is_allocation(
                    bids@,
                    asks@,
                    clearing,
                    method.policy,
                    method.allocation_quantum_lots,
                    *final(plan),
                ) && side_ready(
                    bids@,
                    Side::Buy,
                    clearing.price,
                    executable,
                    method.policy,
                    quantum,
                ) && side_ready(
                    asks@,
                    Side::Sell,
                    clearing.price,
                    executable,
                    method.policy,
                    quantum,
                ),
                Err(error) => expected == Some(error) && *final(plan) == *old(plan),
            }
        }),
{
    let (buy_count, sell_count) = match validate_policy_allocation_request(
        bids,
        asks,
        grid,
        clearing,
        method.policy,
        method.allocation_quantum_lots,
        limits,
    ) {
        Err(error) => {
            return Err(error);
        },
        Ok(counts) => counts,
    };
    if fill_capacity < buy_count {
        return Err(AuctionAllocationError::CapacityReservationFailed(Side::Buy));
    }
    if fill_capacity < sell_count {
        return Err(AuctionAllocationError::CapacityReservationFailed(Side::Sell));
    }
    plan.buy_fills.clear();
    plan.sell_fills.clear();
    append_policy_fills(
        bids,
        Side::Buy,
        clearing.price,
        clearing.executable_quantity,
        method.policy,
        method.allocation_quantum_lots,
        &mut plan.buy_fills,
    );
    append_policy_fills(
        asks,
        Side::Sell,
        clearing.price,
        clearing.executable_quantity,
        method.policy,
        method.allocation_quantum_lots,
        &mut plan.sell_fills,
    );
    plan.clearing = clearing;
    proof {
        assert(Seq::<AuctionOrderFill>::empty() + policy_fills(
            bids@,
            Side::Buy,
            clearing.price,
            clearing.executable_quantity as int,
            method.policy,
            method.allocation_quantum_lots as int,
        ) =~= policy_fills(
            bids@,
            Side::Buy,
            clearing.price,
            clearing.executable_quantity as int,
            method.policy,
            method.allocation_quantum_lots as int,
        ));
        assert(Seq::<AuctionOrderFill>::empty() + policy_fills(
            asks@,
            Side::Sell,
            clearing.price,
            clearing.executable_quantity as int,
            method.policy,
            method.allocation_quantum_lots as int,
        ) =~= policy_fills(
            asks@,
            Side::Sell,
            clearing.price,
            clearing.executable_quantity as int,
            method.policy,
            method.allocation_quantum_lots as int,
        ));
    }
    Ok(())
}

/// Allocates a non-zero clearing result by strict market/price/class/time/ID priority.
///
/// Each side must be canonical: market constraints first; limit constraints in
/// economically best-to-worst order (descending buys, ascending sells); and at
/// an equal constraint, ascending priority class, priority sequence, then order
/// ID. Only orders eligible at the clearing price contribute to reconciliation,
/// and their totals must exactly equal the clearing quantities. A valid request
/// fails only when the fill storage cannot be reserved.
pub fn allocate_clearing_price_time(
    bids: &[AuctionOrder],
    asks: &[AuctionOrder],
    grid: AuctionPriceGrid,
    clearing: AuctionClearing,
    limits: AuctionAllocationLimits,
) -> (r: Result<AuctionAllocationPlan, AuctionAllocationError>)
    requires
        grid.wf(),
        clearing.wf(),
    ensures
        match request_fault(bids@, asks@, grid, clearing, limits) {
            Some(fault) => r == Err::<AuctionAllocationPlan, AuctionAllocationError>(fault),
            None => match r {
                Ok(plan) => {
                    &&& plan.clearing == clearing
                    &&& plan.buy_fills@ == price_time_fills(
                        bids@,
                        clearing.executable_quantity as int,
                    )
                    &&& plan.sell_fills@ == price_time_fills(
                        asks@,
                        clearing.executable_quantity as int,
                    )
                },
                Err(error) => error is CapacityReservationFailed,
            },
        },
{
    allocate_clearing_with_policy(
        bids,
        asks,
        grid,
        clearing,
        AuctionAllocationPolicy::PriceTime,
        1,
        limits,
    )
}

/// Allocates a non-zero clearing result by price/class-tier pro-rata priority.
///
/// Market, economically better price, and lower priority-class tiers precede
/// worse tiers. Every tier before the marginal tier fills completely. Orders
/// in the marginal tier receive their floored proportional share in multiples
/// of `allocation_quantum_lots`; remaining quanta are assigned once in
/// canonical time/identity order. A valid request fails only when the fill
/// storage cannot be reserved.
pub fn allocate_clearing_pro_rata_time(
    bids: &[AuctionOrder],
    asks: &[AuctionOrder],
    grid: AuctionPriceGrid,
    clearing: AuctionClearing,
    allocation_quantum_lots: u64,
    limits: AuctionAllocationLimits,
) -> (r: Result<AuctionAllocationPlan, AuctionAllocationError>)
    requires
        grid.wf(),
        clearing.wf(),
    ensures
        match allocation_fault(
            bids@,
            asks@,
            grid,
            clearing,
            AuctionAllocationPolicy::ProRataTime,
            allocation_quantum_lots,
            limits,
        ) {
            Some(fault) => r == Err::<AuctionAllocationPlan, AuctionAllocationError>(fault),
            None => match r {
                Ok(plan) => {
                    &&& plan.clearing == clearing
                    &&& plan.buy_fills@ == pro_rata_fills(
                        bids@,
                        Side::Buy,
                        clearing.price,
                        allocation_quantum_lots as int,
                        0,
                        clearing.executable_quantity as int,
                    )
                    &&& plan.sell_fills@ == pro_rata_fills(
                        asks@,
                        Side::Sell,
                        clearing.price,
                        allocation_quantum_lots as int,
                        0,
                        clearing.executable_quantity as int,
                    )
                },
                Err(error) => error is CapacityReservationFailed,
            },
        },
{
    allocate_clearing_with_policy(
        bids,
        asks,
        grid,
        clearing,
        AuctionAllocationPolicy::ProRataTime,
        allocation_quantum_lots,
        limits,
    )
}

} // verus!
