//! What an allocation promises to each order, over constraints, prices, classes
//! and quantities.

use vstd::prelude::*;

use crate::allocation::{
    allocation_fault, base_sum, eligible, eligible_lots, fill_lots, first_order_fault,
    first_quantum_fault, full_fills, is_allocation, law_fills_reconcile, lemma_base_bounds,
    lemma_eligible_aligned, lemma_eligible_rest, lemma_executable_covered, lemma_lots_push,
    lemma_lots_split, lemma_orders_valid, lemma_price_time_count, lemma_price_time_eligible,
    lemma_pro_rata_step, lemma_residual, lemma_tier_end, lots_sum, marginal_fills, marginal_quanta,
    order_before, order_fault, order_quanta, orders_positive, orders_valid, policy_fills,
    price_time_count, price_time_fills, pro_rata_fills, pro_rata_ready, quantum_holders, same_tier,
    tier_end, AuctionAllocationError, AuctionAllocationLimits, AuctionAllocationPlan,
    AuctionAllocationPolicy, AuctionOrderFill,
};
use crate::auction::{AuctionClearing, AuctionOrder, AuctionOrderConstraint, AuctionPriceGrid};
use crate::domain::{Price, Side};

verus! {

/// Lots that a fill list takes of the order at one source index.
pub open spec fn taken(fills: Seq<AuctionOrderFill>, index: int) -> int
    decreases fills.len(),
{
    if fills.len() == 0 {
        0
    } else {
        taken(fills.drop_last(), index) + if fills.last().source_index == index {
            fills.last().quantity_lots as int
        } else {
            0
        }
    }
}

/// Whether an order ranks ahead by constraint, price or class alone: a market
/// order ahead of a limit order, a higher bid or a lower ask ahead of a worse
/// one, and a lower class ahead of a higher one at the same constraint.
pub open spec fn ranks_ahead(left: AuctionOrder, right: AuctionOrder, side: Side) -> bool {
    match (left.constraint, right.constraint) {
        (AuctionOrderConstraint::Market, AuctionOrderConstraint::Limit(_)) => true,
        (AuctionOrderConstraint::Limit(_), AuctionOrderConstraint::Market) => false,
        (AuctionOrderConstraint::Market, AuctionOrderConstraint::Market) => {
            left.priority_class.value < right.priority_class.value
        },
        (AuctionOrderConstraint::Limit(own), AuctionOrderConstraint::Limit(other)) => {
            ||| side == Side::Buy && own.raw > other.raw
            ||| side == Side::Sell && own.raw < other.raw
            ||| own.raw == other.raw && left.priority_class.value < right.priority_class.value
        },
    }
}

/// Whether two orders compete at one constraint and class.
pub open spec fn competes(left: AuctionOrder, right: AuctionOrder) -> bool {
    left.constraint == right.constraint && left.priority_class == right.priority_class
}

proof fn lemma_taken_concat(
    left: Seq<AuctionOrderFill>,
    right: Seq<AuctionOrderFill>,
    index: int,
)
    ensures
        taken(left + right, index) == taken(left, index) + taken(right, index),
    decreases right.len(),
{
    if right.len() == 0 {
        assert(left + right =~= left);
    } else {
        lemma_taken_concat(left, right.drop_last(), index);
        assert((left + right).drop_last() =~= left + right.drop_last());
    }
}

proof fn lemma_taken_full(orders: Seq<AuctionOrder>, start: int, end: int, index: int)
    requires
        0 <= start <= end <= orders.len() <= usize::MAX,
    ensures
        taken(full_fills(orders, start, end), index) == (if start <= index < end {
            orders[index].quantity.lots as int
        } else {
            0
        }),
    decreases end - start,
{
    if start < end {
        lemma_taken_full(orders, start, end - 1, index);
        assert(full_fills(orders, start, end).drop_last() =~= full_fills(orders, start, end - 1));
    }
}

proof fn lemma_marginal_fits(
    orders: Seq<AuctionOrder>,
    start: int,
    index: int,
    quantum: int,
    remaining: int,
    tier: int,
    residual: int,
)
    requires
        0 <= index < orders.len(),
        quantum > 0,
        0 <= remaining < tier,
    ensures
        0 <= marginal_quanta(orders, start, index, quantum, remaining, tier, residual) * quantum
            <= orders[index].quantity.lots,
{
    lemma_base_bounds(orders[index], quantum, remaining, tier);
    let quanta = marginal_quanta(orders, start, index, quantum, remaining, tier, residual);
    let whole = order_quanta(orders[index], quantum);
    assert(0 <= quanta * quantum <= whole * quantum) by (nonlinear_arith)
        requires
            0 <= quanta <= whole,
            quantum > 0,
    ;
}

proof fn lemma_taken_marginal(
    orders: Seq<AuctionOrder>,
    start: int,
    from: int,
    end: int,
    quantum: int,
    remaining: int,
    tier: int,
    residual: int,
    index: int,
)
    requires
        0 <= start <= from <= end <= orders.len() <= usize::MAX,
        quantum > 0,
        0 <= remaining < tier,
    ensures
        taken(marginal_fills(orders, start, from, end, quantum, remaining, tier, residual), index)
            == (if from <= index < end {
            marginal_quanta(orders, start, index, quantum, remaining, tier, residual) * quantum
        } else {
            0
        }),
    decreases end - from,
{
    if from < end {
        let rest = marginal_fills(
            orders,
            start,
            from + 1,
            end,
            quantum,
            remaining,
            tier,
            residual,
        );
        lemma_taken_marginal(
            orders,
            start,
            from + 1,
            end,
            quantum,
            remaining,
            tier,
            residual,
            index,
        );
        lemma_marginal_fits(orders, start, from, quantum, remaining, tier, residual);
        let quanta = marginal_quanta(orders, start, from, quantum, remaining, tier, residual);
        if quanta != 0 {
            let head = seq![
                AuctionOrderFill {
                    source_index: from as usize,
                    order_id: orders[from].order_id,
                    quantity_lots: (quanta * quantum) as u64,
                },
            ];
            lemma_taken_concat(head, rest, index);
            assert(head.drop_last() =~= Seq::<AuctionOrderFill>::empty());
            assert(taken(head.drop_last(), index) == 0);
        } else {
            assert(quanta * quantum == 0) by (nonlinear_arith)
                requires
                    quanta == 0,
            ;
        }
    }
}

/// A run of one tier goes on as long as its orders share the tier.
proof fn lemma_tier_covers(
    orders: Seq<AuctionOrder>,
    side: Side,
    price: Price,
    first: AuctionOrder,
    from: int,
    index: int,
)
    requires
        0 <= from <= index < orders.len(),
        forall|k: int|
            from <= k <= index ==> eligible(#[trigger] orders[k], side, price) && same_tier(
                first,
                orders[k],
            ),
    ensures
        index < tier_end(orders, side, price, first, from),
    decreases index - from,
{
    lemma_tier_end(orders, side, price, first, from);
    if from < index {
        lemma_tier_covers(orders, side, price, first, from + 1, index);
    } else {
        lemma_tier_end(orders, side, price, first, from + 1);
    }
}

/// The orders of a run share the tier of its first order.
proof fn lemma_tier_shared(
    orders: Seq<AuctionOrder>,
    side: Side,
    price: Price,
    first: AuctionOrder,
    from: int,
    index: int,
)
    requires
        0 <= from <= index < tier_end(orders, side, price, first, from),
        from <= orders.len(),
    ensures
        same_tier(first, orders[index]),
    decreases index - from,
{
    if from < index {
        lemma_tier_shared(orders, side, price, first, from + 1, index);
    }
}

/// What a pro-rata walk gives to two orders, the first of which ranks ahead.
proof fn lemma_pro_rata_ahead(
    orders: Seq<AuctionOrder>,
    side: Side,
    price: Price,
    quantum: int,
    start: int,
    remaining: int,
    ahead: int,
    behind: int,
)
    requires
        pro_rata_ready(orders, side, price, quantum, start, remaining),
        orders.len() <= usize::MAX,
        0 <= ahead < behind < orders.len(),
        ranks_ahead(orders[ahead], orders[behind], side),
    ensures
        ({
            let fills = pro_rata_fills(orders, side, price, quantum, start, remaining);
            &&& 0 <= taken(fills, behind) <= orders[behind].quantity.lots
            &&& taken(fills, behind) > 0 && start <= ahead ==> taken(fills, ahead)
                == orders[ahead].quantity.lots
        }),
    decreases orders.len() - start,
{
    if remaining > 0 {
        lemma_pro_rata_step(orders, side, price, quantum, start, remaining);
        let end = tier_end(orders, side, price, orders[start], start + 1);
        let tier = lots_sum(orders.subrange(start, end));
        if remaining >= tier {
            let head = full_fills(orders, start, end);
            let rest = pro_rata_fills(orders, side, price, quantum, end, remaining - tier);
            lemma_pro_rata_ahead(
                orders,
                side,
                price,
                quantum,
                end,
                remaining - tier,
                ahead,
                behind,
            );
            lemma_taken_full(orders, start, end, ahead);
            lemma_taken_full(orders, start, end, behind);
            lemma_taken_concat(head, rest, ahead);
            lemma_taken_concat(head, rest, behind);
            lemma_pro_rata_from(orders, side, price, quantum, end, remaining - tier, ahead);
            lemma_pro_rata_from(orders, side, price, quantum, end, remaining - tier, behind);
        } else {
            let rq = remaining / quantum;
            let tq = tier / quantum;
            let residual = rq - base_sum(orders, start, end, quantum, rq, tq);
            lemma_taken_marginal(orders, start, start, end, quantum, rq, tq, residual, behind);
            lemma_marginal_fits(orders, start, behind, quantum, rq, tq, residual);
            if start <= ahead && behind < end {
                if start < ahead {
                    lemma_tier_shared(orders, side, price, orders[start], start + 1, ahead);
                }
                lemma_tier_shared(orders, side, price, orders[start], start + 1, behind);
            }
        }
    }
}

/// A pro-rata walk takes nothing of the orders before it.
proof fn lemma_pro_rata_from(
    orders: Seq<AuctionOrder>,
    side: Side,
    price: Price,
    quantum: int,
    start: int,
    remaining: int,
    index: int,
)
    requires
        pro_rata_ready(orders, side, price, quantum, start, remaining),
        orders.len() <= usize::MAX,
        0 <= index < orders.len(),
    ensures
        ({
            let fills = pro_rata_fills(orders, side, price, quantum, start, remaining);
            &&& index < start ==> taken(fills, index) == 0
            &&& !eligible(orders[index], side, price) ==> taken(fills, index) == 0
            &&& 0 <= taken(fills, index) <= orders[index].quantity.lots
        }),
    decreases orders.len() - start,
{
    if remaining > 0 {
        lemma_pro_rata_step(orders, side, price, quantum, start, remaining);
        let end = tier_end(orders, side, price, orders[start], start + 1);
        let tier = lots_sum(orders.subrange(start, end));
        if remaining >= tier {
            let head = full_fills(orders, start, end);
            let rest = pro_rata_fills(orders, side, price, quantum, end, remaining - tier);
            lemma_pro_rata_from(orders, side, price, quantum, end, remaining - tier, index);
            lemma_taken_full(orders, start, end, index);
            lemma_taken_concat(head, rest, index);
        } else {
            let rq = remaining / quantum;
            let tq = tier / quantum;
            let residual = rq - base_sum(orders, start, end, quantum, rq, tq);
            lemma_taken_marginal(orders, start, start, end, quantum, rq, tq, residual, index);
            lemma_marginal_fits(orders, start, index, quantum, rq, tq, residual);
        }
    }
}

/// What strict priority gives to the order at one index.
proof fn lemma_price_time_taken(orders: Seq<AuctionOrder>, executable: int, count: int, index: int)
    requires
        0 <= executable <= lots_sum(orders),
        orders.len() <= usize::MAX,
        0 <= index < orders.len(),
        0 <= count <= price_time_count(orders, executable),
    ensures
        taken(price_time_fills(orders, executable).take(count), index) == (if index < count {
            if executable - lots_sum(orders.take(index)) < orders[index].quantity.lots {
                executable - lots_sum(orders.take(index))
            } else {
                orders[index].quantity.lots as int
            }
        } else {
            0
        }),
    decreases count,
{
    lemma_price_time_count(orders, executable);
    let fills = price_time_fills(orders, executable);
    if count > 0 {
        lemma_price_time_taken(orders, executable, count - 1, index);
        assert(fills.take(count).drop_last() =~= fills.take(count - 1));
        assert(lots_sum(orders.take(count - 1)) < executable);
    }
}

/// A list without an order fault is canonical and its eligible total fits.
proof fn lemma_side_valid(
    orders: Seq<AuctionOrder>,
    side: Side,
    grid: AuctionPriceGrid,
    price: Price,
)
    requires
        first_order_fault(orders, side, grid, price, orders.len()) is None,
    ensures
        orders_valid(orders, side, price),
{
    lemma_orders_valid(orders, side, grid, price, orders.len());
    assert(orders.take(orders.len() as int) =~= orders);
}

proof fn lemma_quantum_aligned(orders: Seq<AuctionOrder>, side: Side, quantum: u64, count: nat)
    requires
        count <= orders.len(),
        first_quantum_fault(orders, side, quantum, count) is None,
    ensures
        forall|i: int|
            0 <= i < count ==> (#[trigger] orders[i]).quantity.lots as int % quantum as int == 0,
    decreases count,
{
    if count > 0 {
        lemma_quantum_aligned(orders, side, quantum, (count - 1) as nat);
    }
}

/// What an accepted allocation request says of its two sides.
proof fn lemma_request_ready(
    bids: Seq<AuctionOrder>,
    asks: Seq<AuctionOrder>,
    grid: AuctionPriceGrid,
    clearing: AuctionClearing,
    policy: AuctionAllocationPolicy,
    quantum: u64,
    limits: AuctionAllocationLimits,
)
    requires
        clearing.wf(),
        allocation_fault(bids, asks, grid, clearing, policy, quantum, limits) is None,
    ensures
        orders_valid(bids, Side::Buy, clearing.price),
        orders_valid(asks, Side::Sell, clearing.price),
        bids.len() <= usize::MAX,
        asks.len() <= usize::MAX,
        0 < clearing.executable_quantity <= eligible_lots(bids, Side::Buy, clearing.price),
        0 < clearing.executable_quantity <= eligible_lots(asks, Side::Sell, clearing.price),
        policy == AuctionAllocationPolicy::ProRataTime ==> pro_rata_ready(
            bids,
            Side::Buy,
            clearing.price,
            quantum as int,
            0,
            clearing.executable_quantity as int,
        ) && pro_rata_ready(
            asks,
            Side::Sell,
            clearing.price,
            quantum as int,
            0,
            clearing.executable_quantity as int,
        ),
{
    lemma_side_valid(bids, Side::Buy, grid, clearing.price);
    lemma_side_valid(asks, Side::Sell, grid, clearing.price);
    if policy == AuctionAllocationPolicy::ProRataTime {
        lemma_quantum_aligned(bids, Side::Buy, quantum, bids.len());
        lemma_quantum_aligned(asks, Side::Sell, quantum, asks.len());
        lemma_eligible_aligned(bids, Side::Buy, clearing.price, quantum as int);
        lemma_eligible_aligned(asks, Side::Sell, clearing.price, quantum as int);
        assert(bids.take(0) =~= Seq::<AuctionOrder>::empty());
        assert(asks.take(0) =~= Seq::<AuctionOrder>::empty());
    }
}

/// Orders that an allocation accepts stand in rank: no order ranks ahead of one
/// listed before it, and at one constraint and class the earlier sequence, then
/// the lower identity, comes first.
pub proof fn law_accepted_orders_are_ranked(
    bids: Seq<AuctionOrder>,
    asks: Seq<AuctionOrder>,
    grid: AuctionPriceGrid,
    clearing: AuctionClearing,
    policy: AuctionAllocationPolicy,
    quantum: u64,
    limits: AuctionAllocationLimits,
    side: Side,
    first: int,
    second: int,
)
    requires
        clearing.wf(),
        allocation_fault(bids, asks, grid, clearing, policy, quantum, limits) is None,
        0 <= first < second < (if side == Side::Buy { bids.len() } else { asks.len() }),
    ensures
        ({
            let orders = if side == Side::Buy { bids } else { asks };
            let left = orders[first];
            let right = orders[second];
            &&& !ranks_ahead(right, left, side)
            &&& ranks_ahead(left, right, side) || competes(left, right)
            &&& competes(left, right) ==> left.priority_sequence < right.priority_sequence
                || left.priority_sequence == right.priority_sequence && left.order_id.value
                < right.order_id.value
        }),
{
    lemma_request_ready(bids, asks, grid, clearing, policy, quantum, limits);
    let orders = if side == Side::Buy { bids } else { asks };
    assert(order_before(orders[first], orders[second], side));
}

/// An allocation takes lots only of market orders, bids at or above and asks at
/// or below the clearing price, and never more than the order holds.
pub proof fn law_fills_respect_limits(
    bids: Seq<AuctionOrder>,
    asks: Seq<AuctionOrder>,
    grid: AuctionPriceGrid,
    clearing: AuctionClearing,
    policy: AuctionAllocationPolicy,
    quantum: u64,
    limits: AuctionAllocationLimits,
    plan: AuctionAllocationPlan,
    index: int,
)
    requires
        clearing.wf(),
        allocation_fault(bids, asks, grid, clearing, policy, quantum, limits) is None,
        is_allocation(bids, asks, clearing, policy, quantum, plan),
    ensures
        0 <= index < bids.len() ==> {
            &&& 0 <= taken(plan.buy_fills@, index) <= bids[index].quantity.lots
            &&& taken(plan.buy_fills@, index) > 0 ==> match bids[index].constraint {
                AuctionOrderConstraint::Market => true,
                AuctionOrderConstraint::Limit(limit) => limit.raw >= clearing.price.raw,
            }
        },
        0 <= index < asks.len() ==> {
            &&& 0 <= taken(plan.sell_fills@, index) <= asks[index].quantity.lots
            &&& taken(plan.sell_fills@, index) > 0 ==> match asks[index].constraint {
                AuctionOrderConstraint::Market => true,
                AuctionOrderConstraint::Limit(limit) => limit.raw <= clearing.price.raw,
            }
        },
{
    lemma_request_ready(bids, asks, grid, clearing, policy, quantum, limits);
    let executable = clearing.executable_quantity as int;
    if 0 <= index < bids.len() {
        lemma_policy_from(
            bids,
            Side::Buy,
            clearing.price,
            executable,
            policy,
            quantum as int,
            index,
        );
    }
    if 0 <= index < asks.len() {
        lemma_policy_from(
            asks,
            Side::Sell,
            clearing.price,
            executable,
            policy,
            quantum as int,
            index,
        );
    }
}

proof fn lemma_policy_from(
    orders: Seq<AuctionOrder>,
    side: Side,
    price: Price,
    executable: int,
    policy: AuctionAllocationPolicy,
    quantum: int,
    index: int,
)
    requires
        orders_valid(orders, side, price),
        orders.len() <= usize::MAX,
        0 <= executable <= eligible_lots(orders, side, price),
        policy == AuctionAllocationPolicy::ProRataTime ==> pro_rata_ready(
            orders,
            side,
            price,
            quantum,
            0,
            executable,
        ),
        0 <= index < orders.len(),
    ensures
        ({
            let fills = policy_fills(orders, side, price, executable, policy, quantum);
            &&& 0 <= taken(fills, index) <= orders[index].quantity.lots
            &&& taken(fills, index) > 0 ==> eligible(orders[index], side, price)
        }),
{
    match policy {
        AuctionAllocationPolicy::PriceTime => {
            lemma_executable_covered(orders, side, price, 0);
            lemma_price_time_count(orders, executable);
            let count = price_time_count(orders, executable) as int;
            lemma_price_time_taken(orders, executable, count, index);
            let fills = price_time_fills(orders, executable);
            assert(fills.take(count) =~= fills);
            if index < count {
                assert(lots_sum(orders.take(index)) < executable);
                lemma_price_time_eligible(orders, side, price, executable, index);
            }
        },
        AuctionAllocationPolicy::ProRataTime => {
            lemma_pro_rata_from(orders, side, price, quantum, 0, executable, index);
        },
    }
}

/// Whoever gets lots, every order that ranks ahead of it by constraint, price or
/// class is filled completely, under either policy.
pub proof fn law_better_ranks_fill_first(
    bids: Seq<AuctionOrder>,
    asks: Seq<AuctionOrder>,
    grid: AuctionPriceGrid,
    clearing: AuctionClearing,
    policy: AuctionAllocationPolicy,
    quantum: u64,
    limits: AuctionAllocationLimits,
    plan: AuctionAllocationPlan,
    ahead: int,
    behind: int,
)
    requires
        clearing.wf(),
        allocation_fault(bids, asks, grid, clearing, policy, quantum, limits) is None,
        is_allocation(bids, asks, clearing, policy, quantum, plan),
    ensures
        0 <= ahead < bids.len() && 0 <= behind < bids.len() && ranks_ahead(
            bids[ahead],
            bids[behind],
            Side::Buy,
        ) && taken(plan.buy_fills@, behind) > 0 ==> taken(plan.buy_fills@, ahead)
            == bids[ahead].quantity.lots,
        0 <= ahead < asks.len() && 0 <= behind < asks.len() && ranks_ahead(
            asks[ahead],
            asks[behind],
            Side::Sell,
        ) && taken(plan.sell_fills@, behind) > 0 ==> taken(plan.sell_fills@, ahead)
            == asks[ahead].quantity.lots,
{
    lemma_request_ready(bids, asks, grid, clearing, policy, quantum, limits);
    let executable = clearing.executable_quantity as int;
    if 0 <= ahead < bids.len() && 0 <= behind < bids.len() && ranks_ahead(
        bids[ahead],
        bids[behind],
        Side::Buy,
    ) {
        lemma_policy_ahead(
            bids,
            Side::Buy,
            clearing.price,
            executable,
            policy,
            quantum as int,
            ahead,
            behind,
        );
    }
    if 0 <= ahead < asks.len() && 0 <= behind < asks.len() && ranks_ahead(
        asks[ahead],
        asks[behind],
        Side::Sell,
    ) {
        lemma_policy_ahead(
            asks,
            Side::Sell,
            clearing.price,
            executable,
            policy,
            quantum as int,
            ahead,
            behind,
        );
    }
}

proof fn lemma_policy_ahead(
    orders: Seq<AuctionOrder>,
    side: Side,
    price: Price,
    executable: int,
    policy: AuctionAllocationPolicy,
    quantum: int,
    ahead: int,
    behind: int,
)
    requires
        orders_valid(orders, side, price),
        orders.len() <= usize::MAX,
        0 <= executable <= eligible_lots(orders, side, price),
        policy == AuctionAllocationPolicy::ProRataTime ==> pro_rata_ready(
            orders,
            side,
            price,
            quantum,
            0,
            executable,
        ),
        0 <= ahead < orders.len(),
        0 <= behind < orders.len(),
        ranks_ahead(orders[ahead], orders[behind], side),
    ensures
        ({
            let fills = policy_fills(orders, side, price, executable, policy, quantum);
            taken(fills, behind) > 0 ==> taken(fills, ahead) == orders[ahead].quantity.lots
        }),
{
    if behind < ahead {
        assert(order_before(orders[behind], orders[ahead], side));
    }
    match policy {
        AuctionAllocationPolicy::PriceTime => {
            lemma_price_time_ahead(orders, side, price, executable, ahead, behind);
        },
        AuctionAllocationPolicy::ProRataTime => {
            lemma_pro_rata_ahead(orders, side, price, quantum, 0, executable, ahead, behind);
        },
    }
}

proof fn lemma_price_time_ahead(
    orders: Seq<AuctionOrder>,
    side: Side,
    price: Price,
    executable: int,
    ahead: int,
    behind: int,
)
    requires
        orders_valid(orders, side, price),
        orders.len() <= usize::MAX,
        0 <= executable <= eligible_lots(orders, side, price),
        0 <= ahead < behind < orders.len(),
    ensures
        ({
            let fills = price_time_fills(orders, executable);
            taken(fills, behind) > 0 ==> taken(fills, ahead) == orders[ahead].quantity.lots
        }),
{
    lemma_executable_covered(orders, side, price, 0);
    lemma_price_time_count(orders, executable);
    let count = price_time_count(orders, executable) as int;
    lemma_price_time_taken(orders, executable, count, ahead);
    lemma_price_time_taken(orders, executable, count, behind);
    let fills = price_time_fills(orders, executable);
    assert(fills.take(count) =~= fills);
    if behind < count {
        assert(lots_sum(orders.take(behind)) < executable);
        lemma_lots_push(orders, ahead);
        lemma_lots_split(orders, ahead + 1, behind);
    }
}

/// Under price-time priority whoever gets lots, every earlier order at the same
/// constraint and class, by sequence and then identity, is filled completely.
pub proof fn law_earlier_orders_fill_first(
    bids: Seq<AuctionOrder>,
    asks: Seq<AuctionOrder>,
    grid: AuctionPriceGrid,
    clearing: AuctionClearing,
    quantum: u64,
    limits: AuctionAllocationLimits,
    plan: AuctionAllocationPlan,
    ahead: int,
    behind: int,
)
    requires
        clearing.wf(),
        allocation_fault(
            bids,
            asks,
            grid,
            clearing,
            AuctionAllocationPolicy::PriceTime,
            quantum,
            limits,
        ) is None,
        is_allocation(
            bids,
            asks,
            clearing,
            AuctionAllocationPolicy::PriceTime,
            quantum,
            plan,
        ),
    ensures
        0 <= ahead < bids.len() && 0 <= behind < bids.len() && competes(bids[ahead], bids[behind])
            && (bids[ahead].priority_sequence < bids[behind].priority_sequence
            || bids[ahead].priority_sequence == bids[behind].priority_sequence
            && bids[ahead].order_id.value < bids[behind].order_id.value) && taken(
            plan.buy_fills@,
            behind,
        ) > 0 ==> taken(plan.buy_fills@, ahead) == bids[ahead].quantity.lots,
        0 <= ahead < asks.len() && 0 <= behind < asks.len() && competes(asks[ahead], asks[behind])
            && (asks[ahead].priority_sequence < asks[behind].priority_sequence
            || asks[ahead].priority_sequence == asks[behind].priority_sequence
            && asks[ahead].order_id.value < asks[behind].order_id.value) && taken(
            plan.sell_fills@,
            behind,
        ) > 0 ==> taken(plan.sell_fills@, ahead) == asks[ahead].quantity.lots,
{
    let policy = AuctionAllocationPolicy::PriceTime;
    lemma_request_ready(bids, asks, grid, clearing, policy, quantum, limits);
    let executable = clearing.executable_quantity as int;
    if 0 <= ahead < bids.len() && 0 <= behind < bids.len() {
        if behind < ahead {
            assert(order_before(bids[behind], bids[ahead], Side::Buy));
        } else if ahead < behind {
            lemma_price_time_ahead(bids, Side::Buy, clearing.price, executable, ahead, behind);
        }
    }
    if 0 <= ahead < asks.len() && 0 <= behind < asks.len() {
        if behind < ahead {
            assert(order_before(asks[behind], asks[ahead], Side::Sell));
        } else if ahead < behind {
            lemma_price_time_ahead(asks, Side::Sell, clearing.price, executable, ahead, behind);
        }
    }
}

/// Whether the orders that compete with one order share in one ratio: each gets
/// that part of its quanta rounded down, and those listed before the cut one
/// quantum more.
pub open spec fn shares_evenly(
    orders: Seq<AuctionOrder>,
    fills: Seq<AuctionOrderFill>,
    quantum: int,
    member: int,
    part: int,
    whole: int,
    cut: int,
) -> bool {
    &&& 0 <= part <= whole
    &&& 0 < whole
    &&& forall|k: int|
        0 <= k < orders.len() && competes(#[trigger] orders[k], orders[member]) ==> taken(fills, k)
            == quantum * (((orders[k].quantity.lots as int / quantum) * part) / whole + (if k
            < cut {
            1int
        } else {
            0
        }))
}

/// The same, of the orders from one position on.
spec fn shares_from(
    orders: Seq<AuctionOrder>,
    fills: Seq<AuctionOrderFill>,
    quantum: int,
    start: int,
    member: int,
    part: int,
    whole: int,
    cut: int,
) -> bool {
    &&& 0 <= part <= whole
    &&& 0 < whole
    &&& forall|k: int|
        start <= k < orders.len() && competes(#[trigger] orders[k], orders[member]) ==> taken(
            fills,
            k,
        ) == quantum * (((orders[k].quantity.lots as int / quantum) * part) / whole + (if k
            < cut {
            1int
        } else {
            0
        }))
}

/// Orders that compete stand in one run.
proof fn lemma_run_covers(
    orders: Seq<AuctionOrder>,
    side: Side,
    price: Price,
    start: int,
    index: int,
    member: int,
)
    requires
        orders_valid(orders, side, price),
        0 <= start < orders.len(),
        eligible(orders[start], side, price),
        start <= index < tier_end(orders, side, price, orders[start], start + 1),
        start <= member < orders.len(),
        competes(orders[member], orders[index]),
    ensures
        member < tier_end(orders, side, price, orders[start], start + 1),
{
    let first = orders[start];
    lemma_tier_end(orders, side, price, first, start + 1);
    if index > start {
        lemma_tier_shared(orders, side, price, first, start + 1, index);
    }
    if member > start {
        assert forall|k: int| start + 1 <= k <= member implies eligible(
            #[trigger] orders[k],
            side,
            price,
        ) && same_tier(first, orders[k]) by {
            assert(order_before(orders[start], orders[k], side));
            if k < member {
                assert(order_before(orders[k], orders[member], side));
            }
        }
        lemma_tier_covers(orders, side, price, first, start + 1, member);
    }
}

/// Where every order holds a quantum, each counts as a holder.
proof fn lemma_holders_all(orders: Seq<AuctionOrder>, start: int, index: int, quantum: int)
    requires
        0 <= start <= index <= orders.len(),
        forall|i: int| 0 <= i < orders.len() ==> order_quanta(#[trigger] orders[i], quantum) > 0,
    ensures
        quantum_holders(orders, start, index, quantum) == index - start,
    decreases index - start,
{
    if start < index {
        lemma_holders_all(orders, start, index - 1, quantum);
        assert(order_quanta(orders[index - 1], quantum) > 0);
    }
}

proof fn lemma_whole_quanta(lots: int, quantum: int)
    requires
        quantum > 0,
        lots > 0,
        lots % quantum == 0,
    ensures
        lots / quantum > 0,
        quantum * (lots / quantum) == lots,
        ((lots / quantum) * 1) / 1 == lots / quantum,
        ((lots / quantum) * 0) / 1 == 0,
{
    vstd::arithmetic::div_mod::lemma_fundamental_div_mod(lots, quantum);
    let quanta = lots / quantum;
    assert(quanta > 0) by (nonlinear_arith)
        requires
            lots == quantum * quanta,
            lots > 0,
            quantum > 0,
    ;
    vstd::arithmetic::div_mod::lemma_div_basics(quanta);
    assert(quanta * 0 == 0) by (nonlinear_arith);
}

proof fn lemma_pro_rata_shares(
    orders: Seq<AuctionOrder>,
    side: Side,
    price: Price,
    quantum: int,
    start: int,
    remaining: int,
    member: int,
) -> (r: (int, int, int))
    requires
        pro_rata_ready(orders, side, price, quantum, start, remaining),
        orders.len() <= usize::MAX,
        forall|i: int| 0 <= i < orders.len() ==> (#[trigger] orders[i]).quantity.lots > 0,
        start <= member < orders.len(),
    ensures
        shares_from(
            orders,
            pro_rata_fills(orders, side, price, quantum, start, remaining),
            quantum,
            start,
            member,
            r.0,
            r.1,
            r.2,
        ),
    decreases orders.len() - start,
{
    let fills = pro_rata_fills(orders, side, price, quantum, start, remaining);
    assert forall|i: int| 0 <= i < orders.len() implies order_quanta(#[trigger] orders[i], quantum)
        > 0 by {
        lemma_whole_quanta(orders[i].quantity.lots as int, quantum);
    }
    if remaining <= 0 {
        assert(quantum * 0 == 0) by (nonlinear_arith);
        assert(fills.len() == 0);
        assert forall|k: int|
            start <= k < orders.len() && competes(
                #[trigger] orders[k],
                orders[member],
            ) implies taken(fills, k) == quantum * (((orders[k].quantity.lots as int / quantum) * 0) / 1 + 0) by {
            lemma_whole_quanta(orders[k].quantity.lots as int, quantum);
        }
        (0, 1, 0)
    } else {
        lemma_pro_rata_step(orders, side, price, quantum, start, remaining);
        let end = tier_end(orders, side, price, orders[start], start + 1);
        let tier = lots_sum(orders.subrange(start, end));
        if remaining >= tier {
            let head = full_fills(orders, start, end);
            let rest = pro_rata_fills(orders, side, price, quantum, end, remaining - tier);
            if member < end {
                assert forall|k: int|
                    start <= k < orders.len() && competes(
                        #[trigger] orders[k],
                        orders[member],
                    ) implies taken(fills, k) == quantum * (((orders[k].quantity.lots as int
                    / quantum) * 1) / 1 + 0) by {
                    lemma_run_covers(orders, side, price, start, member, k);
                    lemma_whole_quanta(orders[k].quantity.lots as int, quantum);
                    lemma_taken_full(orders, start, end, k);
                    lemma_taken_concat(head, rest, k);
                    lemma_pro_rata_from(orders, side, price, quantum, end, remaining - tier, k);
                }
                (1, 1, 0)
            } else {
                let (part, whole, cut) = lemma_pro_rata_shares(
                    orders,
                    side,
                    price,
                    quantum,
                    end,
                    remaining - tier,
                    member,
                );
                assert forall|k: int|
                    start <= k < orders.len() && competes(
                        #[trigger] orders[k],
                        orders[member],
                    ) implies taken(fills, k) == quantum * (((orders[k].quantity.lots as int
                    / quantum) * part) / whole + (if k < cut {
                    1int
                } else {
                    0
                })) by {
                    if k < end {
                        lemma_run_covers(orders, side, price, start, k, member);
                    }
                    lemma_taken_full(orders, start, end, k);
                    lemma_taken_concat(head, rest, k);
                }
                (part, whole, cut)
            }
        } else {
            let rq = remaining / quantum;
            let tq = tier / quantum;
            lemma_residual(orders, start, end, quantum, rq, tq);
            let residual = rq - base_sum(orders, start, end, quantum, rq, tq);
            if member < end {
                assert forall|k: int|
                    start <= k < orders.len() && competes(
                        #[trigger] orders[k],
                        orders[member],
                    ) implies taken(fills, k) == quantum * (((orders[k].quantity.lots as int
                    / quantum) * rq) / tq + (if k < start + residual {
                    1int
                } else {
                    0
                })) by {
                    lemma_run_covers(orders, side, price, start, member, k);
                    lemma_taken_marginal(orders, start, start, end, quantum, rq, tq, residual, k);
                    lemma_holders_all(orders, start, k, quantum);
                    let quanta = marginal_quanta(orders, start, k, quantum, rq, tq, residual);
                    assert(quanta * quantum == quantum * quanta) by (nonlinear_arith);
                }
                (rq, tq, start + residual)
            } else {
                assert forall|k: int|
                    start <= k < orders.len() && competes(
                        #[trigger] orders[k],
                        orders[member],
                    ) implies taken(fills, k) == quantum * (((orders[k].quantity.lots as int
                    / quantum) * 0) / 1 + 0) by {
                    if k < end {
                        lemma_run_covers(orders, side, price, start, k, member);
                    }
                    lemma_whole_quanta(orders[k].quantity.lots as int, quantum);
                    lemma_taken_marginal(orders, start, start, end, quantum, rq, tq, residual, k);
                }
                (0, 1, 0)
            }
        }
    }
}

/// In a pro-rata allocation the orders at one constraint and class share in one
/// ratio of their quantities, in whole quanta: each gets its share rounded down,
/// and the quanta that rounding leaves go one each to the earliest of them.
pub proof fn law_tier_shares_pro_rata(
    bids: Seq<AuctionOrder>,
    asks: Seq<AuctionOrder>,
    grid: AuctionPriceGrid,
    clearing: AuctionClearing,
    quantum: u64,
    limits: AuctionAllocationLimits,
    plan: AuctionAllocationPlan,
    side: Side,
    member: int,
)
    requires
        clearing.wf(),
        allocation_fault(
            bids,
            asks,
            grid,
            clearing,
            AuctionAllocationPolicy::ProRataTime,
            quantum,
            limits,
        ) is None,
        is_allocation(
            bids,
            asks,
            clearing,
            AuctionAllocationPolicy::ProRataTime,
            quantum,
            plan,
        ),
        forall|i: int| 0 <= i < bids.len() ==> (#[trigger] bids[i]).quantity.lots > 0,
        forall|i: int| 0 <= i < asks.len() ==> (#[trigger] asks[i]).quantity.lots > 0,
        0 <= member < (if side == Side::Buy { bids.len() } else { asks.len() }),
    ensures
        match side {
            Side::Buy => exists|part: int, whole: int, cut: int| #[trigger]
                shares_evenly(
                    bids,
                    plan.buy_fills@,
                    quantum as int,
                    member,
                    part,
                    whole,
                    cut,
                ),
            Side::Sell => exists|part: int, whole: int, cut: int| #[trigger]
                shares_evenly(
                    asks,
                    plan.sell_fills@,
                    quantum as int,
                    member,
                    part,
                    whole,
                    cut,
                ),
        },
{
    let policy = AuctionAllocationPolicy::ProRataTime;
    lemma_request_ready(bids, asks, grid, clearing, policy, quantum, limits);
    let orders = if side == Side::Buy { bids } else { asks };
    let fills = if side == Side::Buy { plan.buy_fills@ } else { plan.sell_fills@ };
    let (part, whole, cut) = lemma_pro_rata_shares(
        orders,
        side,
        clearing.price,
        quantum as int,
        0,
        clearing.executable_quantity as int,
        member,
    );
    assert(shares_from(orders, fills, quantum as int, 0, member, part, whole, cut));
    assert(shares_evenly(orders, fills, quantum as int, member, part, whole, cut));
}

/// Of two orders of one size at one constraint and class, a pro-rata allocation
/// gives the one listed first as much as the other or one quantum more.
pub proof fn law_equal_orders_share_alike(
    bids: Seq<AuctionOrder>,
    asks: Seq<AuctionOrder>,
    grid: AuctionPriceGrid,
    clearing: AuctionClearing,
    quantum: u64,
    limits: AuctionAllocationLimits,
    plan: AuctionAllocationPlan,
    side: Side,
    first: int,
    second: int,
)
    requires
        clearing.wf(),
        allocation_fault(
            bids,
            asks,
            grid,
            clearing,
            AuctionAllocationPolicy::ProRataTime,
            quantum,
            limits,
        ) is None,
        is_allocation(
            bids,
            asks,
            clearing,
            AuctionAllocationPolicy::ProRataTime,
            quantum,
            plan,
        ),
        forall|i: int| 0 <= i < bids.len() ==> (#[trigger] bids[i]).quantity.lots > 0,
        forall|i: int| 0 <= i < asks.len() ==> (#[trigger] asks[i]).quantity.lots > 0,
        0 <= first < second < (if side == Side::Buy { bids.len() } else { asks.len() }),
        competes(
            (if side == Side::Buy { bids } else { asks })[first],
            (if side == Side::Buy { bids } else { asks })[second],
        ),
        (if side == Side::Buy { bids } else { asks })[first].quantity == (if side == Side::Buy {
            bids
        } else {
            asks
        })[second].quantity,
    ensures
        ({
            let fills = if side == Side::Buy { plan.buy_fills@ } else { plan.sell_fills@ };
            taken(fills, first) == taken(fills, second) || taken(fills, first) == taken(
                fills,
                second,
            ) + quantum
        }),
{
    law_tier_shares_pro_rata(bids, asks, grid, clearing, quantum, limits, plan, side, first);
    let orders = if side == Side::Buy { bids } else { asks };
    let fills = if side == Side::Buy { plan.buy_fills@ } else { plan.sell_fills@ };
    let (part, whole, cut) = choose|part: int, whole: int, cut: int| #[trigger]
        shares_evenly(orders, fills, quantum as int, first, part, whole, cut);
    assert(competes(orders[first], orders[first]));
    assert(competes(orders[second], orders[first]));
    let base = ((orders[first].quantity.lots as int / quantum as int) * part) / whole;
    assert(quantum * (base + 1) == quantum * base + quantum) by (nonlinear_arith);
}

/// Market orders, bids at or above and asks at or below the price count towards
/// the eligible lots of their side with their whole quantity, other orders with
/// nothing.
pub proof fn law_orders_join_eligible(
    orders: Seq<AuctionOrder>,
    order: AuctionOrder,
    side: Side,
    price: Price,
)
    ensures
        eligible_lots(Seq::empty(), side, price) == 0,
        eligible_lots(orders.push(order), side, price) - eligible_lots(orders, side, price) == (
        match (side, order.constraint) {
            (_, AuctionOrderConstraint::Market) => order.quantity.lots as int,
            (Side::Buy, AuctionOrderConstraint::Limit(limit)) => if price.raw <= limit.raw {
                order.quantity.lots as int
            } else {
                0
            },
            (Side::Sell, AuctionOrderConstraint::Limit(limit)) => if price.raw >= limit.raw {
                order.quantity.lots as int
            } else {
                0
            },
        }),
{
    assert(orders.push(order).drop_last() =~= orders);
}

/// Lots taken of the first `count` orders.
spec fn taken_before(fills: Seq<AuctionOrderFill>, count: nat) -> int
    decreases count,
{
    if count == 0 {
        0
    } else {
        taken_before(fills, (count - 1) as nat) + taken(fills, count - 1)
    }
}

proof fn lemma_taken_split(fills: Seq<AuctionOrderFill>, count: nat)
    requires
        fills.len() > 0,
    ensures
        taken_before(fills, count) == taken_before(fills.drop_last(), count) + (if (
        fills.last().source_index as int) < count {
            fills.last().quantity_lots as int
        } else {
            0
        }),
    decreases count,
{
    if count > 0 {
        lemma_taken_split(fills, (count - 1) as nat);
    }
}

/// Fills of listed orders add up to what is taken of the list.
proof fn lemma_taken_total(fills: Seq<AuctionOrderFill>, count: nat)
    requires
        forall|k: int| 0 <= k < fills.len() ==> (#[trigger] fills[k]).source_index < count,
    ensures
        taken_before(fills, count) == fill_lots(fills),
    decreases fills.len(),
{
    if fills.len() > 0 {
        let rest = fills.drop_last();
        assert forall|k: int| 0 <= k < rest.len() implies (#[trigger] rest[k]).source_index
            < count by {
            assert(rest[k] == fills[k]);
        }
        lemma_taken_total(rest, count);
        lemma_taken_split(fills, count);
    } else {
        lemma_nothing_taken(fills, count);
    }
}

proof fn lemma_nothing_taken(fills: Seq<AuctionOrderFill>, count: nat)
    requires
        fills.len() == 0,
    ensures
        taken_before(fills, count) == 0,
    decreases count,
{
    if count > 0 {
        lemma_nothing_taken(fills, (count - 1) as nat);
    }
}

/// Where as much is taken as is eligible, every eligible order is filled.
proof fn lemma_all_taken(
    orders: Seq<AuctionOrder>,
    side: Side,
    price: Price,
    fills: Seq<AuctionOrderFill>,
    count: nat,
    index: int,
)
    requires
        count <= orders.len(),
        forall|i: int|
            0 <= i < count ==> {
                &&& 0 <= taken(fills, i) <= (#[trigger] orders[i]).quantity.lots
                &&& taken(fills, i) > 0 ==> eligible(orders[i], side, price)
            },
    ensures
        taken_before(fills, count) <= eligible_lots(orders.take(count as int), side, price),
        taken_before(fills, count) == eligible_lots(orders.take(count as int), side, price) && 0
            <= index < count && eligible(orders[index], side, price) ==> taken(fills, index)
            == orders[index].quantity.lots,
    decreases count,
{
    if count > 0 {
        lemma_all_taken(orders, side, price, fills, (count - 1) as nat, index);
        let last = orders[count - 1];
        assert(orders.take(count as int).drop_last() =~= orders.take(count - 1));
        assert(0 <= taken(fills, count - 1) <= last.quantity.lots);
    }
}

proof fn lemma_policy_total(
    orders: Seq<AuctionOrder>,
    side: Side,
    price: Price,
    executable: int,
    policy: AuctionAllocationPolicy,
    quantum: int,
    index: int,
)
    requires
        orders_valid(orders, side, price),
        orders_positive(orders),
        0 <= executable <= eligible_lots(orders, side, price),
        policy == AuctionAllocationPolicy::ProRataTime ==> pro_rata_ready(
            orders,
            side,
            price,
            quantum,
            0,
            executable,
        ),
        0 <= index < orders.len(),
        eligible(orders[index], side, price),
        executable == eligible_lots(orders, side, price),
    ensures
        taken(policy_fills(orders, side, price, executable, policy, quantum), index)
            == orders[index].quantity.lots,
{
    let fills = policy_fills(orders, side, price, executable, policy, quantum);
    law_fills_reconcile(orders, side, price, executable, policy, quantum);
    lemma_taken_total(fills, orders.len());
    assert forall|i: int| 0 <= i < orders.len() implies {
        &&& 0 <= taken(fills, i) <= (#[trigger] orders[i]).quantity.lots
        &&& taken(fills, i) > 0 ==> eligible(orders[i], side, price)
    } by {
        lemma_policy_from(orders, side, price, executable, policy, quantum, i);
    }
    assert(orders.take(orders.len() as int) =~= orders);
    lemma_all_taken(orders, side, price, fills, orders.len(), index);
}

/// An allocation leaves no trade undone: a bid and an ask that both accept the
/// clearing price are never both left with lots.
pub proof fn law_one_side_is_exhausted(
    bids: Seq<AuctionOrder>,
    asks: Seq<AuctionOrder>,
    grid: AuctionPriceGrid,
    clearing: AuctionClearing,
    policy: AuctionAllocationPolicy,
    quantum: u64,
    limits: AuctionAllocationLimits,
    plan: AuctionAllocationPlan,
    bid: int,
    ask: int,
)
    requires
        clearing.wf(),
        allocation_fault(bids, asks, grid, clearing, policy, quantum, limits) is None,
        is_allocation(bids, asks, clearing, policy, quantum, plan),
        forall|i: int| 0 <= i < bids.len() ==> (#[trigger] bids[i]).quantity.lots > 0,
        forall|i: int| 0 <= i < asks.len() ==> (#[trigger] asks[i]).quantity.lots > 0,
        0 <= bid < bids.len(),
        0 <= ask < asks.len(),
        match bids[bid].constraint {
            AuctionOrderConstraint::Market => true,
            AuctionOrderConstraint::Limit(limit) => limit.raw >= clearing.price.raw,
        },
        match asks[ask].constraint {
            AuctionOrderConstraint::Market => true,
            AuctionOrderConstraint::Limit(limit) => limit.raw <= clearing.price.raw,
        },
    ensures
        taken(plan.buy_fills@, bid) == bids[bid].quantity.lots || taken(plan.sell_fills@, ask)
            == asks[ask].quantity.lots,
{
    lemma_request_ready(bids, asks, grid, clearing, policy, quantum, limits);
    let executable = clearing.executable_quantity as int;
    if executable == clearing.buy_quantity {
        lemma_policy_total(
            bids,
            Side::Buy,
            clearing.price,
            executable,
            policy,
            quantum as int,
            bid,
        );
    } else {
        lemma_policy_total(
            asks,
            Side::Sell,
            clearing.price,
            executable,
            policy,
            quantum as int,
            ask,
        );
    }
}

/// Whether two orders may stand one behind the other in a list: the first ranks
/// ahead, or competes with an earlier sequence or, at one sequence, a lower
/// identity.
pub open spec fn may_precede(left: AuctionOrder, right: AuctionOrder, side: Side) -> bool {
    ranks_ahead(left, right, side) || competes(left, right) && (left.priority_sequence
        < right.priority_sequence || left.priority_sequence == right.priority_sequence
        && left.order_id.value < right.order_id.value)
}

proof fn lemma_orders_accepted(
    orders: Seq<AuctionOrder>,
    side: Side,
    grid: AuctionPriceGrid,
    price: Price,
    count: nat,
)
    requires
        count <= orders.len(),
        forall|i: int|
            0 <= i < orders.len() ==> match (#[trigger] orders[i]).constraint {
                AuctionOrderConstraint::Market => true,
                AuctionOrderConstraint::Limit(limit) => limit.raw as int % grid.tick_i64 as int
                    == 0,
            },
        forall|i: int, j: int|
            0 <= i < j < orders.len() ==> #[trigger] may_precede(orders[i], orders[j], side),
        eligible_lots(orders, side, price) <= u128::MAX,
    ensures
        first_order_fault(orders, side, grid, price, count) is None,
    decreases count,
{
    if count > 0 {
        lemma_orders_accepted(orders, side, grid, price, (count - 1) as nat);
        lemma_eligible_rest(orders, side, price, count as int);
        let order = orders[count - 1];
        if count > 1 {
            assert(may_precede(orders[count - 2], orders[count - 1], side));
        }
        assert(order_fault(orders, side, grid, price, count - 1) is None);
    }
}

proof fn lemma_quantum_accepted(orders: Seq<AuctionOrder>, side: Side, quantum: u64, count: nat)
    requires
        count <= orders.len(),
        forall|i: int|
            0 <= i < orders.len() ==> (#[trigger] orders[i]).quantity.lots as int % quantum as int
                == 0,
    ensures
        first_quantum_fault(orders, side, quantum, count) is None,
    decreases count,
{
    if count > 0 {
        lemma_quantum_accepted(orders, side, quantum, (count - 1) as nat);
        assert(orders[count - 1].quantity.lots as int % quantum as int == 0);
    }
}

/// An allocation is accepted when both lists fit the limit and stand in rank on
/// the grid, the clearing price is on the grid, the eligible lots of both sides
/// are those of the clearing, something executes, and, for pro-rata sharing,
/// every quantity is a multiple of a positive quantum.
pub proof fn law_allocation_accepts(
    bids: Seq<AuctionOrder>,
    asks: Seq<AuctionOrder>,
    grid: AuctionPriceGrid,
    clearing: AuctionClearing,
    policy: AuctionAllocationPolicy,
    quantum: u64,
    limits: AuctionAllocationLimits,
)
    requires
        0 < limits.max_orders_per_side,
        bids.len() <= limits.max_orders_per_side,
        asks.len() <= limits.max_orders_per_side,
        clearing.price.raw as int % grid.tick_i64 as int == 0,
        forall|i: int|
            0 <= i < bids.len() ==> match (#[trigger] bids[i]).constraint {
                AuctionOrderConstraint::Market => true,
                AuctionOrderConstraint::Limit(limit) => limit.raw as int % grid.tick_i64 as int
                    == 0,
            },
        forall|i: int|
            0 <= i < asks.len() ==> match (#[trigger] asks[i]).constraint {
                AuctionOrderConstraint::Market => true,
                AuctionOrderConstraint::Limit(limit) => limit.raw as int % grid.tick_i64 as int
                    == 0,
            },
        forall|i: int, j: int|
            0 <= i < j < bids.len() ==> #[trigger] may_precede(bids[i], bids[j], Side::Buy),
        forall|i: int, j: int|
            0 <= i < j < asks.len() ==> #[trigger] may_precede(asks[i], asks[j], Side::Sell),
        eligible_lots(bids, Side::Buy, clearing.price) == clearing.buy_quantity,
        eligible_lots(asks, Side::Sell, clearing.price) == clearing.sell_quantity,
        clearing.executable_quantity > 0,
        policy == AuctionAllocationPolicy::ProRataTime ==> {
            &&& quantum > 0
            &&& forall|i: int|
                0 <= i < bids.len() ==> (#[trigger] bids[i]).quantity.lots as int
                    % quantum as int == 0
            &&& forall|i: int|
                0 <= i < asks.len() ==> (#[trigger] asks[i]).quantity.lots as int
                    % quantum as int == 0
        },
    ensures
        allocation_fault(bids, asks, grid, clearing, policy, quantum, limits) is None,
{
    lemma_orders_accepted(bids, Side::Buy, grid, clearing.price, bids.len());
    lemma_orders_accepted(asks, Side::Sell, grid, clearing.price, asks.len());
    if policy == AuctionAllocationPolicy::ProRataTime {
        lemma_quantum_accepted(bids, Side::Buy, quantum, bids.len());
        lemma_quantum_accepted(asks, Side::Sell, quantum, asks.len());
    }
}

proof fn lemma_grid_checked(
    orders: Seq<AuctionOrder>,
    side: Side,
    grid: AuctionPriceGrid,
    price: Price,
    count: nat,
)
    requires
        count <= orders.len(),
        first_order_fault(orders, side, grid, price, count) is None,
    ensures
        forall|i: int|
            0 <= i < count ==> match (#[trigger] orders[i]).constraint {
                AuctionOrderConstraint::Market => true,
                AuctionOrderConstraint::Limit(limit) => limit.raw as int % grid.tick_i64 as int
                    == 0,
            },
    decreases count,
{
    if count > 0 {
        lemma_grid_checked(orders, side, grid, price, (count - 1) as nat);
        assert(order_fault(orders, side, grid, price, count - 1) is None);
    }
}

/// An accepted allocation has both lists within the limit, every price on the
/// grid, the eligible lots of both sides equal to those of the clearing, and, for
/// pro-rata sharing, every quantity a multiple of a positive quantum.
pub proof fn law_accepted_allocation_is_checked(
    bids: Seq<AuctionOrder>,
    asks: Seq<AuctionOrder>,
    grid: AuctionPriceGrid,
    clearing: AuctionClearing,
    policy: AuctionAllocationPolicy,
    quantum: u64,
    limits: AuctionAllocationLimits,
)
    requires
        allocation_fault(bids, asks, grid, clearing, policy, quantum, limits) is None,
    ensures
        0 < limits.max_orders_per_side,
        bids.len() <= limits.max_orders_per_side,
        asks.len() <= limits.max_orders_per_side,
        clearing.price.raw as int % grid.tick_i64 as int == 0,
        forall|i: int|
            0 <= i < bids.len() ==> match (#[trigger] bids[i]).constraint {
                AuctionOrderConstraint::Market => true,
                AuctionOrderConstraint::Limit(limit) => limit.raw as int % grid.tick_i64 as int
                    == 0,
            },
        forall|i: int|
            0 <= i < asks.len() ==> match (#[trigger] asks[i]).constraint {
                AuctionOrderConstraint::Market => true,
                AuctionOrderConstraint::Limit(limit) => limit.raw as int % grid.tick_i64 as int
                    == 0,
            },
        eligible_lots(bids, Side::Buy, clearing.price) == clearing.buy_quantity,
        eligible_lots(asks, Side::Sell, clearing.price) == clearing.sell_quantity,
        clearing.executable_quantity > 0,
        policy == AuctionAllocationPolicy::ProRataTime ==> {
            &&& quantum > 0
            &&& forall|i: int|
                0 <= i < bids.len() ==> (#[trigger] bids[i]).quantity.lots as int
                    % quantum as int == 0
            &&& forall|i: int|
                0 <= i < asks.len() ==> (#[trigger] asks[i]).quantity.lots as int
                    % quantum as int == 0
        },
{
    lemma_grid_checked(bids, Side::Buy, grid, clearing.price, bids.len());
    lemma_grid_checked(asks, Side::Sell, grid, clearing.price, asks.len());
    if policy == AuctionAllocationPolicy::ProRataTime {
        lemma_quantum_aligned(bids, Side::Buy, quantum, bids.len());
        lemma_quantum_aligned(asks, Side::Sell, quantum, asks.len());
    }
}

/// The fills of an allocation add up to the executable quantity on both sides, and
/// each is positive and names the order at its source index.
pub proof fn law_fills_add_up(
    bids: Seq<AuctionOrder>,
    asks: Seq<AuctionOrder>,
    grid: AuctionPriceGrid,
    clearing: AuctionClearing,
    policy: AuctionAllocationPolicy,
    quantum: u64,
    limits: AuctionAllocationLimits,
    plan: AuctionAllocationPlan,
    k: int,
)
    requires
        clearing.wf(),
        allocation_fault(bids, asks, grid, clearing, policy, quantum, limits) is None,
        is_allocation(bids, asks, clearing, policy, quantum, plan),
        forall|i: int| 0 <= i < bids.len() ==> (#[trigger] bids[i]).quantity.lots > 0,
        forall|i: int| 0 <= i < asks.len() ==> (#[trigger] asks[i]).quantity.lots > 0,
    ensures
        plan.clearing == clearing,
        fill_lots(plan.buy_fills@) == clearing.executable_quantity,
        fill_lots(plan.sell_fills@) == clearing.executable_quantity,
        0 <= k < plan.buy_fills@.len() ==> {
            let fill = plan.buy_fills@[k];
            &&& fill.source_index < bids.len()
            &&& fill.order_id == bids[fill.source_index as int].order_id
            &&& fill.quantity_lots > 0
        },
        0 <= k < plan.sell_fills@.len() ==> {
            let fill = plan.sell_fills@[k];
            &&& fill.source_index < asks.len()
            &&& fill.order_id == asks[fill.source_index as int].order_id
            &&& fill.quantity_lots > 0
        },
{
    let executable = clearing.executable_quantity as int;
    lemma_request_ready(bids, asks, grid, clearing, policy, quantum, limits);
    law_fills_reconcile(bids, Side::Buy, clearing.price, executable, policy, quantum as int);
    law_fills_reconcile(asks, Side::Sell, clearing.price, executable, policy, quantum as int);
}

/// What an order fault says of the orders.
spec fn names_order_fault(
    orders: Seq<AuctionOrder>,
    side: Side,
    grid: AuctionPriceGrid,
    price: Price,
    count: nat,
    error: AuctionAllocationError,
) -> bool {
    match error {
        AuctionAllocationError::LimitPriceOffGrid { side: named, index } => {
            &&& named == side
            &&& index < count
            &&& orders[index as int].constraint is Limit
            &&& orders[index as int].constraint->Limit_0.raw as int % grid.tick_i64 as int != 0
        },
        AuctionAllocationError::NonCanonicalOrders { side: named, index } => {
            &&& named == side
            &&& 0 < index < count
            &&& !may_precede(orders[index - 1], orders[index as int], side)
        },
        AuctionAllocationError::QuantityOverflow(named) => named == side && eligible_lots(
            orders,
            side,
            price,
        ) > u128::MAX,
        _ => false,
    }
}

proof fn lemma_order_fault_named(
    orders: Seq<AuctionOrder>,
    side: Side,
    grid: AuctionPriceGrid,
    price: Price,
    count: nat,
)
    requires
        count <= orders.len() <= usize::MAX,
    ensures
        first_order_fault(orders, side, grid, price, count) matches Some(error)
            ==> names_order_fault(orders, side, grid, price, count, error),
    decreases count,
{
    if count > 0 {
        lemma_order_fault_named(orders, side, grid, price, (count - 1) as nat);
        lemma_eligible_rest(orders, side, price, count as int);
        if count > 1 && may_precede(orders[count - 2], orders[count - 1], side) {
            assert(order_before(orders[count - 2], orders[count - 1], side));
        }
    }
}

proof fn lemma_quantum_fault_named(
    orders: Seq<AuctionOrder>,
    side: Side,
    quantum: u64,
    count: nat,
)
    requires
        count <= orders.len() <= usize::MAX,
        quantum > 0,
    ensures
        match first_quantum_fault(orders, side, quantum, count) {
            None => true,
            Some(AuctionAllocationError::OrderQuantityOffAllocationGrid {
                side: named,
                index,
                quantity_lots,
                allocation_quantum_lots,
            }) => {
                &&& named == side
                &&& index < count
                &&& quantity_lots == orders[index as int].quantity.lots
                &&& allocation_quantum_lots == quantum
                &&& quantity_lots as int % quantum as int != 0
            },
            Some(_) => false,
        },
    decreases count,
{
    if count > 0 {
        lemma_quantum_fault_named(orders, side, quantum, (count - 1) as nat);
    }
}

/// A refused allocation names what is wrong: a zero order limit, a side over it, a
/// clearing price or a limit off the grid, an order out of rank, eligible lots that
/// do not fit or are not those of the clearing, nothing to execute, a zero quantum
/// or an order off it.
pub proof fn law_allocation_refusals(
    bids: Seq<AuctionOrder>,
    asks: Seq<AuctionOrder>,
    grid: AuctionPriceGrid,
    clearing: AuctionClearing,
    policy: AuctionAllocationPolicy,
    quantum: u64,
    limits: AuctionAllocationLimits,
    error: AuctionAllocationError,
)
    requires
        bids.len() <= usize::MAX,
        asks.len() <= usize::MAX,
        allocation_fault(bids, asks, grid, clearing, policy, quantum, limits) == Some(error),
    ensures
        ({
            let price = clearing.price;
            let buy = eligible_lots(bids, Side::Buy, price);
            let sell = eligible_lots(asks, Side::Sell, price);
            match error {
                AuctionAllocationError::InvalidOrderLimit(limit) => limit == 0
                    && limits.max_orders_per_side == 0,
                AuctionAllocationError::OrderLimitExceeded { side, count, maximum } => {
                    &&& count == (if side == Side::Buy { bids.len() } else { asks.len() })
                    &&& maximum == limits.max_orders_per_side
                    &&& count > maximum
                },
                AuctionAllocationError::ClearingPriceOffGrid => price.raw as int
                    % grid.tick_i64 as int != 0,
                AuctionAllocationError::LimitPriceOffGrid { side, index } => {
                    let orders = if side == Side::Buy { bids } else { asks };
                    &&& index < orders.len()
                    &&& orders[index as int].constraint is Limit
                    &&& orders[index as int].constraint->Limit_0.raw as int
                        % grid.tick_i64 as int != 0
                },
                AuctionAllocationError::NonCanonicalOrders { side, index } => {
                    let orders = if side == Side::Buy { bids } else { asks };
                    &&& 0 < index < orders.len()
                    &&& !may_precede(orders[index - 1], orders[index as int], side)
                },
                AuctionAllocationError::QuantityOverflow(side) => {
                    (if side == Side::Buy { buy } else { sell }) > u128::MAX
                },
                AuctionAllocationError::ClearingQuantityMismatch {
                    expected_buy,
                    observed_buy,
                    expected_sell,
                    observed_sell,
                } => {
                    &&& expected_buy == clearing.buy_quantity
                    &&& expected_sell == clearing.sell_quantity
                    &&& buy != expected_buy || sell != expected_sell
                },
                AuctionAllocationError::ZeroExecutableQuantity => clearing.executable_quantity == 0,
                AuctionAllocationError::InvalidAllocationQuantum(found) => found == 0 && quantum
                    == 0,
                AuctionAllocationError::OrderQuantityOffAllocationGrid {
                    side,
                    index,
                    quantity_lots,
                    allocation_quantum_lots,
                } => {
                    let orders = if side == Side::Buy { bids } else { asks };
                    &&& index < orders.len()
                    &&& quantity_lots == orders[index as int].quantity.lots
                    &&& allocation_quantum_lots == quantum
                    &&& quantity_lots as int % quantum as int != 0
                },
                _ => false,
            }
        }),
{
    lemma_order_fault_named(bids, Side::Buy, grid, clearing.price, bids.len());
    lemma_order_fault_named(asks, Side::Sell, grid, clearing.price, asks.len());
    if quantum > 0 {
        lemma_quantum_fault_named(bids, Side::Buy, quantum, bids.len());
        lemma_quantum_fault_named(asks, Side::Sell, quantum, asks.len());
    }
}

} // verus!
