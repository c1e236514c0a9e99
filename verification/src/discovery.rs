//! The clearing-price sweep and its optimality proof.

use vstd::prelude::*;

use crate::auction::{
    band_fault, clearing_of, lemma_grid_gap, lemma_grid_step, outranks, validate_price_band,
    AuctionClearing, AuctionError, AuctionLevel, AuctionMarketInterest, AuctionPressureRule,
    AuctionPriceBand, AuctionPriceGrid, AuctionPricePolicy,
};
use crate::domain::{Price, Side};

verus! {

/// Sum of all level quantities.
pub open spec fn total_quantity(levels: Seq<AuctionLevel>) -> int
    decreases levels.len(),
{
    if levels.len() == 0 {
        0
    } else {
        total_quantity(levels.drop_last()) + levels.last().quantity
    }
}

/// Sum of the level quantities priced at or above `price`.
pub open spec fn quantity_at_or_above(levels: Seq<AuctionLevel>, price: Price) -> int
    decreases levels.len(),
{
    if levels.len() == 0 {
        0
    } else {
        quantity_at_or_above(levels.drop_last(), price) + if levels.last().price.raw >= price.raw {
            levels.last().quantity as int
        } else {
            0
        }
    }
}

/// Sum of the level quantities priced at or below `price`.
pub open spec fn quantity_at_or_below(levels: Seq<AuctionLevel>, price: Price) -> int
    decreases levels.len(),
{
    if levels.len() == 0 {
        0
    } else {
        quantity_at_or_below(levels.drop_last(), price) + if levels.last().price.raw <= price.raw {
            levels.last().quantity as int
        } else {
            0
        }
    }
}

/// Eligible buy quantity at one price: market interest and every bid at or above it.
pub open spec fn demand_at(
    bids: Seq<AuctionLevel>,
    market: AuctionMarketInterest,
    price: Price,
) -> int {
    market.buy_quantity + quantity_at_or_above(bids, price)
}

/// Eligible sell quantity at one price: market interest and every ask at or below it.
pub open spec fn supply_at(
    asks: Seq<AuctionLevel>,
    market: AuctionMarketInterest,
    price: Price,
) -> int {
    market.sell_quantity + quantity_at_or_below(asks, price)
}

/// The aggregate auction state at one price.
pub open spec fn clearing_at(
    bids: Seq<AuctionLevel>,
    asks: Seq<AuctionLevel>,
    market: AuctionMarketInterest,
    price: Price,
) -> AuctionClearing {
    clearing_of(
        price,
        demand_at(bids, market, price) as u128,
        supply_at(asks, market, price) as u128,
    )
}

/// Whether two consecutive levels are in canonical order for their side.
pub open spec fn levels_in_order(side: Side, previous: Price, next: Price) -> bool {
    match side {
        Side::Buy => previous.raw > next.raw,
        Side::Sell => previous.raw < next.raw,
    }
}

/// The fault of the level at `index`, given that no earlier level has one.
pub open spec fn level_fault(
    levels: Seq<AuctionLevel>,
    side: Side,
    grid: AuctionPriceGrid,
    index: int,
) -> Option<AuctionError> {
    if !grid.aligned(levels[index].price) {
        Some(AuctionError::PriceOffGrid { side, index: index as usize })
    } else if index > 0 && !levels_in_order(side, levels[index - 1].price, levels[index].price) {
        Some(AuctionError::NonCanonicalLevels { side, index: index as usize })
    } else if total_quantity(levels.take(index + 1)) > u128::MAX {
        Some(AuctionError::QuantityOverflow(side))
    } else {
        None
    }
}

/// The fault of the first invalid level among the first `count`.
pub open spec fn first_level_fault(
    levels: Seq<AuctionLevel>,
    side: Side,
    grid: AuctionPriceGrid,
    count: nat,
) -> Option<AuctionError>
    decreases count,
{
    if count == 0 {
        None
    } else {
        match first_level_fault(levels, side, grid, (count - 1) as nat) {
            Some(error) => Some(error),
            None => level_fault(levels, side, grid, count - 1),
        }
    }
}

/// The first reason why a discovery request is refused.
pub open spec fn discovery_fault(
    bids: Seq<AuctionLevel>,
    asks: Seq<AuctionLevel>,
    market: AuctionMarketInterest,
    grid: AuctionPriceGrid,
    band: AuctionPriceBand,
    reference: Price,
) -> Option<AuctionError> {
    if band_fault(grid, band.minimum, band.maximum) is Some {
        band_fault(grid, band.minimum, band.maximum)
    } else if !grid.aligned(reference) {
        Some(AuctionError::ReferencePriceOffGrid)
    } else if first_level_fault(bids, Side::Buy, grid, bids.len()) is Some {
        first_level_fault(bids, Side::Buy, grid, bids.len())
    } else if first_level_fault(asks, Side::Sell, grid, asks.len()) is Some {
        first_level_fault(asks, Side::Sell, grid, asks.len())
    } else if total_quantity(bids) + market.buy_quantity > u128::MAX {
        Some(AuctionError::QuantityOverflow(Side::Buy))
    } else if total_quantity(asks) + market.sell_quantity > u128::MAX {
        Some(AuctionError::QuantityOverflow(Side::Sell))
    } else {
        None
    }
}

/// Whether a price may clear the auction: on the grid, inside the band, and
/// with executable quantity.
pub open spec fn is_candidate(
    bids: Seq<AuctionLevel>,
    asks: Seq<AuctionLevel>,
    market: AuctionMarketInterest,
    grid: AuctionPriceGrid,
    band: AuctionPriceBand,
    price: Price,
) -> bool {
    grid.aligned(price) && band.covers(price) && clearing_at(
        bids,
        asks,
        market,
        price,
    ).executable_quantity != 0
}

/// `best` is the highest-ranked candidate of the band, or no candidate exists.
pub open spec fn is_best_clearing(
    bids: Seq<AuctionLevel>,
    asks: Seq<AuctionLevel>,
    market: AuctionMarketInterest,
    grid: AuctionPriceGrid,
    band: AuctionPriceBand,
    reference: Price,
    policy: AuctionPricePolicy,
    best: Option<AuctionClearing>,
) -> bool {
    match best {
        None => forall|price: Price|
            band.covers(price) ==> !is_candidate(bids, asks, market, grid, band, price),
        Some(clearing) => {
            &&& is_candidate(bids, asks, market, grid, band, clearing.price)
            &&& clearing == clearing_at(bids, asks, market, clearing.price)
            &&& forall|price: Price|
                is_candidate(bids, asks, market, grid, band, price) && price != clearing.price
                    ==> outranks(
                    clearing,
                    clearing_at(bids, asks, market, price),
                    reference,
                    policy,
                )
        },
    }
}

/// Levels that passed validation are aligned, strictly ordered and bounded.
pub open spec fn levels_valid(
    levels: Seq<AuctionLevel>,
    side: Side,
    grid: AuctionPriceGrid,
) -> bool {
    &&& forall|i: int| 0 <= i < levels.len() ==> grid.aligned(#[trigger] levels[i].price)
    &&& forall|i: int, j: int|
        0 <= i < j < levels.len() ==> levels_in_order(
            side,
            #[trigger] levels[i].price,
            #[trigger] levels[j].price,
        )
    &&& total_quantity(levels) <= u128::MAX
}

proof fn lemma_total_nonnegative(levels: Seq<AuctionLevel>)
    ensures
        0 <= total_quantity(levels),
    decreases levels.len(),
{
    if levels.len() > 0 {
        lemma_total_nonnegative(levels.drop_last());
    }
}

proof fn lemma_total_push(levels: Seq<AuctionLevel>, index: int)
    requires
        0 <= index < levels.len(),
    ensures
        total_quantity(levels.take(index + 1)) == total_quantity(levels.take(index))
            + levels[index].quantity,
{
    assert(levels.take(index + 1).drop_last() =~= levels.take(index));
}

proof fn lemma_total_monotone(levels: Seq<AuctionLevel>, count: int)
    requires
        0 <= count <= levels.len(),
    ensures
        0 <= total_quantity(levels.take(count)) <= total_quantity(levels),
    decreases levels.len() - count,
{
    lemma_total_nonnegative(levels.take(count));
    if count < levels.len() {
        lemma_total_monotone(levels, count + 1);
        lemma_total_push(levels, count);
    } else {
        assert(levels.take(count) =~= levels);
    }
}

/// Levels without a fault are valid.
pub proof fn lemma_levels_valid(levels: Seq<AuctionLevel>, side: Side, grid: AuctionPriceGrid, count: nat)
    requires
        count <= levels.len(),
        first_level_fault(levels, side, grid, count) is None,
    ensures
        levels_valid(levels.take(count as int), side, grid),
    decreases count,
{
    if count > 0 {
        lemma_levels_valid(levels, side, grid, (count - 1) as nat);
        let prefix = levels.take(count as int);
        let shorter = levels.take(count - 1);
        assert(level_fault(levels, side, grid, count - 1) is None);
        assert forall|i: int| 0 <= i < prefix.len() implies grid.aligned(
            #[trigger] prefix[i].price,
        ) by {
            if i < count - 1 {
                assert(shorter[i] == prefix[i]);
            }
        }
        assert forall|i: int, j: int| 0 <= i < j < prefix.len() implies levels_in_order(
            side,
            #[trigger] prefix[i].price,
            #[trigger] prefix[j].price,
        ) by {
            assert(shorter[i] == prefix[i]);
            if j < count - 1 {
                assert(shorter[j] == prefix[j]);
            } else if i < count - 2 {
                assert(shorter[count - 2] == prefix[count - 2]);
                assert(levels_in_order(side, shorter[i].price, shorter[count - 2].price));
            }
        }
    } else {
        assert(levels.take(0) =~= Seq::<AuctionLevel>::empty());
    }
}

/// A fault among the first levels is the fault of the whole.
proof fn lemma_first_fault_persists(
    levels: Seq<AuctionLevel>,
    side: Side,
    grid: AuctionPriceGrid,
    count: nat,
    total: nat,
)
    requires
        count <= total,
        first_level_fault(levels, side, grid, count) is Some,
    ensures
        first_level_fault(levels, side, grid, total) == first_level_fault(
            levels,
            side,
            grid,
            count,
        ),
    decreases total,
{
    if count < total {
        lemma_first_fault_persists(levels, side, grid, count, (total - 1) as nat);
    }
}

fn validate_levels(levels: &[AuctionLevel], side: Side, grid: AuctionPriceGrid) -> (r: Result<
    u128,
    AuctionError,
>)
    requires
        grid.wf(),
    ensures
        match r {
            Ok(total) => {
                &&& first_level_fault(levels@, side, grid, levels@.len()) is None
                &&& total == total_quantity(levels@)
                &&& levels_valid(levels@, side, grid)
            },
            Err(error) => first_level_fault(levels@, side, grid, levels@.len()) == Some(error),
        },
{
    let mut total: u128 = 0;
    let mut index: usize = 0;
    proof {
        assert(levels@.take(0) =~= Seq::<AuctionLevel>::empty());
    }
    while index < levels.len()
        invariant
            grid.wf(),
            index <= levels@.len(),
            total == total_quantity(levels@.take(index as int)),
            first_level_fault(levels@, side, grid, index as nat) is None,
        decreases levels@.len() - index,
    {
        let level = levels[index];
        proof {
            lemma_total_push(levels@, index as int);
            assert(first_level_fault(levels@, side, grid, (index + 1) as nat) == level_fault(
                levels@,
                side,
                grid,
                index as int,
            ));
            if level_fault(levels@, side, grid, index as int) is Some {
                lemma_first_fault_persists(
                    levels@,
                    side,
                    grid,
                    (index + 1) as nat,
                    levels@.len(),
                );
            }
        }
        if !grid.contains(level.price) {
            return Err(AuctionError::PriceOffGrid { side, index });
        }
        if index > 0 {
            let previous = levels[index - 1].price;
            let ordered = match side {
                Side::Buy => previous.raw > level.price.raw,
                Side::Sell => previous.raw < level.price.raw,
            };
            if !ordered {
                return Err(AuctionError::NonCanonicalLevels { side, index });
            }
        }
        match total.checked_add(level.quantity) {
            Some(sum) => {
                total = sum;
            },
            None => {
                return Err(AuctionError::QuantityOverflow(side));
            },
        }
        index += 1;
    }
    proof {
        assert(levels@.take(index as int) =~= levels@);
        lemma_levels_valid(levels@, side, grid, levels@.len());
    }
    Ok(total)
}

/// Strictly descending levels split at `count` sum to the quantity at or above
/// any price between the two parts.
proof fn lemma_above_is_prefix(levels: Seq<AuctionLevel>, count: int, price: Price)
    requires
        0 <= count <= levels.len(),
        forall|i: int| 0 <= i < count ==> (#[trigger] levels[i]).price.raw >= price.raw,
        forall|i: int| count <= i < levels.len() ==> (#[trigger] levels[i]).price.raw < price.raw,
    ensures
        quantity_at_or_above(levels, price) == total_quantity(levels.take(count)),
    decreases levels.len(),
{
    if levels.len() == 0 {
        assert(levels.take(count) =~= levels);
    } else {
        let shorter = levels.drop_last();
        if count == levels.len() {
            assert forall|i: int| 0 <= i < shorter.len() implies (#[trigger] shorter[i]).price.raw
                >= price.raw by {
                assert(shorter[i] == levels[i]);
            }
            lemma_above_is_prefix(shorter, count - 1, price);
            assert(shorter.take(count - 1) =~= shorter);
            assert(levels.take(count) =~= levels);
            assert(levels[count - 1].price.raw >= price.raw);
        } else {
            assert forall|i: int| 0 <= i < count implies (#[trigger] shorter[i]).price.raw
                >= price.raw by {
                assert(shorter[i] == levels[i]);
            }
            assert forall|i: int| count <= i < shorter.len() implies (#[trigger] shorter[i]).price.raw
                < price.raw by {
                assert(shorter[i] == levels[i]);
            }
            lemma_above_is_prefix(shorter, count, price);
            assert(shorter.take(count) =~= levels.take(count));
            assert(levels[levels.len() - 1].price.raw < price.raw);
        }
    }
}

/// Strictly ascending levels split at `count` sum to the quantity at or below
/// any price between the two parts.
proof fn lemma_below_is_prefix(levels: Seq<AuctionLevel>, count: int, price: Price)
    requires
        0 <= count <= levels.len(),
        forall|i: int| 0 <= i < count ==> (#[trigger] levels[i]).price.raw <= price.raw,
        forall|i: int| count <= i < levels.len() ==> (#[trigger] levels[i]).price.raw > price.raw,
    ensures
        quantity_at_or_below(levels, price) == total_quantity(levels.take(count)),
    decreases levels.len(),
{
    if levels.len() == 0 {
        assert(levels.take(count) =~= levels);
    } else {
        let shorter = levels.drop_last();
        if count == levels.len() {
            assert forall|i: int| 0 <= i < shorter.len() implies (#[trigger] shorter[i]).price.raw
                <= price.raw by {
                assert(shorter[i] == levels[i]);
            }
            lemma_below_is_prefix(shorter, count - 1, price);
            assert(shorter.take(count - 1) =~= shorter);
            assert(levels.take(count) =~= levels);
            assert(levels[count - 1].price.raw <= price.raw);
        } else {
            assert forall|i: int| 0 <= i < count implies (#[trigger] shorter[i]).price.raw
                <= price.raw by {
                assert(shorter[i] == levels[i]);
            }
            assert forall|i: int| count <= i < shorter.len() implies (#[trigger] shorter[i]).price.raw
                > price.raw by {
                assert(shorter[i] == levels[i]);
            }
            lemma_below_is_prefix(shorter, count, price);
            assert(shorter.take(count) =~= levels.take(count));
            assert(levels[levels.len() - 1].price.raw > price.raw);
        }
    }
}

/// Demand never rises and supply never falls as the price rises.
pub proof fn lemma_quantities_monotone(
    bids: Seq<AuctionLevel>,
    asks: Seq<AuctionLevel>,
    market: AuctionMarketInterest,
    lower: Price,
    upper: Price,
)
    requires
        lower.raw <= upper.raw,
    ensures
        demand_at(bids, market, lower) >= demand_at(bids, market, upper),
        supply_at(asks, market, lower) <= supply_at(asks, market, upper),
{
    lemma_above_monotone(bids, lower, upper);
    lemma_below_monotone(asks, lower, upper);
}

proof fn lemma_above_monotone(levels: Seq<AuctionLevel>, lower: Price, upper: Price)
    requires
        lower.raw <= upper.raw,
    ensures
        0 <= quantity_at_or_above(levels, upper) <= quantity_at_or_above(levels, lower)
            <= total_quantity(levels),
    decreases levels.len(),
{
    if levels.len() > 0 {
        lemma_above_monotone(levels.drop_last(), lower, upper);
    }
}

proof fn lemma_below_monotone(levels: Seq<AuctionLevel>, lower: Price, upper: Price)
    requires
        lower.raw <= upper.raw,
    ensures
        0 <= quantity_at_or_below(levels, lower) <= quantity_at_or_below(levels, upper)
            <= total_quantity(levels),
    decreases levels.len(),
{
    if levels.len() > 0 {
        lemma_below_monotone(levels.drop_last(), lower, upper);
    }
}

/// Demand and supply at a price are at most the total of their side.
pub proof fn lemma_quantities_bounded(
    bids: Seq<AuctionLevel>,
    asks: Seq<AuctionLevel>,
    market: AuctionMarketInterest,
    price: Price,
)
    ensures
        0 <= demand_at(bids, market, price) <= total_quantity(bids) + market.buy_quantity,
        0 <= supply_at(asks, market, price) <= total_quantity(asks) + market.sell_quantity,
{
    lemma_above_monotone(bids, price, price);
    lemma_below_monotone(asks, price, price);
}

/// Whether two clearings could come from one auction: demand falls and supply
/// rises with the price.
pub open spec fn comparable(left: AuctionClearing, right: AuctionClearing) -> bool {
    &&& left.wf() && right.wf()
    &&& left.price.raw <= right.price.raw ==> left.buy_quantity >= right.buy_quantity
        && left.sell_quantity <= right.sell_quantity
    &&& right.price.raw <= left.price.raw ==> right.buy_quantity >= left.buy_quantity
        && right.sell_quantity <= left.sell_quantity
}

/// Of two clearings at different prices exactly one outranks the other.
pub proof fn law_ranking_total(
    left: AuctionClearing,
    right: AuctionClearing,
    reference: Price,
    policy: AuctionPricePolicy,
)
    requires
        left.price != right.price,
    ensures
        outranks(left, right, reference, policy) <==> !outranks(right, left, reference, policy),
{
    assert(left.price.raw != right.price.raw);
}

/// No clearing outranks itself.
pub proof fn law_ranking_irreflexive(
    clearing: AuctionClearing,
    reference: Price,
    policy: AuctionPricePolicy,
)
    ensures
        !outranks(clearing, clearing, reference, policy),
{
}

/// Ranking is transitive among the clearings of one auction.
pub proof fn law_ranking_transitive(
    first: AuctionClearing,
    second: AuctionClearing,
    third: AuctionClearing,
    reference: Price,
    policy: AuctionPricePolicy,
)
    requires
        comparable(first, second),
        comparable(second, third),
        comparable(first, third),
        outranks(first, second, reference, policy),
        outranks(second, third, reference, policy),
    ensures
        outranks(first, third, reference, policy),
{
}

/// The clearing at any price of a valid request is well formed, and any two of
/// them are comparable.
proof fn lemma_clearings_comparable(
    bids: Seq<AuctionLevel>,
    asks: Seq<AuctionLevel>,
    market: AuctionMarketInterest,
    left: Price,
    right: Price,
)
    requires
        total_quantity(bids) + market.buy_quantity <= u128::MAX,
        total_quantity(asks) + market.sell_quantity <= u128::MAX,
    ensures
        comparable(
            clearing_at(bids, asks, market, left),
            clearing_at(bids, asks, market, right),
        ),
{
    lemma_above_monotone(bids, left, left);
    lemma_above_monotone(bids, right, right);
    lemma_below_monotone(asks, left, left);
    lemma_below_monotone(asks, right, right);
    if left.raw <= right.raw {
        lemma_quantities_monotone(bids, asks, market, left, right);
    }
    if right.raw <= left.raw {
        lemma_quantities_monotone(bids, asks, market, right, left);
    }
}

/// Price inside `[lower, upper]` that ranks first where demand and supply are constant.
pub open spec fn interval_choice(
    lower: Price,
    upper: Price,
    reference: Price,
    demand: u128,
    supply: u128,
    policy: AuctionPricePolicy,
) -> Price {
    if policy.pressure_rule == AuctionPressureRule::FavorImbalance && demand > supply {
        upper
    } else if policy.pressure_rule == AuctionPressureRule::FavorImbalance && supply > demand {
        lower
    } else if reference.raw < lower.raw {
        lower
    } else if reference.raw > upper.raw {
        upper
    } else {
        reference
    }
}

fn interval_candidate_price(
    lower: Price,
    upper: Price,
    reference: Price,
    demand: u128,
    supply: u128,
    policy: AuctionPricePolicy,
) -> (r: Price)
    requires
        lower.raw <= upper.raw,
    ensures
        r == interval_choice(lower, upper, reference, demand, supply, policy),
{
    if policy.pressure_rule == AuctionPressureRule::FavorImbalance {
        if demand > supply {
            return upper;
        }
        if supply > demand {
            return lower;
        }
    }
    let raised = if reference.raw > lower.raw {
        reference
    } else {
        lower
    };
    if raised.raw < upper.raw {
        raised
    } else {
        upper
    }
}

fn minimum_price(first: Option<Price>, second: Option<Price>) -> (r: Option<Price>)
    ensures
        r == (match (first, second) {
            (Some(left), Some(right)) => if left.raw <= right.raw {
                Some(left)
            } else {
                Some(right)
            },
            (Some(left), None) => Some(left),
            (None, Some(right)) => Some(right),
            (None, None) => None,
        }),
{
    match (first, second) {
        (Some(left), Some(right)) => if left.raw <= right.raw {
            Some(left)
        } else {
            Some(right)
        },
        (Some(left), None) => Some(left),
        (None, Some(right)) => Some(right),
        (None, None) => None,
    }
}

/// The sweep position: bids and asks are split at `lower`.
spec fn sweep_split(
    bids: Seq<AuctionLevel>,
    asks: Seq<AuctionLevel>,
    remaining_bids: int,
    next_ask: int,
    lower: Price,
) -> bool {
    &&& 0 <= remaining_bids <= bids.len()
    &&& 0 <= next_ask <= asks.len()
    &&& forall|i: int| 0 <= i < remaining_bids ==> (#[trigger] bids[i]).price.raw >= lower.raw
    &&& forall|i: int| remaining_bids <= i < bids.len() ==> (#[trigger] bids[i]).price.raw < lower.raw
    &&& forall|i: int| 0 <= i < next_ask ==> (#[trigger] asks[i]).price.raw <= lower.raw
    &&& forall|i: int| next_ask <= i < asks.len() ==> (#[trigger] asks[i]).price.raw > lower.raw
}

/// `best` ranks first among the candidates strictly below `lower`.
spec fn best_below(
    bids: Seq<AuctionLevel>,
    asks: Seq<AuctionLevel>,
    market: AuctionMarketInterest,
    grid: AuctionPriceGrid,
    band: AuctionPriceBand,
    reference: Price,
    policy: AuctionPricePolicy,
    best: Option<AuctionClearing>,
    bound: int,
) -> bool {
    match best {
        None => forall|price: Price|
            #[trigger] is_candidate(bids, asks, market, grid, band, price) ==> price.raw >= bound,
        Some(clearing) => {
            &&& is_candidate(bids, asks, market, grid, band, clearing.price)
            &&& clearing.price.raw < bound
            &&& clearing == clearing_at(bids, asks, market, clearing.price)
            &&& forall|price: Price|
                #[trigger] is_candidate(bids, asks, market, grid, band, price) && price.raw < bound
                    && price != clearing.price ==> outranks(
                    clearing,
                    clearing_at(bids, asks, market, price),
                    reference,
                    policy,
                )
        },
    }
}

/// Inside `[lower, upper]` quantities are constant and the interval choice
/// outranks every other grid price.
proof fn lemma_interval(
    bids: Seq<AuctionLevel>,
    asks: Seq<AuctionLevel>,
    market: AuctionMarketInterest,
    grid: AuctionPriceGrid,
    remaining_bids: int,
    next_ask: int,
    lower: Price,
    upper: Price,
    demand: u128,
    supply: u128,
)
    requires
        sweep_split(bids, asks, remaining_bids, next_ask, lower),
        lower.raw <= upper.raw,
        forall|i: int| 0 <= i < remaining_bids ==> (#[trigger] bids[i]).price.raw >= upper.raw,
        forall|i: int| next_ask <= i < asks.len() ==> (#[trigger] asks[i]).price.raw > upper.raw,
        demand == market.buy_quantity + total_quantity(bids.take(remaining_bids)),
        supply == market.sell_quantity + total_quantity(asks.take(next_ask)),
    ensures
        forall|price: Price|
            lower.raw <= price.raw <= upper.raw ==> #[trigger] clearing_at(
                bids,
                asks,
                market,
                price,
            ) == clearing_of(price, demand, supply),
{
    assert forall|price: Price| lower.raw <= price.raw <= upper.raw implies #[trigger] clearing_at(
        bids,
        asks,
        market,
        price,
    ) == clearing_of(price, demand, supply) by {
        lemma_above_is_prefix(bids, remaining_bids, price);
        lemma_below_is_prefix(asks, next_ask, price);
    }
}

/// The interval choice outranks every other price of its interval.
proof fn lemma_interval_choice(
    lower: Price,
    upper: Price,
    reference: Price,
    demand: u128,
    supply: u128,
    policy: AuctionPricePolicy,
    price: Price,
)
    requires
        lower.raw <= price.raw <= upper.raw,
        price != interval_choice(lower, upper, reference, demand, supply, policy),
    ensures
        outranks(
            clearing_of(
                interval_choice(lower, upper, reference, demand, supply, policy),
                demand,
                supply,
            ),
            clearing_of(price, demand, supply),
            reference,
            policy,
        ),
{
    let choice = interval_choice(lower, upper, reference, demand, supply, policy);
    assert(choice.raw != price.raw);
}

/// Extending the sweep over one interval keeps the best clearing.
proof fn lemma_extend_best(
    bids: Seq<AuctionLevel>,
    asks: Seq<AuctionLevel>,
    market: AuctionMarketInterest,
    grid: AuctionPriceGrid,
    band: AuctionPriceBand,
    reference: Price,
    policy: AuctionPricePolicy,
    best: Option<AuctionClearing>,
    lower: Price,
    upper: Price,
    bound: int,
    demand: u128,
    supply: u128,
    candidate: AuctionClearing,
    next_best: Option<AuctionClearing>,
)
    requires
        total_quantity(bids) + market.buy_quantity <= u128::MAX,
        total_quantity(asks) + market.sell_quantity <= u128::MAX,
        best_below(bids, asks, market, grid, band, reference, policy, best, lower.raw as int),
        lower.raw <= upper.raw,
        upper.raw < bound,
        band.covers(lower),
        band.covers(upper),
        grid.aligned(candidate.price),
        forall|price: Price|
            #[trigger] grid.aligned(price) && band.covers(price) && upper.raw < price.raw
                ==> price.raw >= bound,
        forall|price: Price|
            lower.raw <= price.raw <= upper.raw ==> #[trigger] clearing_at(
                bids,
                asks,
                market,
                price,
            ) == clearing_of(price, demand, supply),
        candidate == clearing_of(
            interval_choice(lower, upper, reference, demand, supply, policy),
            demand,
            supply,
        ),
        next_best == (if candidate.executable_quantity != 0 && (best is None || outranks(
            candidate,
            best->0,
            reference,
            policy,
        )) {
            Some(candidate)
        } else {
            best
        }),
    ensures
        best_below(bids, asks, market, grid, band, reference, policy, next_best, bound),
{
    let choice = candidate.price;
    assert(clearing_at(bids, asks, market, choice) == candidate);
    // Every candidate below the new bound is below `lower` or inside the interval.
    assert forall|price: Price| #[trigger]
        is_candidate(bids, asks, market, grid, band, price) && price.raw < bound implies price.raw
        <= upper.raw by {
        assert(grid.aligned(price));
    }
    if candidate.executable_quantity == 0 {
        assert forall|price: Price| #[trigger]
            is_candidate(bids, asks, market, grid, band, price) && price.raw < bound implies price.raw
            < lower.raw by {
            if price.raw >= lower.raw {
                assert(clearing_at(bids, asks, market, price) == clearing_of(
                    price,
                    demand,
                    supply,
                ));
            }
        }
    } else {
        assert(is_candidate(bids, asks, market, grid, band, choice));
        match best {
            None => {
                assert forall|price: Price| #[trigger]
                    is_candidate(bids, asks, market, grid, band, price) && price.raw < bound
                        && price != choice implies outranks(
                    candidate,
                    clearing_at(bids, asks, market, price),
                    reference,
                    policy,
                ) by {
                    lemma_interval_choice(
                        lower,
                        upper,
                        reference,
                        demand,
                        supply,
                        policy,
                        price,
                    );
                }
            },
            Some(current) => {
                assert(current.price != choice);
                law_ranking_total(candidate, current, reference, policy);
                assert forall|price: Price| #[trigger]
                    is_candidate(bids, asks, market, grid, band, price) && price.raw < bound
                        && price != next_best->0.price implies outranks(
                    next_best->0,
                    clearing_at(bids, asks, market, price),
                    reference,
                    policy,
                ) by {
                    let other = clearing_at(bids, asks, market, price);
                    lemma_clearings_comparable(bids, asks, market, choice, current.price);
                    lemma_clearings_comparable(bids, asks, market, current.price, choice);
                    lemma_clearings_comparable(bids, asks, market, choice, price);
                    lemma_clearings_comparable(bids, asks, market, current.price, price);
                    if next_best == Some(candidate) {
                        if price.raw < lower.raw {
                            if price != current.price {
                                law_ranking_transitive(
                                    candidate,
                                    current,
                                    other,
                                    reference,
                                    policy,
                                );
                            }
                        } else {
                            lemma_interval_choice(
                                lower,
                                upper,
                                reference,
                                demand,
                                supply,
                                policy,
                                price,
                            );
                        }
                    } else {
                        if price.raw >= lower.raw && price != choice {
                            lemma_interval_choice(
                                lower,
                                upper,
                                reference,
                                demand,
                                supply,
                                policy,
                                price,
                            );
                            law_ranking_transitive(current, candidate, other, reference, policy);
                        }
                    }
                }
            },
        }
    }
}

/// Discovers one deterministic clearing price from canonical aggregate depth.
///
/// This is the zero-market, full-representable-grid convenience form of
/// [`discover_bounded_clearing_price`]. Bids must be strictly descending and
/// asks strictly ascending by price. Every level and the reference must lie on
/// `grid`.
pub fn discover_clearing_price(
    bids: &[AuctionLevel],
    asks: &[AuctionLevel],
    grid: AuctionPriceGrid,
    reference_price: Price,
    policy: AuctionPricePolicy,
) -> (r: Result<Option<AuctionClearing>, AuctionError>)
    requires
        grid.wf(),
    ensures
        exists|band: AuctionPriceBand|
            {
                &&& band_fault(grid, band.minimum, band.maximum) is None
                &&& forall|price: Price| grid.aligned(price) ==> band.covers(price)
                &&& #[trigger] discovery_result(
                    bids@,
                    asks@,
                    AuctionMarketInterest { buy_quantity: 0, sell_quantity: 0 },
                    grid,
                    band,
                    reference_price,
                    policy,
                    r,
                )
            },
{
    let band = AuctionPriceBand::full(grid);
    discover_bounded_clearing_price(
        bids,
        asks,
        AuctionMarketInterest::none(),
        grid,
        band,
        reference_price,
        policy,
    )
}

/// What discovery returns: the first fault of the request, or the best clearing.
pub open spec fn discovery_result(
    bids: Seq<AuctionLevel>,
    asks: Seq<AuctionLevel>,
    market: AuctionMarketInterest,
    grid: AuctionPriceGrid,
    band: AuctionPriceBand,
    reference: Price,
    policy: AuctionPricePolicy,
    result: Result<Option<AuctionClearing>, AuctionError>,
) -> bool {
    match result {
        Err(error) => discovery_fault(bids, asks, market, grid, band, reference) == Some(error),
        Ok(best) => discovery_fault(bids, asks, market, grid, band, reference) is None
            && is_best_clearing(bids, asks, market, grid, band, reference, policy, best),
    }
}

/// The outcome of discovery.
pub open spec fn discovered(
    bids: Seq<AuctionLevel>,
    asks: Seq<AuctionLevel>,
    market: AuctionMarketInterest,
    grid: AuctionPriceGrid,
    band: AuctionPriceBand,
    reference: Price,
    policy: AuctionPricePolicy,
) -> Result<Option<AuctionClearing>, AuctionError> {
    choose|result: Result<Option<AuctionClearing>, AuctionError>|
        discovery_result(bids, asks, market, grid, band, reference, policy, result)
}

/// Discovery has at most one outcome.
pub proof fn law_discovery_unique(
    bids: Seq<AuctionLevel>,
    asks: Seq<AuctionLevel>,
    market: AuctionMarketInterest,
    grid: AuctionPriceGrid,
    band: AuctionPriceBand,
    reference: Price,
    policy: AuctionPricePolicy,
    left: Result<Option<AuctionClearing>, AuctionError>,
    right: Result<Option<AuctionClearing>, AuctionError>,
)
    requires
        discovery_result(bids, asks, market, grid, band, reference, policy, left),
        discovery_result(bids, asks, market, grid, band, reference, policy, right),
    ensures
        left == right,
{
    if left is Ok && right is Ok {
        match (left->Ok_0, right->Ok_0) {
            (Some(first), Some(second)) => {
                if first.price != second.price {
                    law_ranking_total(first, second, reference, policy);
                    assert(is_candidate(bids, asks, market, grid, band, first.price));
                    assert(is_candidate(bids, asks, market, grid, band, second.price));
                }
            },
            (Some(first), None) => {
                assert(is_candidate(bids, asks, market, grid, band, first.price));
            },
            (None, Some(second)) => {
                assert(is_candidate(bids, asks, market, grid, band, second.price));
            },
            (None, None) => {},
        }
    }
}

/// Discovers a clearing price within an inclusive band with market interest.
///
/// Limit levels remain canonical aggregate depth on `grid`, but may lie outside
/// `price_band`: a buy below the minimum or sell above the maximum is never
/// eligible, while a buy above the maximum or sell below the minimum remains
/// eligible throughout the band. Market quantities are eligible at every
/// candidate. The aligned reference may also lie outside the band.
///
/// The sweep initializes demand and supply at the inclusive band minimum, then
/// merges only bid-successor and ask transitions within the band. It evaluates
/// every complete constant-state grid interval in `O(B + A)` time and `O(1)`
/// auxiliary space.
pub fn discover_bounded_clearing_price(
    bids: &[AuctionLevel],
    asks: &[AuctionLevel],
    market: AuctionMarketInterest,
    grid: AuctionPriceGrid,
    price_band: AuctionPriceBand,
    reference_price: Price,
    policy: AuctionPricePolicy,
) -> (r: Result<Option<AuctionClearing>, AuctionError>)
    requires
        grid.wf(),
    ensures
        discovery_result(
            bids@,
            asks@,
            market,
            grid,
            price_band,
            reference_price,
            policy,
            r,
        ),
{
    match validate_price_band(grid, price_band.minimum, price_band.maximum) {
        Err(error) => {
            return Err(error);
        },
        Ok(()) => {},
    }
    if !grid.contains(reference_price) {
        return Err(AuctionError::ReferencePriceOffGrid);
    }
    let total_buy: u128 = match validate_levels(bids, Side::Buy, grid) {
        Err(error) => {
            return Err(error);
        },
        Ok(total) => total,
    };
    let total_sell: u128 = match validate_levels(asks, Side::Sell, grid) {
        Err(error) => {
            return Err(error);
        },
        Ok(total) => total,
    };
    if total_buy.checked_add(market.buy_quantity).is_none() {
        return Err(AuctionError::QuantityOverflow(Side::Buy));
    }
    if total_sell.checked_add(market.sell_quantity).is_none() {
        return Err(AuctionError::QuantityOverflow(Side::Sell));
    }
    let tick = Ghost(grid.tick_i64 as int);
    let mut demand: u128 = market.buy_quantity;
    let mut remaining_bids: usize = 0;
    proof {
        assert(bids@.take(0) =~= Seq::<AuctionLevel>::empty());
        assert(asks@.take(0) =~= Seq::<AuctionLevel>::empty());
    }
    while remaining_bids < bids.len() && bids[remaining_bids].price.raw >= price_band.minimum.raw
        invariant
            remaining_bids <= bids@.len(),
            total_quantity(bids@) + market.buy_quantity <= u128::MAX,
            demand == market.buy_quantity + total_quantity(bids@.take(remaining_bids as int)),
            forall|i: int|
                0 <= i < remaining_bids ==> (#[trigger] bids@[i]).price.raw
                    >= price_band.minimum.raw,
        decreases bids@.len() - remaining_bids,
    {
        proof {
            lemma_total_push(bids@, remaining_bids as int);
            lemma_total_monotone(bids@, remaining_bids + 1);
        }
        demand = demand + bids[remaining_bids].quantity;
        remaining_bids += 1;
    }
    let mut supply: u128 = market.sell_quantity;
    let mut next_ask: usize = 0;
    while next_ask < asks.len() && asks[next_ask].price.raw <= price_band.minimum.raw
        invariant
            next_ask <= asks@.len(),
            total_quantity(asks@) + market.sell_quantity <= u128::MAX,
            supply == market.sell_quantity + total_quantity(asks@.take(next_ask as int)),
            forall|i: int|
                0 <= i < next_ask ==> (#[trigger] asks@[i]).price.raw <= price_band.minimum.raw,
        decreases asks@.len() - next_ask,
    {
        proof {
            lemma_total_push(asks@, next_ask as int);
            lemma_total_monotone(asks@, next_ask + 1);
        }
        supply = supply + asks[next_ask].quantity;
        next_ask += 1;
    }
    let mut interval_lower = price_band.minimum;
    let mut best: Option<AuctionClearing> = None;
    let mut finished = false;
    proof {
        assert forall|i: int| remaining_bids <= i < bids@.len() implies (#[trigger] bids@[i]).price.raw
            < price_band.minimum.raw by {
            if i > remaining_bids {
                assert(levels_in_order(
                    Side::Buy,
                    bids@[remaining_bids as int].price,
                    bids@[i].price,
                ));
            }
        }
        assert forall|i: int| next_ask <= i < asks@.len() implies (#[trigger] asks@[i]).price.raw
            > price_band.minimum.raw by {
            if i > next_ask {
                assert(levels_in_order(
                    Side::Sell,
                    asks@[next_ask as int].price,
                    asks@[i].price,
                ));
            }
        }
    }
    while !finished
        invariant
            grid.wf(),
            tick@ == grid.tick_i64,
            grid.aligned(reference_price),
            band_fault(grid, price_band.minimum, price_band.maximum) is None,
            levels_valid(bids@, Side::Buy, grid),
            levels_valid(asks@, Side::Sell, grid),
            total_quantity(bids@) + market.buy_quantity <= u128::MAX,
            total_quantity(asks@) + market.sell_quantity <= u128::MAX,
            !finished ==> {
                &&& sweep_split(
                    bids@,
                    asks@,
                    remaining_bids as int,
                    next_ask as int,
                    interval_lower,
                )
                &&& grid.aligned(interval_lower)
                &&& price_band.covers(interval_lower)
                &&& demand == market.buy_quantity + total_quantity(
                    bids@.take(remaining_bids as int),
                )
                &&& supply == market.sell_quantity + total_quantity(asks@.take(next_ask as int))
                &&& best_below(
                    bids@,
                    asks@,
                    market,
                    grid,
                    price_band,
                    reference_price,
                    policy,
                    best,
                    interval_lower.raw as int,
                )
            },
            finished ==> is_best_clearing(
                bids@,
                asks@,
                market,
                grid,
                price_band,
                reference_price,
                policy,
                best,
            ),
        decreases (if finished {
            0
        } else {
            1 + remaining_bids + (asks@.len() - next_ask)
        }),
    {
        let next_bid_transition = if remaining_bids == 0 {
            None
        } else {
            match grid.successor(bids[remaining_bids - 1].price) {
                Some(price) => if price.raw <= price_band.maximum.raw {
                    Some(price)
                } else {
                    None
                },
                None => None,
            }
        };
        let next_ask_price = if next_ask < asks.len() && asks[next_ask].price.raw
            <= price_band.maximum.raw {
            Some(asks[next_ask].price)
        } else {
            None
        };
        let next_transition = minimum_price(next_bid_transition, next_ask_price);
        proof {
            if remaining_bids > 0 {
                lemma_grid_step(bids@[remaining_bids - 1].price.raw as int, tick@);
            }
            if next_transition is Some {
                let transition = next_transition->0;
                assert(grid.aligned(transition));
                assert(transition.raw > interval_lower.raw);
                lemma_grid_gap(transition.raw as int, interval_lower.raw as int, tick@);
                lemma_grid_step(transition.raw as int, tick@);
            }
        }
        let interval_upper = match next_transition {
            Some(next) => match grid.predecessor(next) {
                Some(price) => price,
                None => price_band.maximum,
            },
            None => price_band.maximum,
        };
        assert(interval_lower.raw <= interval_upper.raw);
        let candidate_price = interval_candidate_price(
            interval_lower,
            interval_upper,
            reference_price,
            demand,
            supply,
            policy,
        );
        let candidate = AuctionClearing::from_quantities(candidate_price, demand, supply);
        let ghost previous_best = best;
        let replaces = match best {
            None => true,
            Some(current) => candidate.is_better_than(current, reference_price, policy),
        };
        if candidate.executable_quantity != 0 && replaces {
            best = Some(candidate);
        }
        let ghost bound = match next_transition {
            Some(next) => next.raw as int,
            None => price_band.maximum.raw + 1,
        };
        proof {
            assert forall|i: int| 0 <= i < remaining_bids implies (#[trigger] bids@[i]).price.raw
                >= interval_upper.raw by {
                let last = bids@[remaining_bids - 1].price;
                if i < remaining_bids - 1 {
                    assert(levels_in_order(Side::Buy, bids@[i].price, last));
                }
                lemma_grid_gap(price_band.maximum.raw as int, last.raw as int, tick@);
            }
            assert forall|i: int| next_ask <= i < asks@.len() implies (#[trigger] asks@[i]).price.raw
                > interval_upper.raw by {
                if i > next_ask {
                    assert(levels_in_order(
                        Side::Sell,
                        asks@[next_ask as int].price,
                        asks@[i].price,
                    ));
                }
            }
            lemma_interval(
                bids@,
                asks@,
                market,
                grid,
                remaining_bids as int,
                next_ask as int,
                interval_lower,
                interval_upper,
                demand,
                supply,
            );
            assert forall|price: Price| #[trigger]
                grid.aligned(price) && price_band.covers(price) && interval_upper.raw
                    < price.raw implies price.raw >= bound by {
                lemma_grid_gap(price.raw as int, interval_upper.raw as int, tick@);
            }
            lemma_extend_best(
                bids@,
                asks@,
                market,
                grid,
                price_band,
                reference_price,
                policy,
                previous_best,
                interval_lower,
                interval_upper,
                bound,
                demand,
                supply,
                candidate,
                best,
            );
        }
        match next_transition {
            None => {
                finished = true;
            },
            Some(transition_price) => {
                if next_ask < asks.len() && asks[next_ask].price.raw == transition_price.raw {
                    proof {
                        lemma_total_push(asks@, next_ask as int);
                        lemma_total_monotone(asks@, next_ask + 1);
                    }
                    supply = supply + asks[next_ask].quantity;
                    next_ask += 1;
                }
                let bid_leaves = if remaining_bids == 0 {
                    false
                } else {
                    match grid.successor(bids[remaining_bids - 1].price) {
                        Some(price) => price.raw == transition_price.raw,
                        None => false,
                    }
                };
                if bid_leaves {
                    proof {
                        lemma_total_push(bids@, remaining_bids - 1);
                        lemma_total_monotone(bids@, remaining_bids - 1);
                    }
                    demand = demand - bids[remaining_bids - 1].quantity;
                    remaining_bids -= 1;
                }
                proof {
                    assert forall|i: int| 0 <= i < remaining_bids implies (
                    #[trigger] bids@[i]).price.raw >= transition_price.raw by {
                        lemma_grid_gap(bids@[i].price.raw as int, interval_upper.raw as int, tick@);
                        if bid_leaves {
                            assert(levels_in_order(
                                Side::Buy,
                                bids@[i].price,
                                bids@[remaining_bids as int].price,
                            ));
                        } else {
                            let last = bids@[remaining_bids - 1].price;
                            if i < remaining_bids - 1 {
                                assert(levels_in_order(Side::Buy, bids@[i].price, last));
                            }
                        }
                    }
                    assert forall|i: int| next_ask <= i < asks@.len() implies (
                    #[trigger] asks@[i]).price.raw > transition_price.raw by {
                        if i > next_ask {
                            assert(levels_in_order(
                                Side::Sell,
                                asks@[next_ask as int].price,
                                asks@[i].price,
                            ));
                        }
                        if next_ask > 0 {
                            assert(levels_in_order(
                                Side::Sell,
                                asks@[next_ask - 1].price,
                                asks@[next_ask as int].price,
                            ));
                        }
                    }
                }
                interval_lower = transition_price;
            },
        }
    }
    Ok(best)
}

} // verus!
