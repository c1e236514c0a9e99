//! What a discovered clearing promises, over prices, demand and supply.

use vstd::prelude::*;

use crate::auction::{
    outranks, AuctionClearing, AuctionError, AuctionFinalTieBreak, AuctionLevel,
    AuctionMarketInterest, AuctionPressureRule, AuctionPriceBand, AuctionPriceGrid,
    AuctionPricePolicy,
};
use crate::discovery::{
    clearing_at, demand_at, discovery_fault, discovery_result, first_level_fault, is_candidate,
    lemma_levels_valid, lemma_quantities_bounded, level_fault, supply_at, total_quantity,
};
use crate::domain::{Price, Side};

verus! {

/// A bid joins demand at every price up to its own and at no higher one, an ask
/// joins supply from its own price on and at no lower one, and without levels
/// only market interest is left.
pub proof fn law_levels_join_interest(
    levels: Seq<AuctionLevel>,
    level: AuctionLevel,
    market: AuctionMarketInterest,
    price: Price,
)
    ensures
        price.raw <= level.price.raw ==> demand_at(levels.push(level), market, price)
            - demand_at(levels, market, price) == level.quantity,
        price.raw > level.price.raw ==> demand_at(levels.push(level), market, price) == demand_at(
            levels,
            market,
            price,
        ),
        price.raw >= level.price.raw ==> supply_at(levels.push(level), market, price)
            - supply_at(levels, market, price) == level.quantity,
        price.raw < level.price.raw ==> supply_at(levels.push(level), market, price) == supply_at(
            levels,
            market,
            price,
        ),
        total_quantity(levels.push(level)) - total_quantity(levels) == level.quantity,
        demand_at(Seq::empty(), market, price) == market.buy_quantity,
        supply_at(Seq::empty(), market, price) == market.sell_quantity,
        total_quantity(Seq::empty()) == 0,
{
    assert(levels.push(level).drop_last() =~= levels);
}

/// Market interest counts in full at every price, whatever the levels are.
pub proof fn law_market_interest_is_price_free(
    levels: Seq<AuctionLevel>,
    market: AuctionMarketInterest,
    other: AuctionMarketInterest,
    price: Price,
)
    ensures
        demand_at(levels, market, price) - demand_at(levels, other, price) == market.buy_quantity
            - other.buy_quantity,
        supply_at(levels, market, price) - supply_at(levels, other, price) == market.sell_quantity
            - other.sell_quantity,
{
}

/// A discovered clearing reports the demand and supply of its price, of which the
/// smaller executes and the difference is left on the larger side. Its price is
/// on the tick grid and inside the band, and something executes.
pub proof fn law_clearing_reports_interest(
    bids: Seq<AuctionLevel>,
    asks: Seq<AuctionLevel>,
    market: AuctionMarketInterest,
    grid: AuctionPriceGrid,
    band: AuctionPriceBand,
    reference: Price,
    policy: AuctionPricePolicy,
    clearing: AuctionClearing,
)
    requires
        discovery_result(bids, asks, market, grid, band, reference, policy, Ok(Some(clearing))),
    ensures
        clearing.price.raw as int % grid.tick_i64 as int == 0,
        band.minimum.raw <= clearing.price.raw,
        clearing.price.raw <= band.maximum.raw,
        clearing.buy_quantity == demand_at(bids, market, clearing.price),
        clearing.sell_quantity == supply_at(asks, market, clearing.price),
        clearing.executable_quantity > 0,
        clearing.executable_quantity <= clearing.buy_quantity,
        clearing.executable_quantity <= clearing.sell_quantity,
        clearing.executable_quantity == clearing.buy_quantity || clearing.executable_quantity
            == clearing.sell_quantity,
        clearing.imbalance_side == Some(Side::Buy) <==> clearing.buy_quantity
            > clearing.sell_quantity,
        clearing.imbalance_side == Some(Side::Sell) <==> clearing.sell_quantity
            > clearing.buy_quantity,
        clearing.imbalance_side is None <==> clearing.imbalance_quantity == 0,
        clearing.buy_quantity + clearing.sell_quantity == 2 * clearing.executable_quantity
            + clearing.imbalance_quantity,
{
    lemma_quantities_bounded(bids, asks, market, clearing.price);
}

/// No price of the band on the tick grid beats a discovered clearing: none
/// executes more; among those that execute as much none leaves a smaller
/// imbalance; and, where imbalance pressure does not decide, among those that
/// leave as much none is closer to the reference price, and among those as close
/// none is on the preferred side of the final tie break.
pub proof fn law_clearing_is_optimal(
    bids: Seq<AuctionLevel>,
    asks: Seq<AuctionLevel>,
    market: AuctionMarketInterest,
    grid: AuctionPriceGrid,
    band: AuctionPriceBand,
    reference: Price,
    policy: AuctionPricePolicy,
    clearing: AuctionClearing,
    price: Price,
)
    requires
        discovery_result(bids, asks, market, grid, band, reference, policy, Ok(Some(clearing))),
        price.raw as int % grid.tick_i64 as int == 0,
        band.minimum.raw <= price.raw <= band.maximum.raw,
    ensures
        ({
            let demand = demand_at(bids, market, price);
            let supply = supply_at(asks, market, price);
            let executable = if demand <= supply { demand } else { supply };
            let imbalance = if demand <= supply { supply - demand } else { demand - supply };
            let far = if price.raw >= reference.raw {
                price.raw - reference.raw
            } else {
                reference.raw - price.raw
            };
            let near = if clearing.price.raw >= reference.raw {
                clearing.price.raw - reference.raw
            } else {
                reference.raw - clearing.price.raw
            };
            let pressed = policy.pressure_rule == AuctionPressureRule::FavorImbalance && (demand
                > supply && clearing.imbalance_side == Some(Side::Buy) || supply > demand
                && clearing.imbalance_side == Some(Side::Sell));
            &&& clearing.executable_quantity >= executable
            &&& clearing.executable_quantity == executable ==> clearing.imbalance_quantity
                <= imbalance
            &&& clearing.executable_quantity == executable && clearing.imbalance_quantity
                == imbalance && !pressed ==> near <= far
            &&& clearing.executable_quantity == executable && clearing.imbalance_quantity
                == imbalance && !pressed && near == far ==> match policy.final_tie_break {
                AuctionFinalTieBreak::LowerPrice => clearing.price.raw <= price.raw,
                AuctionFinalTieBreak::HigherPrice => clearing.price.raw >= price.raw,
            }
        }),
{
    lemma_quantities_bounded(bids, asks, market, price);
    lemma_quantities_bounded(bids, asks, market, clearing.price);
    let other = clearing_at(bids, asks, market, price);
    if other.executable_quantity != 0 {
        assert(is_candidate(bids, asks, market, grid, band, price));
    }
}

/// Under the imbalance-favouring rule a clearing with a buy imbalance has the
/// highest price, and one with a sell imbalance the lowest, among the prices of
/// the band on the grid with the same executable quantity, the same imbalance
/// quantity and the imbalance on the same side.
pub proof fn law_imbalance_moves_price(
    bids: Seq<AuctionLevel>,
    asks: Seq<AuctionLevel>,
    market: AuctionMarketInterest,
    grid: AuctionPriceGrid,
    band: AuctionPriceBand,
    reference: Price,
    policy: AuctionPricePolicy,
    clearing: AuctionClearing,
    price: Price,
)
    requires
        discovery_result(bids, asks, market, grid, band, reference, policy, Ok(Some(clearing))),
        policy.pressure_rule == AuctionPressureRule::FavorImbalance,
        price.raw as int % grid.tick_i64 as int == 0,
        band.minimum.raw <= price.raw <= band.maximum.raw,
    ensures
        ({
            let demand = demand_at(bids, market, clearing.price);
            let supply = supply_at(asks, market, clearing.price);
            &&& demand > supply && demand_at(bids, market, price) == demand && supply_at(
                asks,
                market,
                price,
            ) == supply ==> price.raw <= clearing.price.raw
            &&& supply > demand && demand_at(bids, market, price) == demand && supply_at(
                asks,
                market,
                price,
            ) == supply ==> price.raw >= clearing.price.raw
        }),
{
    lemma_quantities_bounded(bids, asks, market, price);
    lemma_quantities_bounded(bids, asks, market, clearing.price);
    let other = clearing_at(bids, asks, market, price);
    if other.executable_quantity != 0 {
        assert(is_candidate(bids, asks, market, grid, band, price));
    }
}

/// Nothing is discovered only where no price of the band on the grid has both
/// demand and supply.
pub proof fn law_no_clearing_without_overlap(
    bids: Seq<AuctionLevel>,
    asks: Seq<AuctionLevel>,
    market: AuctionMarketInterest,
    grid: AuctionPriceGrid,
    band: AuctionPriceBand,
    reference: Price,
    policy: AuctionPricePolicy,
    price: Price,
)
    requires
        discovery_result(bids, asks, market, grid, band, reference, policy, Ok(None)),
        price.raw as int % grid.tick_i64 as int == 0,
        band.minimum.raw <= price.raw <= band.maximum.raw,
    ensures
        demand_at(bids, market, price) == 0 || supply_at(asks, market, price) == 0,
{
    lemma_quantities_bounded(bids, asks, market, price);
    let other = clearing_at(bids, asks, market, price);
    if other.executable_quantity != 0 {
        assert(band.covers(price));
        assert(is_candidate(bids, asks, market, grid, band, price));
    }
}

proof fn lemma_levels_accepted(
    levels: Seq<AuctionLevel>,
    side: Side,
    grid: AuctionPriceGrid,
    count: nat,
)
    requires
        count <= levels.len(),
        forall|i: int|
            0 <= i < levels.len() ==> (#[trigger] levels[i]).price.raw as int
                % grid.tick_i64 as int == 0,
        forall|i: int, j: int|
            0 <= i < j < levels.len() ==> match side {
                Side::Buy => (#[trigger] levels[i]).price.raw > (#[trigger] levels[j]).price.raw,
                Side::Sell => levels[i].price.raw < levels[j].price.raw,
            },
        total_quantity(levels) <= u128::MAX,
    ensures
        first_level_fault(levels, side, grid, count) is None,
        total_quantity(levels.take(count as int)) <= total_quantity(levels),
    decreases count,
{
    lemma_prefix_bounded(levels, count as int);
    if count > 0 {
        lemma_levels_accepted(levels, side, grid, (count - 1) as nat);
        assert(level_fault(levels, side, grid, count - 1) is None);
    }
}

proof fn lemma_prefix_bounded(levels: Seq<AuctionLevel>, count: int)
    requires
        0 <= count <= levels.len(),
    ensures
        total_quantity(levels.take(count)) <= total_quantity(levels),
    decreases levels.len() - count,
{
    if count < levels.len() {
        lemma_prefix_bounded(levels, count + 1);
        assert(levels.take(count + 1).drop_last() =~= levels.take(count));
    } else {
        assert(levels.take(count) =~= levels);
    }
}

/// Discovery runs exactly on an ordered band and reference on the grid, bids in
/// strictly descending and asks in strictly ascending price order on the grid,
/// and side totals that fit their type.
pub proof fn law_discovery_accepts(
    bids: Seq<AuctionLevel>,
    asks: Seq<AuctionLevel>,
    market: AuctionMarketInterest,
    grid: AuctionPriceGrid,
    band: AuctionPriceBand,
    reference: Price,
    policy: AuctionPricePolicy,
    result: Result<Option<AuctionClearing>, AuctionError>,
)
    requires
        discovery_result(bids, asks, market, grid, band, reference, policy, result),
    ensures
        result is Ok <==> {
            &&& band.minimum.raw <= band.maximum.raw
            &&& band.minimum.raw as int % grid.tick_i64 as int == 0
            &&& band.maximum.raw as int % grid.tick_i64 as int == 0
            &&& reference.raw as int % grid.tick_i64 as int == 0
            &&& forall|i: int|
                0 <= i < bids.len() ==> (#[trigger] bids[i]).price.raw as int
                    % grid.tick_i64 as int == 0
            &&& forall|i: int|
                0 <= i < asks.len() ==> (#[trigger] asks[i]).price.raw as int
                    % grid.tick_i64 as int == 0
            &&& forall|i: int, j: int|
                0 <= i < j < bids.len() ==> (#[trigger] bids[i]).price.raw > (
                #[trigger] bids[j]).price.raw
            &&& forall|i: int, j: int|
                0 <= i < j < asks.len() ==> (#[trigger] asks[i]).price.raw < (
                #[trigger] asks[j]).price.raw
            &&& total_quantity(bids) + market.buy_quantity <= u128::MAX
            &&& total_quantity(asks) + market.sell_quantity <= u128::MAX
        },
{
    assert(bids.take(bids.len() as int) =~= bids);
    assert(asks.take(asks.len() as int) =~= asks);
    if result is Ok {
        lemma_levels_valid(bids, Side::Buy, grid, bids.len());
        lemma_levels_valid(asks, Side::Sell, grid, asks.len());
        assert forall|i: int, j: int| 0 <= i < j < bids.len() implies (
        #[trigger] bids[i]).price.raw > (#[trigger] bids[j]).price.raw by {
            assert(bids[i].price.raw > bids[j].price.raw);
        }
        assert forall|i: int, j: int| 0 <= i < j < asks.len() implies (
        #[trigger] asks[i]).price.raw < (#[trigger] asks[j]).price.raw by {
            assert(asks[i].price.raw < asks[j].price.raw);
        }
        assert forall|i: int| 0 <= i < bids.len() implies (
        #[trigger] bids[i]).price.raw as int % grid.tick_i64 as int == 0 by {
            assert(grid.aligned(bids[i].price));
        }
        assert forall|i: int| 0 <= i < asks.len() implies (
        #[trigger] asks[i]).price.raw as int % grid.tick_i64 as int == 0 by {
            assert(grid.aligned(asks[i].price));
        }
    }
    if {
        &&& band.minimum.raw <= band.maximum.raw
        &&& band.minimum.raw as int % grid.tick_i64 as int == 0
        &&& band.maximum.raw as int % grid.tick_i64 as int == 0
        &&& reference.raw as int % grid.tick_i64 as int == 0
        &&& forall|i: int|
            0 <= i < bids.len() ==> (#[trigger] bids[i]).price.raw as int % grid.tick_i64 as int
                == 0
        &&& forall|i: int|
            0 <= i < asks.len() ==> (#[trigger] asks[i]).price.raw as int % grid.tick_i64 as int
                == 0
        &&& forall|i: int, j: int|
            0 <= i < j < bids.len() ==> (#[trigger] bids[i]).price.raw > (
            #[trigger] bids[j]).price.raw
        &&& forall|i: int, j: int|
            0 <= i < j < asks.len() ==> (#[trigger] asks[i]).price.raw < (
            #[trigger] asks[j]).price.raw
        &&& total_quantity(bids) + market.buy_quantity <= u128::MAX
        &&& total_quantity(asks) + market.sell_quantity <= u128::MAX
    } {
        lemma_levels_accepted(bids, Side::Buy, grid, bids.len());
        lemma_levels_accepted(asks, Side::Sell, grid, asks.len());
        assert(discovery_fault(bids, asks, market, grid, band, reference) is None);
    }
}

/// Of two clearings the one that executes more ranks first; of those that execute
/// as much, the one with the smaller imbalance; and of those that also leave as
/// much on the same side, under the imbalance-favouring rule, the higher price for
/// a buy and the lower price for a sell imbalance.
pub proof fn law_ranking_order(
    left: AuctionClearing,
    right: AuctionClearing,
    reference: Price,
    policy: AuctionPricePolicy,
)
    ensures
        left.executable_quantity > right.executable_quantity ==> outranks(
            left,
            right,
            reference,
            policy,
        ) && !outranks(right, left, reference, policy),
        left.executable_quantity == right.executable_quantity && left.imbalance_quantity
            < right.imbalance_quantity ==> outranks(left, right, reference, policy) && !outranks(
            right,
            left,
            reference,
            policy,
        ),
        left.executable_quantity == right.executable_quantity && left.imbalance_quantity
            == right.imbalance_quantity && policy.pressure_rule
            == AuctionPressureRule::FavorImbalance && left.imbalance_side == Some(Side::Buy)
            && right.imbalance_side == Some(Side::Buy) && left.price.raw > right.price.raw
            ==> outranks(left, right, reference, policy),
        left.executable_quantity == right.executable_quantity && left.imbalance_quantity
            == right.imbalance_quantity && policy.pressure_rule
            == AuctionPressureRule::FavorImbalance && left.imbalance_side == Some(Side::Sell)
            && right.imbalance_side == Some(Side::Sell) && left.price.raw < right.price.raw
            ==> outranks(left, right, reference, policy),
        left.executable_quantity == right.executable_quantity && left.imbalance_quantity
            == right.imbalance_quantity && policy.pressure_rule
            != AuctionPressureRule::FavorImbalance && left.price.raw == reference.raw
            && right.price.raw != reference.raw ==> outranks(left, right, reference, policy),
{
}

/// What a level fault says of the levels.
spec fn names_level_fault(
    levels: Seq<AuctionLevel>,
    side: Side,
    grid: AuctionPriceGrid,
    count: nat,
    error: AuctionError,
) -> bool {
    match error {
        AuctionError::PriceOffGrid { side: named, index } => {
            &&& named == side
            &&& index < count
            &&& levels[index as int].price.raw as int % grid.tick_i64 as int != 0
        },
        AuctionError::NonCanonicalLevels { side: named, index } => {
            &&& named == side
            &&& 0 < index < count
            &&& match side {
                Side::Buy => levels[index - 1].price.raw <= levels[index as int].price.raw,
                Side::Sell => levels[index - 1].price.raw >= levels[index as int].price.raw,
            }
        },
        AuctionError::QuantityOverflow(named) => named == side && total_quantity(levels)
            > u128::MAX,
        _ => false,
    }
}

proof fn lemma_level_fault_named(
    levels: Seq<AuctionLevel>,
    side: Side,
    grid: AuctionPriceGrid,
    count: nat,
)
    requires
        count <= levels.len() <= usize::MAX,
    ensures
        first_level_fault(levels, side, grid, count) matches Some(error) ==> names_level_fault(
            levels,
            side,
            grid,
            count,
            error,
        ),
    decreases count,
{
    if count > 0 {
        lemma_level_fault_named(levels, side, grid, (count - 1) as nat);
        lemma_prefix_bounded(levels, count as int);
    }
}

/// A refused discovery names what is wrong: an inverted band, a band end, a
/// reference or a level off the grid, a level out of order, or a side whose total
/// does not fit; levels are named by side and index.
pub proof fn law_discovery_refusals(
    bids: Seq<AuctionLevel>,
    asks: Seq<AuctionLevel>,
    market: AuctionMarketInterest,
    grid: AuctionPriceGrid,
    band: AuctionPriceBand,
    reference: Price,
    policy: AuctionPricePolicy,
    error: AuctionError,
)
    requires
        bids.len() <= usize::MAX,
        asks.len() <= usize::MAX,
        discovery_result(bids, asks, market, grid, band, reference, policy, Err(error)),
    ensures
        match error {
            AuctionError::PriceBandInverted => band.minimum.raw > band.maximum.raw,
            AuctionError::PriceBandMinimumOffGrid => band.minimum.raw as int
                % grid.tick_i64 as int != 0,
            AuctionError::PriceBandMaximumOffGrid => band.maximum.raw as int
                % grid.tick_i64 as int != 0,
            AuctionError::ReferencePriceOffGrid => reference.raw as int % grid.tick_i64 as int != 0,
            AuctionError::PriceOffGrid { side, index } => {
                let levels = if side == Side::Buy { bids } else { asks };
                &&& index < levels.len()
                &&& levels[index as int].price.raw as int % grid.tick_i64 as int != 0
            },
            AuctionError::NonCanonicalLevels { side, index } => {
                let levels = if side == Side::Buy { bids } else { asks };
                &&& 0 < index < levels.len()
                &&& side == Side::Buy ==> levels[index - 1].price.raw
                    <= levels[index as int].price.raw
                &&& side == Side::Sell ==> levels[index - 1].price.raw
                    >= levels[index as int].price.raw
            },
            AuctionError::QuantityOverflow(side) => {
                &&& side == Side::Buy ==> total_quantity(bids) + market.buy_quantity > u128::MAX
                &&& side == Side::Sell ==> total_quantity(asks) + market.sell_quantity > u128::MAX
            },
            _ => false,
        },
{
    lemma_level_fault_named(bids, Side::Buy, grid, bids.len());
    lemma_level_fault_named(asks, Side::Sell, grid, asks.len());
}

} // verus!
