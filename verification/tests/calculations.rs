use call_auction::allocation::{
    allocate_clearing_from_storage, allocate_clearing_price_time, allocate_clearing_pro_rata_time,
    AuctionAllocationError, AuctionAllocationLimits, AuctionAllocationPolicy,
};
use call_auction::auction::{
    AuctionClearing, AuctionError, AuctionLevel, AuctionMarketInterest, AuctionOrder,
    AuctionOrderConstraint, AuctionPriceBand, AuctionPriceGrid, AuctionPricePolicy,
    AuctionPriorityClass,
};
use call_auction::discovery::{discover_bounded_clearing_price, discover_clearing_price};
use call_auction::domain::{OrderId, Price, Quantity, Side};

fn level(price: i64, quantity: u128) -> AuctionLevel {
    AuctionLevel::new(Price::from_raw(price), quantity).unwrap()
}

fn order(id: u64, limit: Option<i64>, lots: u64, sequence: u64) -> AuctionOrder {
    AuctionOrder::new(
        OrderId::new(id).unwrap(),
        match limit {
            Some(raw) => AuctionOrderConstraint::Limit(Price::from_raw(raw)),
            None => AuctionOrderConstraint::Market,
        },
        Quantity::new(lots).unwrap(),
        AuctionPriorityClass::highest(),
        sequence,
    )
}

fn grid(tick: u64) -> AuctionPriceGrid {
    AuctionPriceGrid::new(tick).unwrap()
}

#[test]
fn grid_and_band_reject_what_they_cannot_hold() {
    assert_eq!(
        AuctionPriceGrid::new(0).unwrap_err(),
        AuctionError::InvalidTickSize(0)
    );
    let five = grid(5);
    assert!(five.contains(Price::from_raw(-10)));
    assert!(!five.contains(Price::from_raw(3)));
    assert_eq!(
        AuctionPriceBand::new(five, Price::from_raw(10), Price::from_raw(5)).unwrap_err(),
        AuctionError::PriceBandInverted
    );
    assert_eq!(
        AuctionPriceBand::new(five, Price::from_raw(1), Price::from_raw(5)).unwrap_err(),
        AuctionError::PriceBandMinimumOffGrid
    );
    assert_eq!(
        AuctionPriceBand::new(five, Price::from_raw(0), Price::from_raw(7)).unwrap_err(),
        AuctionError::PriceBandMaximumOffGrid
    );
    assert_eq!(
        AuctionLevel::new(Price::from_raw(1), 0).unwrap_err(),
        AuctionError::ZeroLevelQuantity
    );
}

#[test]
fn clearing_counts_executable_lots_and_imbalance() {
    let clearing = AuctionClearing::from_quantities(Price::from_raw(10), 7, 4);
    assert_eq!(clearing.executable_quantity(), 4);
    assert_eq!(clearing.imbalance_side(), Some(Side::Buy));
    assert_eq!(clearing.imbalance_quantity(), 3);
    let balanced = AuctionClearing::from_quantities(Price::from_raw(10), 4, 4);
    assert_eq!(balanced.imbalance_side(), None);
    assert!(balanced.is_better_than(
        clearing,
        Price::from_raw(10),
        AuctionPricePolicy::reference_then_lower()
    ));
}

#[test]
fn discovery_maximizes_volume_then_minimizes_imbalance() {
    let bids = [level(105, 10), level(100, 10)];
    let asks = [level(95, 5), level(100, 10), level(110, 50)];
    let clearing = discover_clearing_price(
        &bids,
        &asks,
        grid(5),
        Price::from_raw(100),
        AuctionPricePolicy::reference_then_lower(),
    )
    .unwrap()
    .unwrap();
    assert_eq!(clearing.price(), Price::from_raw(100));
    assert_eq!(clearing.executable_quantity(), 15);
    assert_eq!(clearing.buy_quantity(), 20);
    assert_eq!(clearing.sell_quantity(), 15);
}

#[test]
fn discovery_breaks_ties_by_policy() {
    let bids = [level(110, 10)];
    let asks = [level(100, 10)];
    let lower = discover_clearing_price(
        &bids,
        &asks,
        grid(1),
        Price::from_raw(105),
        AuctionPricePolicy::reference_then_lower(),
    )
    .unwrap()
    .unwrap();
    assert_eq!(lower.price(), Price::from_raw(105));
    let market = discover_bounded_clearing_price(
        &[],
        &[],
        AuctionMarketInterest::new(10, 10),
        grid(5),
        AuctionPriceBand::new(grid(5), Price::from_raw(0), Price::from_raw(10)).unwrap(),
        Price::from_raw(5),
        AuctionPricePolicy::reference_then_higher(),
    )
    .unwrap()
    .unwrap();
    assert_eq!(market.price(), Price::from_raw(5));
    assert_eq!(market.executable_quantity(), 10);
}

#[test]
fn discovery_reports_no_cross_and_bad_input() {
    let none = discover_clearing_price(
        &[level(90, 1)],
        &[level(100, 1)],
        grid(5),
        Price::from_raw(95),
        AuctionPricePolicy::reference_then_lower(),
    )
    .unwrap();
    assert!(none.is_none());
    assert_eq!(
        discover_clearing_price(
            &[level(90, 1), level(95, 1)],
            &[],
            grid(5),
            Price::from_raw(95),
            AuctionPricePolicy::reference_then_lower(),
        )
        .unwrap_err(),
        AuctionError::NonCanonicalLevels {
            side: Side::Buy,
            index: 1
        }
    );
    assert_eq!(
        discover_clearing_price(
            &[level(91, 1)],
            &[],
            grid(5),
            Price::from_raw(95),
            AuctionPricePolicy::reference_then_lower(),
        )
        .unwrap_err(),
        AuctionError::PriceOffGrid {
            side: Side::Buy,
            index: 0
        }
    );
    assert_eq!(
        discover_clearing_price(
            &[],
            &[],
            grid(5),
            Price::from_raw(94),
            AuctionPricePolicy::reference_then_lower(),
        )
        .unwrap_err(),
        AuctionError::ReferencePriceOffGrid
    );
    assert_eq!(
        discover_clearing_price(
            &[level(100, u128::MAX), level(95, 1)],
            &[],
            grid(5),
            Price::from_raw(95),
            AuctionPricePolicy::reference_then_lower(),
        )
        .unwrap_err(),
        AuctionError::QuantityOverflow(Side::Buy)
    );
}

#[test]
fn price_time_allocation_fills_in_priority_order() {
    let bids = [
        order(1, Some(110), 4, 1),
        order(2, Some(100), 4, 2),
        order(3, Some(100), 4, 3),
    ];
    let asks = [order(9, Some(100), 6, 4)];
    let clearing = AuctionClearing::from_quantities(Price::from_raw(100), 12, 6);
    let plan = allocate_clearing_price_time(
        &bids,
        &asks,
        grid(5),
        clearing,
        AuctionAllocationLimits::default(),
    )
    .unwrap();
    assert_eq!(plan.executable_quantity(), 6);
    let fills: Vec<(u64, u64)> = plan
        .buy_fills()
        .iter()
        .map(|fill| (fill.order_id().get(), fill.quantity_lots()))
        .collect();
    assert_eq!(fills, vec![(1, 4), (2, 2)]);
    assert_eq!(plan.sell_fills().len(), 1);
    assert_eq!(plan.sell_fills()[0].quantity_lots(), 6);
}

#[test]
fn pro_rata_allocation_shares_the_marginal_price() {
    let bids = [
        order(1, Some(110), 4, 1),
        order(2, Some(100), 8, 2),
        order(3, Some(100), 4, 3),
    ];
    let asks = [order(9, Some(100), 10, 4)];
    let clearing = AuctionClearing::from_quantities(Price::from_raw(100), 16, 10);
    let plan = allocate_clearing_pro_rata_time(
        &bids,
        &asks,
        grid(5),
        clearing,
        1,
        AuctionAllocationLimits::default(),
    )
    .unwrap();
    let fills: Vec<(u64, u64)> = plan
        .buy_fills()
        .iter()
        .map(|fill| (fill.order_id().get(), fill.quantity_lots()))
        .collect();
    assert_eq!(fills, vec![(1, 4), (2, 4), (3, 2)]);
}

#[test]
fn allocation_rejects_inconsistent_input() {
    assert_eq!(
        AuctionAllocationLimits::new(0).unwrap_err(),
        AuctionAllocationError::InvalidOrderLimit(0)
    );
    let bids = [order(1, Some(100), 4, 1)];
    let asks = [order(2, Some(100), 4, 2)];
    let clearing = AuctionClearing::from_quantities(Price::from_raw(100), 5, 4);
    assert_eq!(
        allocate_clearing_price_time(
            &bids,
            &asks,
            grid(5),
            clearing,
            AuctionAllocationLimits::default(),
        )
        .unwrap_err(),
        AuctionAllocationError::ClearingQuantityMismatch {
            expected_buy: 5,
            observed_buy: 4,
            expected_sell: 4,
            observed_sell: 4,
        }
    );
    let right = AuctionClearing::from_quantities(Price::from_raw(100), 4, 4);
    assert_eq!(
        allocate_clearing_pro_rata_time(
            &bids,
            &asks,
            grid(5),
            right,
            0,
            AuctionAllocationLimits::default(),
        )
        .unwrap_err(),
        AuctionAllocationError::InvalidAllocationQuantum(0)
    );
    assert_eq!(
        allocate_clearing_pro_rata_time(
            &bids,
            &asks,
            grid(5),
            right,
            3,
            AuctionAllocationLimits::default(),
        )
        .unwrap_err(),
        AuctionAllocationError::OrderQuantityOffAllocationGrid {
            side: Side::Buy,
            index: 0,
            quantity_lots: 4,
            allocation_quantum_lots: 3,
        }
    );
    let two = [order(1, Some(100), 2, 1), order(2, Some(105), 2, 2)];
    assert_eq!(
        allocate_clearing_price_time(
            &two,
            &asks,
            grid(5),
            right,
            AuctionAllocationLimits::default(),
        )
        .unwrap_err(),
        AuctionAllocationError::NonCanonicalOrders {
            side: Side::Buy,
            index: 1
        }
    );
    assert_eq!(
        allocate_clearing_price_time(
            &two,
            &asks,
            grid(5),
            right,
            AuctionAllocationLimits::new(1).unwrap(),
        )
        .unwrap_err(),
        AuctionAllocationError::OrderLimitExceeded {
            side: Side::Buy,
            count: 2,
            maximum: 1,
        }
    );
    assert_eq!(
        allocate_clearing_price_time(
            &[],
            &[],
            grid(5),
            AuctionClearing::from_quantities(Price::from_raw(100), 0, 0),
            AuctionAllocationLimits::default(),
        )
        .unwrap_err(),
        AuctionAllocationError::ZeroExecutableQuantity
    );
}

#[test]
fn the_first_orders_of_the_marginal_tier_take_the_residual_quanta() {
    let bids = [
        order(1, Some(100), 10, 1),
        order(2, Some(100), 10, 2),
        order(3, Some(100), 10, 3),
    ];
    let asks = [order(9, Some(100), 11, 4)];
    let clearing = AuctionClearing::from_quantities(Price::from_raw(100), 30, 11);
    let plan = allocate_clearing_pro_rata_time(
        &bids,
        &asks,
        grid(5),
        clearing,
        1,
        AuctionAllocationLimits::default(),
    )
    .unwrap();
    let fills: Vec<(u64, u64)> = plan
        .buy_fills()
        .iter()
        .map(|fill| (fill.order_id().get(), fill.quantity_lots()))
        .collect();
    assert_eq!(fills, vec![(1, 4), (2, 4), (3, 3)]);
}

#[test]
fn allocation_names_the_first_side_without_storage() {
    let bids = [order(1, None, 4, 1)];
    let asks = [order(9, Some(100), 4, 4)];
    let clearing = AuctionClearing::from_quantities(Price::from_raw(100), 4, 4);
    let outcome = |buys: bool, sells: bool| {
        allocate_clearing_from_storage(
            &bids,
            &asks,
            clearing,
            AuctionAllocationPolicy::PriceTime,
            1,
            buys.then_some(Vec::new()),
            sells.then_some(Vec::new()),
        )
    };
    assert_eq!(
        outcome(false, false).unwrap_err(),
        AuctionAllocationError::CapacityReservationFailed(Side::Buy)
    );
    assert_eq!(
        outcome(true, false).unwrap_err(),
        AuctionAllocationError::CapacityReservationFailed(Side::Sell)
    );
    assert_eq!(outcome(true, true).unwrap().buy_fills()[0].quantity_lots(), 4);
}
