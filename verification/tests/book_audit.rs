use call_auction::allocation::AuctionOrderFill;
use call_auction::auction::{AuctionOrderConstraint, AuctionPriorityClass};
use call_auction::auction_book::CallAuctionBookStorage;
use call_auction::book_queries::reserve_call_auction_book_query_vec;
use call_auction::book_state::{
    try_uncross_vector, AuctionQueue, CallAuctionBook, CallAuctionUncrossPool,
};
use call_auction::book_types::{
    CallAuctionBookLimits, CallAuctionBookLimitsSpec, CallAuctionBookQueryError,
    CallAuctionBookQueryResource, CallAuctionCancellation, CallAuctionCapacity,
    CallAuctionConstructionError, CallAuctionInvariantViolation, CallAuctionOrder,
    CallAuctionTrade,
};
use call_auction::domain::{
    AccountId, InstrumentId, InstrumentVersion, MassCancelScope, OrderId, Price, Quantity, Side,
};
use call_auction::instrument::{InstrumentDefinition, PriceRules, QuantityRules};

fn definition() -> InstrumentDefinition {
    InstrumentDefinition::new(
        InstrumentId::new(7).unwrap(),
        InstrumentVersion::new(3).unwrap(),
        PriceRules::new(0, 5, Price::from_raw(-100), Price::from_raw(200)).unwrap(),
        QuantityRules::new(1, 1, 1_000).unwrap(),
    )
}

fn two_order_book(constraint: AuctionOrderConstraint) -> CallAuctionBook {
    let limits = CallAuctionBookLimits::new(CallAuctionBookLimitsSpec {
        max_active_orders: 2,
        max_price_levels_per_side: 2,
        max_accepted_order_ids: 2,
        max_prepared_uncrosses: 2,
    })
    .unwrap();
    let mut book = CallAuctionBook::try_with_limits(definition(), limits, 1).unwrap();
    for order_id in [10_u64, 20] {
        book.admit_order(CallAuctionOrder::new(
            OrderId::new(order_id).unwrap(),
            AccountId::new(1).unwrap(),
            InstrumentId::new(7).unwrap(),
            InstrumentVersion::new(3).unwrap(),
            Side::Buy,
            constraint,
            Quantity::new(1).unwrap(),
            AuctionPriorityClass::highest(),
        ))
        .unwrap();
    }
    book.validate().unwrap();
    book
}

#[test]
fn unrepresentable_book_query_is_typed_and_nonpoisoning() {
    let resource = CallAuctionBookQueryResource::AccountOrderIds;
    let error = reserve_call_auction_book_query_vec::<OrderId>(usize::MAX, resource).unwrap_err();
    assert_eq!(
        error,
        CallAuctionBookQueryError::ReservationFailed {
            resource,
            maximum: usize::MAX,
        }
    );
}

#[test]
fn every_uncross_buffer_class_reports_typed_unrepresentable_reservation() {
    for (result, capacity) in [
        (
            try_uncross_vector::<AuctionOrderFill>(
                usize::MAX,
                CallAuctionCapacity::UncrossBuyFills,
            ),
            CallAuctionCapacity::UncrossBuyFills,
        ),
        (
            try_uncross_vector::<AuctionOrderFill>(
                usize::MAX,
                CallAuctionCapacity::UncrossSellFills,
            ),
            CallAuctionCapacity::UncrossSellFills,
        ),
    ] {
        assert_eq!(
            result.unwrap_err(),
            CallAuctionConstructionError::CapacityReservationFailed(capacity)
        );
    }
    assert!(matches!(
        try_uncross_vector::<CallAuctionTrade>(usize::MAX, CallAuctionCapacity::UncrossTrades),
        Err(CallAuctionConstructionError::CapacityReservationFailed(
            CallAuctionCapacity::UncrossTrades
        ))
    ));
    assert!(matches!(
        try_uncross_vector::<CallAuctionCancellation>(
            usize::MAX,
            CallAuctionCapacity::UncrossCancellations,
        ),
        Err(CallAuctionConstructionError::CapacityReservationFailed(
            CallAuctionCapacity::UncrossCancellations
        ))
    ));
    assert!(matches!(
        CallAuctionUncrossPool::try_new(usize::MAX, 1),
        Err(CallAuctionConstructionError::CapacityReservationFailed(
            CallAuctionCapacity::PreparedUncrosses
        ))
    ));
}

#[test]
fn allocation_free_validation_rejects_market_and_limit_queue_cycles() {
    for constraint in [
        AuctionOrderConstraint::Market,
        AuctionOrderConstraint::Limit(Price::from_raw(100)),
    ] {
        let mut book = two_order_book(constraint);
        let head = OrderId::new(10).unwrap();
        let tail = OrderId::new(20).unwrap();
        book.orders.get_mut(tail).unwrap().next = Some(head);
        let detail = book.validate().unwrap_err().detail().to_owned();
        assert!(
            detail.contains("cycle") || detail.contains("exceeds recorded count"),
            "unexpected invariant detail: {detail}"
        );
    }
}

#[test]
fn allocation_free_validation_rejects_unqueued_active_orders() {
    let mut book = two_order_book(AuctionOrderConstraint::Market);
    book.market_buys = AuctionQueue::default();
    assert!(book
        .validate()
        .unwrap_err()
        .detail()
        .contains("unqueued order"));
}

#[test]
fn allocation_free_validation_rejects_account_cycles_and_missing_membership() {
    let mut cyclic = two_order_book(AuctionOrderConstraint::Market);
    let head = OrderId::new(10).unwrap();
    let tail = OrderId::new(20).unwrap();
    cyclic.orders.get_mut(tail).unwrap().account_next = Some(head);
    assert!(cyclic
        .validate()
        .unwrap_err()
        .detail()
        .contains("account-index cycle"));

    let mut missing = two_order_book(AuctionOrderConstraint::Market);
    missing.account_orders.remove(AccountId::new(1).unwrap());
    assert!(missing
        .validate()
        .unwrap_err()
        .detail()
        .contains("absent from account indexes"));
}

#[test]
fn account_order_query_reports_private_index_corruption_without_mutation() {
    let mut book = two_order_book(AuctionOrderConstraint::Market);
    let head = OrderId::new(10).unwrap();
    let tail = OrderId::new(20).unwrap();
    book.orders.get_mut(tail).unwrap().account_next = Some(head);
    let before = book.resource_status();

    let error = book
        .try_account_active_order_ids(AccountId::new(1).unwrap(), MassCancelScope::All)
        .unwrap_err();
    assert!(matches!(
        error,
        CallAuctionBookQueryError::InvariantViolation(_)
    ));
    assert_eq!(book.resource_status(), before);
}

#[test]
fn a_corrupt_account_list_is_named_with_its_account_and_side() {
    let mut book = two_order_book(AuctionOrderConstraint::Market);
    book.orders.get_mut(OrderId::new(20).unwrap()).unwrap().account_next =
        Some(OrderId::new(10).unwrap());
    assert_eq!(
        book.try_account_active_order_ids(AccountId::new(1).unwrap(), MassCancelScope::All)
            .unwrap_err(),
        CallAuctionBookQueryError::InvariantViolation(CallAuctionInvariantViolation {
            detail: "account 1 Buy list contradicts its tail, count, or quantity aggregate".to_owned(),
        })
    );
    let mut book = two_order_book(AuctionOrderConstraint::Market);
    book.orders.get_mut(OrderId::new(10).unwrap()).unwrap().account_next =
        Some(OrderId::new(77).unwrap());
    assert_eq!(
        book.try_account_active_order_ids(AccountId::new(1).unwrap(), MassCancelScope::All)
            .unwrap_err(),
        CallAuctionBookQueryError::InvariantViolation(CallAuctionInvariantViolation {
            detail: "account 1 list references absent order 77".to_owned(),
        })
    );
}

#[test]
fn missing_book_storage_is_named_in_construction_order() {
    let limits = CallAuctionBookLimits::new(CallAuctionBookLimitsSpec {
        max_active_orders: 4,
        max_price_levels_per_side: 2,
        max_accepted_order_ids: 8,
        max_prepared_uncrosses: 1,
    })
    .unwrap();
    let label = |spoil: fn(&mut CallAuctionBookStorage)| {
        let mut storage = CallAuctionBookStorage::reserve(limits);
        spoil(&mut storage);
        CallAuctionBook::from_storage(definition(), limits, 1, storage).unwrap_err()
    };
    let cases: [(fn(&mut CallAuctionBookStorage), CallAuctionCapacity); 9] = [
        (|storage| storage.bids = None, CallAuctionCapacity::BidPriceLevels),
        (|storage| storage.asks = None, CallAuctionCapacity::AskPriceLevels),
        (|storage| storage.orders = None, CallAuctionCapacity::ActiveOrders),
        (|storage| storage.account_orders = None, CallAuctionCapacity::ActiveAccounts),
        (|storage| storage.seen_order_ids = None, CallAuctionCapacity::AcceptedOrderIds),
        (|storage| storage.bid_level_scratch = None, CallAuctionCapacity::BidLevelScratch),
        (|storage| storage.ask_level_scratch = None, CallAuctionCapacity::AskLevelScratch),
        (
            |storage| {
                storage.asks = None;
                storage.orders = None;
            },
            CallAuctionCapacity::AskPriceLevels,
        ),
        (
            |storage| storage.uncross_pool = CallAuctionUncrossPool::try_new(usize::MAX, 1),
            CallAuctionCapacity::PreparedUncrosses,
        ),
    ];
    for (spoil, capacity) in cases {
        assert_eq!(
            label(spoil),
            CallAuctionConstructionError::CapacityReservationFailed(capacity)
        );
    }
    let storage = CallAuctionBookStorage::reserve(limits);
    CallAuctionBook::from_storage(definition(), limits, 1, storage)
        .unwrap()
        .validate()
        .unwrap();
}

#[test]
fn telemetry_measures_scratch_and_counts_reservations() {
    let book = two_order_book(AuctionOrderConstraint::Limit(Price::from_raw(100)));
    let status = book.resource_status();
    assert_eq!(status.allocated_active_orders, 2);
    assert_eq!(status.active_orders, 2);
    assert_eq!(status.active_accounts, 1);
    assert_eq!(status.bid_price_levels, 1);
    assert_eq!(status.ask_price_levels, 0);
    assert!(status.bid_level_scratch >= 2);
    assert!(status.ask_level_scratch >= 2);
    assert!(status.buy_order_scratch >= 2);
    assert!(status.sell_order_scratch >= 2);
    assert_eq!(status.available_prepared_uncrosses, 2);
    assert_eq!(status.uncross_fill_capacity_per_side, 2);
    assert_eq!(status.uncross_trade_capacity, 2);
    assert_eq!(status.uncross_cancellation_capacity, 2);
}

#[test]
fn a_lost_reservation_fails_the_book_audit() {
    let mut book = two_order_book(AuctionOrderConstraint::Market);
    book.bids.shrink_to_fit();
    assert_eq!(
        book.validate().unwrap_err().detail(),
        "constructor reservation is below a configured maximum"
    );
}
