use call_auction::auction_book::CallAuctionBookStorage;
use call_auction::auction_engine::CallAuctionEngine;
use call_auction::auction_risk::{
    CallAuctionRiskConstructionError, CallAuctionRiskEngine, CallAuctionRiskLimits,
    CallAuctionRiskLimitsSpec,
};
use call_auction::book_queries::reserve_call_auction_book_query_vec;
use call_auction::book_state::{try_uncross_vector, CallAuctionBook, CallAuctionUncrossPool};
use call_auction::book_types::{
    CallAuctionBookLimits, CallAuctionBookLimitsSpec, CallAuctionBookQueryResource,
    CallAuctionCapacity, CallAuctionConstructionError,
};
use call_auction::domain::{
    AccountId, CommandId, InstrumentId, InstrumentVersion, OrderId, Price,
};
use call_auction::engine_types::{
    CallAuctionEngineConstructionError, CallAuctionEngineLimits, CallAuctionEngineLimitsSpec,
};
use call_auction::instrument::{InstrumentDefinition, PriceRules, QuantityRules};
use call_auction::market_data_publication::CallAuctionPublisherStorage;
use call_auction::market_data_publisher::CallAuctionMarketDataPublisher;
use call_auction::market_data_replica::{
    CallAuctionMarketDataReplica, CallAuctionReplicaStorage,
};
use call_auction::market_data_types::{
    CallAuctionMarketDataConstructionError, CallAuctionMarketDataLimits,
    CallAuctionMarketDataLimitsSpec, CallAuctionMarketDataResource,
};
use call_auction::ordered_map::OrderedMap;
use call_auction::risk_checkpoint::{
    reserve_call_auction_risk_checkpoint_vec, CallAuctionRiskCheckpointResource,
};
use call_auction::risk_managed::CallAuctionRiskManagedEngine;
use call_auction::storage::Scratch;

fn definition() -> InstrumentDefinition {
    InstrumentDefinition::new(
        InstrumentId::new(7).unwrap(),
        InstrumentVersion::new(3).unwrap(),
        PriceRules::new(0, 5, Price::from_raw(0), Price::from_raw(200)).unwrap(),
        QuantityRules::new(1, 1, 1_000).unwrap(),
    )
}

fn limits() -> CallAuctionRiskLimits {
    let book = CallAuctionBookLimits::new(CallAuctionBookLimitsSpec {
        max_active_orders: 4,
        max_price_levels_per_side: 3,
        max_accepted_order_ids: 16,
        max_prepared_uncrosses: 1,
    })
    .unwrap();
    let auction = CallAuctionEngineLimits::new(CallAuctionEngineLimitsSpec {
        book,
        max_retained_commands: 16,
        terminal_command_reserve: 6,
        max_report_events: 9,
    })
    .unwrap();
    CallAuctionRiskLimits::new(CallAuctionRiskLimitsSpec {
        auction,
        max_registered_accounts: 2,
    })
    .unwrap()
}

fn market_data_limits() -> CallAuctionMarketDataLimits {
    CallAuctionMarketDataLimits::new(CallAuctionMarketDataLimitsSpec {
        max_active_orders: 4,
        max_price_levels_per_side: 3,
        max_batch_updates: 9,
    })
    .unwrap()
}

fn engine() -> CallAuctionEngine {
    CallAuctionEngine::try_with_limits(definition(), limits().auction(), 1).unwrap()
}

#[test]
fn an_empty_reservation_is_always_granted() {
    assert!(try_uncross_vector::<u64>(0, CallAuctionCapacity::ActiveOrders).is_ok());
    assert!(reserve_call_auction_book_query_vec::<OrderId>(
        0,
        CallAuctionBookQueryResource::AccountOrderIds
    )
    .is_ok());
    assert!(reserve_call_auction_risk_checkpoint_vec::<OrderId>(
        0,
        CallAuctionRiskCheckpointResource::CaptureAccounts
    )
    .is_ok());
    assert!(OrderedMap::<OrderId, u64>::try_with_capacity(0).is_some());
    assert!(Scratch::<u64>::try_with_capacity(0).is_some());
    assert!(CallAuctionUncrossPool::try_new(0, 4).is_ok());
}

#[test]
fn a_reservation_beyond_the_address_space_is_refused() {
    assert_eq!(
        try_uncross_vector::<u64>(usize::MAX, CallAuctionCapacity::PreparedUncrosses).unwrap_err(),
        CallAuctionConstructionError::CapacityReservationFailed(
            CallAuctionCapacity::PreparedUncrosses
        )
    );
    assert!(reserve_call_auction_book_query_vec::<OrderId>(
        usize::MAX,
        CallAuctionBookQueryResource::AccountOrderIds
    )
    .is_err());
    assert!(OrderedMap::<OrderId, u64>::try_with_capacity(usize::MAX).is_none());
    assert!(Scratch::<u64>::try_with_capacity(usize::MAX).is_none());
    assert_eq!(
        CallAuctionUncrossPool::try_new(usize::MAX, 1).unwrap_err(),
        CallAuctionConstructionError::CapacityReservationFailed(
            CallAuctionCapacity::PreparedUncrosses
        )
    );
    assert_eq!(
        CallAuctionUncrossPool::try_new(1, usize::MAX).unwrap_err(),
        CallAuctionConstructionError::CapacityReservationFailed(
            CallAuctionCapacity::UncrossBuyFills
        )
    );
}

#[test]
fn scratch_keeps_what_was_reserved_until_it_shrinks() {
    let mut scratch = Scratch::<u64>::try_with_capacity(3).unwrap();
    scratch.push(8);
    scratch.push(9);
    assert_eq!(scratch.as_slice(), [8, 9]);
    scratch.clear();
    assert_eq!(scratch.len(), 0);
    assert_eq!(scratch.reserved, 3);
    scratch.shrink_to_fit();
    assert_eq!(scratch.reserved, 0);
}

#[test]
fn a_book_that_lost_scratch_fails_its_audit() {
    let spoilers: [fn(&mut CallAuctionBook); 4] = [
        |book| book.bid_level_scratch.shrink_to_fit(),
        |book| book.ask_level_scratch.shrink_to_fit(),
        |book| book.buy_order_scratch.shrink_to_fit(),
        |book| book.sell_order_scratch.shrink_to_fit(),
    ];
    for spoil in spoilers {
        let storage = CallAuctionBookStorage::reserve(limits().auction().book());
        let mut book =
            CallAuctionBook::from_storage(definition(), limits().auction().book(), 1, storage)
                .unwrap();
        book.validate().unwrap();
        spoil(&mut book);
        assert_eq!(
            book.validate().unwrap_err().detail(),
            "constructor reservation is below a configured maximum"
        );
    }
}

#[test]
fn an_engine_names_the_first_component_that_it_lacks() {
    let auction = limits().auction();
    let book = || CallAuctionBook::try_with_limits(definition(), auction.book(), 1);
    let reports = || OrderedMap::<CommandId, usize>::try_with_capacity(16);
    let exhausted = CallAuctionConstructionError::CapacityReservationFailed(
        CallAuctionCapacity::AcceptedOrderIds,
    );
    assert_eq!(
        CallAuctionEngine::from_components(auction, 1, Err(exhausted), None, None).unwrap_err(),
        CallAuctionEngineConstructionError::Book(exhausted)
    );
    assert_eq!(
        CallAuctionEngine::from_components(auction, 1, book(), None, Some(Vec::new()))
            .unwrap_err(),
        CallAuctionEngineConstructionError::CommandHistoryReservationFailed
    );
    assert_eq!(
        CallAuctionEngine::from_components(auction, 1, book(), reports(), None).unwrap_err(),
        CallAuctionEngineConstructionError::CommandHistoryReservationFailed
    );
    assert_eq!(
        CallAuctionEngine::from_components(auction, u64::MAX, book(), reports(), Some(Vec::new()))
            .unwrap_err(),
        CallAuctionEngineConstructionError::EngineInstanceIdExhausted
    );
    CallAuctionEngine::from_components(auction, 1, book(), reports(), Some(Vec::new()))
        .unwrap()
        .validate()
        .unwrap();
}

#[test]
fn a_ledger_names_the_first_index_that_it_lacks() {
    let label = |accounts: bool, reservations: bool, scratch: bool| {
        CallAuctionRiskEngine::from_storage(
            definition(),
            limits(),
            if accounts {
                OrderedMap::try_with_capacity(2)
            } else {
                None
            },
            if reservations {
                OrderedMap::try_with_capacity(4)
            } else {
                None
            },
            if scratch {
                OrderedMap::<AccountId, _>::try_with_capacity(2)
            } else {
                None
            },
        )
        .map(|_| ())
    };
    assert_eq!(
        label(false, false, false),
        Err(CallAuctionRiskConstructionError::AccountReservationFailed)
    );
    assert_eq!(
        label(true, false, false),
        Err(CallAuctionRiskConstructionError::OrderReservationFailed)
    );
    assert_eq!(
        label(true, true, false),
        Err(CallAuctionRiskConstructionError::PositionScratchReservationFailed)
    );
    assert_eq!(label(true, true, true), Ok(()));
}

#[test]
fn a_managed_engine_names_the_first_part_that_it_lacks() {
    let ledger = || CallAuctionRiskEngine::try_with_limits(definition(), limits());
    let failed = CallAuctionEngineConstructionError::EngineInstanceIdExhausted;
    assert_eq!(
        CallAuctionRiskManagedEngine::from_components(
            definition(),
            limits(),
            Err(CallAuctionRiskConstructionError::OrderReservationFailed),
            Err(failed),
        )
        .unwrap_err(),
        CallAuctionRiskConstructionError::OrderReservationFailed
    );
    assert_eq!(
        CallAuctionRiskManagedEngine::from_components(
            definition(),
            limits(),
            ledger(),
            Err(failed)
        )
        .unwrap_err(),
        CallAuctionRiskConstructionError::Auction(failed)
    );
    CallAuctionRiskManagedEngine::from_components(
        definition(),
        limits(),
        ledger(),
        Ok(engine()),
    )
    .unwrap()
    .validate()
    .unwrap();
}

fn replica_storage() -> CallAuctionReplicaStorage {
    CallAuctionReplicaStorage {
        bids: OrderedMap::try_with_capacity(3),
        asks: OrderedMap::try_with_capacity(3),
        standby_bids: OrderedMap::try_with_capacity(3),
        standby_asks: OrderedMap::try_with_capacity(3),
        batch_levels: OrderedMap::try_with_capacity(9),
    }
}

#[test]
fn a_replica_names_the_first_index_that_it_lacks() {
    let label = |spoil: fn(&mut CallAuctionReplicaStorage)| {
        let mut storage = replica_storage();
        spoil(&mut storage);
        CallAuctionMarketDataReplica::from_storage(definition(), market_data_limits(), storage)
            .unwrap_err()
    };
    let cases: [(
        fn(&mut CallAuctionReplicaStorage),
        CallAuctionMarketDataResource,
        usize,
    ); 5] = [
        (
            |storage| {
                storage.bids = None;
                storage.asks = None;
            },
            CallAuctionMarketDataResource::BidPriceLevels,
            3,
        ),
        (
            |storage| storage.asks = None,
            CallAuctionMarketDataResource::AskPriceLevels,
            3,
        ),
        (
            |storage| storage.standby_bids = None,
            CallAuctionMarketDataResource::BidPriceLevels,
            3,
        ),
        (
            |storage| storage.standby_asks = None,
            CallAuctionMarketDataResource::AskPriceLevels,
            3,
        ),
        (
            |storage| storage.batch_levels = None,
            CallAuctionMarketDataResource::BatchLevelIdentities,
            9,
        ),
    ];
    for (spoil, resource, maximum) in cases {
        assert_eq!(
            label(spoil),
            CallAuctionMarketDataConstructionError::ReservationFailed { resource, maximum }
        );
    }
}

#[test]
fn a_publisher_names_the_first_index_that_it_lacks() {
    let storage = || CallAuctionPublisherStorage {
        bids: OrderedMap::try_with_capacity(3),
        asks: OrderedMap::try_with_capacity(3),
        orders: OrderedMap::try_with_capacity(4),
        uncross_sources: OrderedMap::try_with_capacity(4),
    };
    let engine = engine();
    let label = |spoil: fn(&mut CallAuctionPublisherStorage)| {
        let mut storage = storage();
        spoil(&mut storage);
        CallAuctionMarketDataPublisher::from_storage(&engine, market_data_limits(), storage)
            .unwrap_err()
    };
    let cases: [(
        fn(&mut CallAuctionPublisherStorage),
        CallAuctionMarketDataResource,
        usize,
    ); 4] = [
        (
            |storage| storage.bids = None,
            CallAuctionMarketDataResource::BidPriceLevels,
            3,
        ),
        (
            |storage| storage.asks = None,
            CallAuctionMarketDataResource::AskPriceLevels,
            3,
        ),
        (
            |storage| storage.orders = None,
            CallAuctionMarketDataResource::TrackedOrders,
            4,
        ),
        (
            |storage| storage.uncross_sources = None,
            CallAuctionMarketDataResource::UncrossSourceOrders,
            4,
        ),
    ];
    for (spoil, resource, maximum) in cases {
        assert_eq!(
            label(spoil),
            CallAuctionMarketDataConstructionError::ReservationFailed { resource, maximum }
        );
    }
    CallAuctionMarketDataPublisher::from_storage(&engine, market_data_limits(), storage())
        .unwrap()
        .validate_against(&engine)
        .unwrap();
}
