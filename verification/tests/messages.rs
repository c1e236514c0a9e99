use call_auction::allocation::AuctionAllocationError;
use call_auction::auction::AuctionError;
use call_auction::book_types::{
    CallAuctionAdmissionError, CallAuctionCapacity, CallAuctionPlanError, CallAuctionPrepareError,
};
use call_auction::domain::{AccountId, AuctionId, OrderId, Quantity, Side};
use call_auction::engine_types::{CallAuctionEngineError, CallAuctionQueryError};
use call_auction::instrument::AdmissionError;
use call_auction::market_data_types::{CallAuctionMarketDataError, CallAuctionMarketDataResource};
use call_auction::risk_checkpoint::{
    CallAuctionRiskCheckpointError, CallAuctionRiskCheckpointResource,
};

#[test]
fn numbers_print_in_decimal() {
    for value in [0u64, 9, 10, 907, u64::MAX] {
        assert_eq!(
            AuctionError::InvalidTickSize(value).message(),
            format!("invalid auction tick size {value}")
        );
    }
    assert_eq!(
        AuctionAllocationError::ClearingQuantityMismatch {
            expected_buy: u128::MAX,
            observed_buy: 1,
            expected_sell: 20,
            observed_sell: 0,
        }
        .message(),
        format!(
            "auction clearing quantities buy={}/1 sell=20/0 do not reconcile",
            u128::MAX
        )
    );
}

#[test]
fn nested_failures_print_outside_in() {
    assert_eq!(
        CallAuctionEngineError::UncrossPreparation(CallAuctionPrepareError::Plan(
            CallAuctionPlanError::StaleRevision {
                observed: 4,
                current: 12
            }
        ))
        .message(),
        "call-auction uncross preparation: call-auction uncross plan: stale call-auction \
         indicative revision 4; current revision is 12"
    );
    assert_eq!(
        CallAuctionAdmissionError::Instrument(AdmissionError::PriceOffTick).message(),
        "call-auction instrument admission: PriceOffTick"
    );
    assert_eq!(
        CallAuctionAdmissionError::CapacityExceeded(CallAuctionCapacity::BidPriceLevels).message(),
        "call-auction bid price levels capacity exceeded"
    );
    assert_eq!(
        CallAuctionAdmissionError::AggregateQuantityOverflow(Side::Sell).message(),
        "call-auction Sell aggregate quantity overflow"
    );
    assert_eq!(
        CallAuctionPrepareError::SelfTradeWouldOccur {
            account_id: AccountId::new(3).unwrap(),
            buy_order_id: OrderId::new(10).unwrap(),
            sell_order_id: OrderId::new(20).unwrap(),
            quantity: Quantity::new(5).unwrap(),
        }
        .message(),
        "call-auction canonical pair buy 10 and sell 20 would self-trade account 3 for 5 lots"
    );
}

#[test]
fn query_market_data_and_checkpoint_failures_print() {
    assert_eq!(
        CallAuctionQueryError::AuctionIdMismatch {
            observed: AuctionId::new(2).unwrap(),
            current: None,
        }
        .message(),
        "call-auction query cycle 2 differs from active None"
    );
    assert_eq!(
        CallAuctionMarketDataError::CapacityExceeded {
            resource: CallAuctionMarketDataResource::BatchUpdates,
            maximum: 9,
            attempted: 10,
        }
        .message(),
        "call-auction market-data batch updates capacity 9 cannot hold 10 entries"
    );
    assert_eq!(
        CallAuctionMarketDataError::InvalidUpdate("broken").message(),
        "broken"
    );
    assert_eq!(
        CallAuctionRiskCheckpointError::ResourceReservationFailed {
            resource: CallAuctionRiskCheckpointResource::CaptureAccounts,
            maximum: 7,
        }
        .message(),
        "failed to reserve auction risk checkpoint capture accounts through 7 entries"
    );
}
