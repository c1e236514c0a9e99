use call_auction::auction::AuctionOrderConstraint;
use call_auction::domain::{
    InstrumentId, InstrumentVersion, Price, Quantity, Side, TimestampNs,
};
use call_auction::instrument::{InstrumentDefinition, PriceRules, QuantityRules};
use call_auction::market_data_replica::{
    preflight_complete_batch_grammar, CallAuctionMarketDataReplica,
};
use call_auction::market_data_types::{
    CallAuctionBookChangeReason, CallAuctionMarketDataBatch, CallAuctionMarketDataError,
    CallAuctionMarketDataKind, CallAuctionMarketDataLevel, CallAuctionMarketDataLimitsSpec,
    CallAuctionMarketDataUpdate,
};

fn definition() -> InstrumentDefinition {
    InstrumentDefinition::new(
        InstrumentId::new(1).unwrap(),
        InstrumentVersion::new(1).unwrap(),
        PriceRules::new(0, 1, Price::from_raw(0), Price::from_raw(1_000)).unwrap(),
        QuantityRules::new(1, 1, 1_000).unwrap(),
    )
}

#[test]
fn invariant_validation_rejects_lost_arena_and_scratch_reservations() {
    let spec = CallAuctionMarketDataLimitsSpec {
        max_active_orders: 1,
        max_price_levels_per_side: 1,
        max_batch_updates: 3,
    };
    let mut lost_arena =
        CallAuctionMarketDataReplica::try_with_limits(definition(), spec).unwrap();
    lost_arena.bids.shrink_to_fit();
    assert!(matches!(
        lost_arena.validate(),
        Err(CallAuctionMarketDataError::SourceDivergence(
            "auction replica price arena contradicts its configured limit"
        ))
    ));

    let mut lost_scratch =
        CallAuctionMarketDataReplica::try_with_limits(definition(), spec).unwrap();
    lost_scratch.batch_levels.shrink_to_fit();
    assert!(matches!(
        lost_scratch.validate(),
        Err(CallAuctionMarketDataError::SourceDivergence(
            "auction replica batch scratch contradicts its fixed empty layout"
        ))
    ));
}

#[test]
fn final_representable_event_sequence_applies_without_requiring_a_successor() {
    let definition = definition();
    let mut replica = CallAuctionMarketDataReplica::try_with_limits(
        definition,
        CallAuctionMarketDataLimitsSpec {
            max_active_orders: 1,
            max_price_levels_per_side: 1,
            max_batch_updates: 3,
        },
    )
    .unwrap();
    replica.last_event_sequence = u64::MAX - 1;
    let batch = CallAuctionMarketDataBatch {
        updates: vec![CallAuctionMarketDataUpdate {
            instrument_id: definition.instrument_id(),
            instrument_version: definition.version(),
            sequence: u64::MAX,
            occurred_at: TimestampNs::from_unix_nanos(u64::MAX),
            kind: CallAuctionMarketDataKind::NoPublicChange,
        }],
        replayed: false,
    };

    replica.apply_batch(&batch).unwrap();
    assert_eq!(replica.last_sequence(), u64::MAX);
    assert_eq!(replica.last_command_sequence(), 1);
    replica.validate().unwrap();
}

#[test]
fn mass_cancel_batch_preflight_rejects_incomplete_or_inconsistent_aggregates() {
    let definition = definition();
    let removal = CallAuctionMarketDataUpdate {
        instrument_id: definition.instrument_id(),
        instrument_version: definition.version(),
        sequence: 1,
        occurred_at: TimestampNs::from_unix_nanos(7),
        kind: CallAuctionMarketDataKind::Book {
            reason: CallAuctionBookChangeReason::MassCancelled,
            quantity: Quantity::new(2).unwrap(),
            level: CallAuctionMarketDataLevel {
                side: Side::Buy,
                constraint: AuctionOrderConstraint::Market,
                quantity: 0,
                order_count: 0,
            },
        },
    };
    let completion = CallAuctionMarketDataUpdate {
        instrument_id: definition.instrument_id(),
        instrument_version: definition.version(),
        sequence: 2,
        occurred_at: TimestampNs::from_unix_nanos(7),
        kind: CallAuctionMarketDataKind::MassCancelCompleted {
            cancelled_order_count: 1,
            cancelled_quantity_lots: 2,
            book_revision: 1,
        },
    };

    preflight_complete_batch_grammar(&[removal, completion]).unwrap();
    assert!(matches!(
        preflight_complete_batch_grammar(&[removal]),
        Err(CallAuctionMarketDataError::InvalidUpdate(
            "auction mass-cancel removals lack a final completion"
        ))
    ));

    let mut wrong_count = completion;
    wrong_count.kind = CallAuctionMarketDataKind::MassCancelCompleted {
        cancelled_order_count: 2,
        cancelled_quantity_lots: 2,
        book_revision: 1,
    };
    assert!(matches!(
        preflight_complete_batch_grammar(&[removal, wrong_count]),
        Err(CallAuctionMarketDataError::InvalidUpdate(
            "auction mass cancel must contain only reconciled removals followed by one completion"
        ))
    ));

    let mut wrong_time = completion;
    wrong_time.occurred_at = TimestampNs::from_unix_nanos(8);
    assert!(matches!(
        preflight_complete_batch_grammar(&[removal, wrong_time]),
        Err(CallAuctionMarketDataError::InvalidUpdate(
            "auction mass cancel must contain only reconciled removals followed by one completion"
        ))
    ));
}
