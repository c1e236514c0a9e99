use std::sync::Arc;

use call_auction::allocation::AuctionAllocationPolicy;
use call_auction::auction::{AuctionOrderConstraint, AuctionPricePolicy, AuctionPriorityClass};
use call_auction::auction_engine::CallAuctionEngine;
use call_auction::book_types::{
    CallAuctionBookLimits, CallAuctionBookLimitsSpec, CallAuctionOrder,
    CallAuctionRemainderPolicy, CallAuctionSelfTradePolicy, CallAuctionUncrossPolicy,
};
use call_auction::domain::{
    AccountId, AuctionId, CommandId, InstrumentId, InstrumentVersion, MassCancelScope, OrderId,
    Price, Quantity, Side, TimestampNs, TradeId,
};
use call_auction::engine_types::{
    CallAuctionCommand, CallAuctionEngineLimits, CallAuctionEngineLimitsSpec,
    CallAuctionEventKind,
    CallAuctionMassCancel, CallAuctionPhase, CallAuctionPhaseControl, CallAuctionPhaseSnapshot,
    CallAuctionReplaceOrder, CallAuctionSubmitOrder, CallAuctionUncrossCommand,
};
use call_auction::instrument::{InstrumentDefinition, PriceRules, QuantityRules};
use call_auction::market_data_publisher::CallAuctionMarketDataPublisher;
use call_auction::market_data_replay::{
    CallAuctionMarketDataReplayBuffer, CallAuctionMarketDataReplayConstructionError,
    CallAuctionMarketDataReplayError,
};
use call_auction::market_data_replica::CallAuctionMarketDataReplica;
use call_auction::market_data_types::{
    CallAuctionBookChangeReason, CallAuctionMarketDataBatch,
    CallAuctionMarketDataConstructionError, CallAuctionMarketDataError,
    CallAuctionMarketDataHashIndex, CallAuctionMarketDataKind, CallAuctionMarketDataLevel,
    CallAuctionMarketDataLimits, CallAuctionMarketDataLimitsError,
    CallAuctionMarketDataLimitsSpec, CallAuctionMarketDataResource, CallAuctionMarketDataSnapshot,
    CallAuctionMarketDataUpdate,
};

fn definition() -> InstrumentDefinition {
    InstrumentDefinition::new(
        InstrumentId::new(7).unwrap(),
        InstrumentVersion::new(3).unwrap(),
        PriceRules::new(0, 5, Price::from_raw(0), Price::from_raw(200)).unwrap(),
        QuantityRules::new(1, 1, 1_000).unwrap(),
    )
}

fn spec() -> CallAuctionMarketDataLimitsSpec {
    CallAuctionMarketDataLimitsSpec {
        max_active_orders: 4,
        max_price_levels_per_side: 4,
        max_batch_updates: 9,
    }
}

fn engine() -> CallAuctionEngine {
    let book = CallAuctionBookLimits::new(CallAuctionBookLimitsSpec {
        max_active_orders: 4,
        max_price_levels_per_side: 4,
        max_accepted_order_ids: 16,
        max_prepared_uncrosses: 1,
    })
    .unwrap();
    let limits = CallAuctionEngineLimits::new(CallAuctionEngineLimitsSpec {
        book,
        max_retained_commands: 32,
        terminal_command_reserve: 6,
        max_report_events: 9,
    })
    .unwrap();
    CallAuctionEngine::try_with_limits(definition(), limits, 1).unwrap()
}

fn replica() -> CallAuctionMarketDataReplica {
    CallAuctionMarketDataReplica::try_with_limits(definition(), spec()).unwrap()
}

fn phase(command: u64, revision: u64, target: CallAuctionPhase) -> CallAuctionCommand {
    CallAuctionCommand::PhaseControl(CallAuctionPhaseControl {
        command_id: CommandId::new(command).unwrap(),
        instrument_id: InstrumentId::new(7).unwrap(),
        instrument_version: InstrumentVersion::new(3).unwrap(),
        auction_id: AuctionId::new(1).unwrap(),
        expected_phase_revision: revision,
        target_phase: target,
        received_at: TimestampNs::from_unix_nanos(command),
    })
}

fn order(value: u64, owner: u64, side: Side, limit: Option<i64>, lots: u64) -> CallAuctionOrder {
    CallAuctionOrder::new(
        OrderId::new(value).unwrap(),
        AccountId::new(owner).unwrap(),
        InstrumentId::new(7).unwrap(),
        InstrumentVersion::new(3).unwrap(),
        side,
        match limit {
            Some(raw) => AuctionOrderConstraint::Limit(Price::from_raw(raw)),
            None => AuctionOrderConstraint::Market,
        },
        Quantity::new(lots).unwrap(),
        AuctionPriorityClass::highest(),
    )
}

fn submit(command: u64, order: CallAuctionOrder) -> CallAuctionCommand {
    CallAuctionCommand::Submit(CallAuctionSubmitOrder {
        command_id: CommandId::new(command).unwrap(),
        auction_id: AuctionId::new(1).unwrap(),
        expected_phase_revision: 1,
        order,
        received_at: TimestampNs::from_unix_nanos(command),
    })
}

fn commands(engine: &CallAuctionEngine) -> Vec<CallAuctionCommand> {
    vec![
        phase(1, 0, CallAuctionPhase::Collecting),
        submit(2, order(10, 1, Side::Buy, Some(100), 5)),
        submit(3, order(20, 2, Side::Sell, Some(90), 3)),
        submit(4, order(30, 3, Side::Buy, None, 2)),
        submit(5, order(10, 3, Side::Buy, None, 2)),
        CallAuctionCommand::Replace(CallAuctionReplaceOrder {
            command_id: CommandId::new(6).unwrap(),
            auction_id: AuctionId::new(1).unwrap(),
            expected_phase_revision: 1,
            account_id: AccountId::new(1).unwrap(),
            target_order_id: OrderId::new(10).unwrap(),
            replacement: order(11, 1, Side::Buy, Some(95), 4),
            received_at: TimestampNs::from_unix_nanos(6),
        }),
        CallAuctionCommand::MassCancel(CallAuctionMassCancel {
            command_id: CommandId::new(7).unwrap(),
            instrument_id: InstrumentId::new(7).unwrap(),
            instrument_version: InstrumentVersion::new(3).unwrap(),
            account_id: AccountId::new(3).unwrap(),
            scope: MassCancelScope::All,
            received_at: TimestampNs::from_unix_nanos(7),
        }),
        phase(8, 1, CallAuctionPhase::Frozen),
        CallAuctionCommand::Uncross(CallAuctionUncrossCommand {
            command_id: CommandId::new(9).unwrap(),
            instrument_id: InstrumentId::new(7).unwrap(),
            instrument_version: InstrumentVersion::new(3).unwrap(),
            auction_id: AuctionId::new(1).unwrap(),
            expected_phase_revision: 2,
            price_band: engine.book().instrument_price_band(),
            reference_price: Price::from_raw(95),
            price_policy: AuctionPricePolicy::reference_then_lower(),
            uncross_policy: CallAuctionUncrossPolicy::new(
                AuctionAllocationPolicy::PriceTime,
                CallAuctionRemainderPolicy::CancelAll,
                CallAuctionSelfTradePolicy::Permit,
            ),
            received_at: TimestampNs::from_unix_nanos(9),
        }),
    ]
}

fn batches() -> Vec<CallAuctionMarketDataBatch> {
    let mut engine = engine();
    let mut publisher = CallAuctionMarketDataPublisher::from_engine(&engine).unwrap();
    commands(&engine)
        .into_iter()
        .map(|command| {
            let report = engine.submit(command).unwrap();
            publisher.publish(command, &report, &engine).unwrap()
        })
        .collect()
}

fn update(sequence: u64, kind: CallAuctionMarketDataKind) -> CallAuctionMarketDataUpdate {
    CallAuctionMarketDataUpdate::from_parts(
        InstrumentId::new(7).unwrap(),
        InstrumentVersion::new(3).unwrap(),
        sequence,
        TimestampNs::from_unix_nanos(1),
        kind,
    )
    .unwrap()
}

#[test]
fn market_data_limits_name_the_first_fault() {
    assert_eq!(
        CallAuctionMarketDataLimits::new(CallAuctionMarketDataLimitsSpec {
            max_active_orders: 0,
            ..spec()
        })
        .unwrap_err(),
        CallAuctionMarketDataLimitsError::ZeroActiveOrders
    );
    assert_eq!(
        CallAuctionMarketDataLimits::new(CallAuctionMarketDataLimitsSpec {
            max_price_levels_per_side: 5,
            ..spec()
        })
        .unwrap_err(),
        CallAuctionMarketDataLimitsError::PriceLevelsExceedActiveOrders
    );
    assert_eq!(
        CallAuctionMarketDataLimits::new(CallAuctionMarketDataLimitsSpec {
            max_batch_updates: 8,
            ..spec()
        })
        .unwrap_err(),
        CallAuctionMarketDataLimitsError::BatchUpdatesBelowUncrossMaximum
    );
    let small = CallAuctionMarketDataLimitsSpec {
        max_active_orders: 3,
        max_price_levels_per_side: 3,
        max_batch_updates: 9,
    };
    assert!(matches!(
        CallAuctionMarketDataPublisher::try_from_engine_with_limits(&engine(), small),
        Err(CallAuctionMarketDataConstructionError::LimitsBelowSource {
            resource: CallAuctionMarketDataResource::TrackedOrders,
            selected: 3,
            required: 4,
        })
    ));
}

#[test]
fn a_replica_follows_every_published_command() {
    let mut engine = engine();
    let mut publisher = CallAuctionMarketDataPublisher::from_engine(&engine).unwrap();
    let mut replica = replica();
    for command in commands(&engine) {
        let report = engine.submit(command).unwrap();
        let batch = publisher.publish(command, &report, &engine).unwrap();
        assert_eq!(batch.updates().len(), report.events.len());
        replica.apply_batch(&batch).unwrap();
        replica.validate().unwrap();
        publisher.validate_against(&engine).unwrap();
        assert_eq!(replica.last_sequence(), publisher.last_sequence());
        assert_eq!(replica.last_command_sequence(), publisher.last_command_sequence());
        assert_eq!(replica.book_revision(), engine.book().state_revision());
        assert_eq!(replica.phase(), engine.phase_snapshot());
        for side in [Side::Buy, Side::Sell] {
            assert_eq!(replica.limit_depth(side, 8), engine.book().limit_depth(side, 8));
            assert_eq!(replica.market_quantity(side), engine.book().market_quantity(side));
            assert_eq!(replica.market_order_count(side), engine.book().market_order_count(side));
        }
    }
    assert_eq!(replica.last_trade_id, Some(TradeId::new(1).unwrap()));
    assert!(!replica.is_poisoned());
}

#[test]
fn a_retry_publishes_an_empty_replay_batch() {
    let mut engine = engine();
    let mut publisher = CallAuctionMarketDataPublisher::from_engine(&engine).unwrap();
    let open = phase(1, 0, CallAuctionPhase::Collecting);
    let report = engine.submit(open).unwrap();
    publisher.publish(open, &report, &engine).unwrap();
    let again = engine.submit(open).unwrap();
    let batch = publisher.publish(open, &again, &engine).unwrap();
    assert!(batch.replayed());
    assert!(batch.updates().is_empty());
    let mut replica = replica();
    replica.apply_batch(&batch).unwrap();
    assert_eq!(replica.last_sequence(), 0);
}

#[test]
fn a_missed_report_poisons_the_publisher() {
    let mut engine = engine();
    let mut publisher = CallAuctionMarketDataPublisher::from_engine(&engine).unwrap();
    engine.submit(phase(1, 0, CallAuctionPhase::Collecting)).unwrap();
    let command = submit(2, order(10, 1, Side::Buy, Some(100), 5));
    let report = engine.submit(command).unwrap();
    assert_eq!(
        publisher.publish(command, &report, &engine).unwrap_err(),
        CallAuctionMarketDataError::CommandSequenceGap {
            expected: 1,
            actual: 2
        }
    );
    assert!(publisher.is_poisoned());
    assert_eq!(
        publisher.publish(command, &report, &engine).unwrap_err(),
        CallAuctionMarketDataError::Poisoned
    );
}

#[test]
fn a_forged_trace_poisons_the_publisher() {
    let mut engine = engine();
    let mut publisher = CallAuctionMarketDataPublisher::from_engine(&engine).unwrap();
    let open = phase(1, 0, CallAuctionPhase::Collecting);
    let report = engine.submit(open).unwrap();
    let other = phase(1, 0, CallAuctionPhase::Frozen);
    assert_eq!(
        publisher.publish(other, &report, &engine).unwrap_err(),
        CallAuctionMarketDataError::TraceMismatch(
            "phase update contradicts the command or publisher state"
        )
    );
    assert!(publisher.is_poisoned());
}

#[test]
fn a_refused_trace_names_its_first_refused_event() {
    let refusal = |index: usize, forge: fn(&mut CallAuctionEventKind)| {
        let mut engine = engine();
        let mut publisher = CallAuctionMarketDataPublisher::from_engine(&engine).unwrap();
        let all = commands(&engine);
        for command in &all[..index] {
            let report = engine.submit(*command).unwrap();
            publisher.publish(*command, &report, &engine).unwrap();
        }
        let mut report = engine.submit(all[index]).unwrap();
        forge(&mut Arc::make_mut(&mut report.events.events)[0].kind);
        publisher.publish(all[index], &report, &engine).unwrap_err()
    };
    assert_eq!(
        refusal(1, |kind| {
            if let CallAuctionEventKind::OrderAccepted(order) = kind {
                order.priority_sequence = 0;
            }
        }),
        CallAuctionMarketDataError::TraceMismatch(
            "accepted order contradicts its command or collection state"
        )
    );
    assert_eq!(
        refusal(5, |kind| {
            if let CallAuctionEventKind::OrderCancelled { order, .. } = kind {
                order.order_id = OrderId::new(99).unwrap();
            }
        }),
        CallAuctionMarketDataError::TraceMismatch("replaced auction order is absent")
    );
    assert_eq!(
        refusal(6, |kind| {
            if let CallAuctionEventKind::OrderCancelled { order, .. } = kind {
                order.quantity = Quantity::new(1).unwrap();
            }
        }),
        CallAuctionMarketDataError::TraceMismatch(
            "mass-cancelled order contradicts its command, canonical order, or tracked state"
        )
    );
    assert_eq!(
        refusal(8, |kind| {
            if let CallAuctionEventKind::Trade(trade) = kind {
                trade.trade_id = TradeId::new(2).unwrap();
            }
        }),
        CallAuctionMarketDataError::TraceMismatch("auction trade identifier is not contiguous")
    );
    assert_eq!(
        refusal(8, |kind| {
            if let CallAuctionEventKind::Trade(trade) = kind {
                trade.quantity = Quantity::new(100).unwrap();
            }
        }),
        CallAuctionMarketDataError::TraceMismatch(
            "auction execution quantity exceeds tracked leaves"
        )
    );
}

#[test]
fn a_full_publisher_names_the_level_that_it_cannot_open() {
    let mut engine = engine();
    let mut publisher = CallAuctionMarketDataPublisher::from_engine(&engine).unwrap();
    publisher.limits.max_price_levels_per_side = 1;
    for command in &commands(&engine)[..2] {
        let report = engine.submit(*command).unwrap();
        let _ = publisher.publish(*command, &report, &engine);
        publisher.poisoned = false;
    }
    let command = submit(4, order(30, 3, Side::Buy, Some(105), 2));
    let report = engine.submit(command).unwrap();
    assert_eq!(
        publisher.publish(command, &report, &engine).unwrap_err(),
        CallAuctionMarketDataError::CapacityExceeded {
            resource: CallAuctionMarketDataResource::BidPriceLevels,
            maximum: 1,
            attempted: 2,
        }
    );
}

#[test]
fn a_divergent_publisher_names_the_first_difference() {
    let mut engine = engine();
    let mut publisher = CallAuctionMarketDataPublisher::from_engine(&engine).unwrap();
    for command in &commands(&engine)[..3] {
        let report = engine.submit(*command).unwrap();
        publisher.publish(*command, &report, &engine).unwrap();
    }
    publisher.validate_against(&engine).unwrap();
    publisher.book_revision += 1;
    assert_eq!(
        publisher.validate_against(&engine).unwrap_err(),
        CallAuctionMarketDataError::SourceDivergence(
            "publisher sequence, phase, book revision, or trade state differs from the engine"
        )
    );
    publisher.book_revision -= 1;
    publisher.market_buy.order_count += 1;
    assert_eq!(
        publisher.validate_against(&engine).unwrap_err(),
        CallAuctionMarketDataError::SourceDivergence(
            "publisher aggregate state differs from the auction book"
        )
    );
    publisher.market_buy.order_count -= 1;
    publisher.limits.max_active_orders += 1;
    let command = submit(4, order(30, 3, Side::Buy, None, 2));
    let report = engine.submit(command).unwrap();
    assert_eq!(
        publisher.publish(command, &report, &engine).unwrap_err(),
        CallAuctionMarketDataError::SourceDivergence(
            "auction publisher fixed storage contradicts its configured limits"
        )
    );
    assert!(publisher.is_poisoned());
}

#[test]
fn a_snapshot_restores_a_late_replica() {
    let mut engine = engine();
    let mut publisher = CallAuctionMarketDataPublisher::from_engine(&engine).unwrap();
    let all = commands(&engine);
    for command in &all[..4] {
        let report = engine.submit(*command).unwrap();
        publisher.publish(*command, &report, &engine).unwrap();
    }
    let snapshot = publisher.try_snapshot().unwrap();
    assert_eq!(snapshot, publisher.snapshot());
    let mut replica = replica();
    replica.apply_snapshot(&snapshot).unwrap();
    replica.validate().unwrap();
    assert_eq!(replica.limit_depth(Side::Buy, 4), engine.book().limit_depth(Side::Buy, 4));
    assert_eq!(replica.market_quantity(Side::Buy), 2);
    let report = engine.submit(all[4]).unwrap();
    let batch = publisher.publish(all[4], &report, &engine).unwrap();
    replica.apply_batch(&batch).unwrap();
    assert_eq!(replica.last_sequence(), publisher.last_sequence());
    assert_eq!(
        replica.apply_snapshot(&snapshot).unwrap_err(),
        CallAuctionMarketDataError::StaleSnapshot {
            current: 5,
            snapshot: 4
        }
    );
}

#[test]
fn snapshots_must_belong_and_be_consistent() {
    let mut engine = engine();
    let mut publisher = CallAuctionMarketDataPublisher::from_engine(&engine).unwrap();
    for command in &commands(&engine)[..3] {
        let report = engine.submit(*command).unwrap();
        publisher.publish(*command, &report, &engine).unwrap();
    }
    let good = publisher.snapshot();
    let mut replica = replica();
    let mut foreign = good.clone();
    foreign.instrument_id = InstrumentId::new(8).unwrap();
    assert_eq!(
        replica.apply_snapshot(&foreign).unwrap_err(),
        CallAuctionMarketDataError::WrongInstrument
    );
    let mut version = good.clone();
    version.instrument_version = InstrumentVersion::new(4).unwrap();
    assert_eq!(
        replica.apply_snapshot(&version).unwrap_err(),
        CallAuctionMarketDataError::WrongInstrumentVersion
    );
    let mut off_grid = good.clone();
    off_grid.bids[0].constraint = AuctionOrderConstraint::Limit(Price::from_raw(101));
    assert_eq!(
        replica.apply_snapshot(&off_grid).unwrap_err(),
        CallAuctionMarketDataError::InvalidSnapshot(
            "auction snapshot limit is off grid or outside the collar"
        )
    );
    assert!(matches!(
        CallAuctionMarketDataSnapshot::from_parts(
            InstrumentId::new(7).unwrap(),
            InstrumentVersion::new(3).unwrap(),
            1,
            2,
            CallAuctionPhaseSnapshot::default(),
            0,
            None,
            good.market_buy(),
            good.market_sell(),
            Vec::new(),
            Vec::new(),
        ),
        Err(CallAuctionMarketDataError::InvalidSnapshot(_))
    ));
    let mut narrow = CallAuctionMarketDataReplica::try_with_limits(
        definition(),
        CallAuctionMarketDataLimitsSpec {
            max_active_orders: 1,
            max_price_levels_per_side: 1,
            max_batch_updates: 3,
        },
    )
    .unwrap();
    let mut wide = good.clone();
    wide.bids.push(
        CallAuctionMarketDataLevel::from_parts(
            Side::Buy,
            AuctionOrderConstraint::Limit(Price::from_raw(50)),
            1,
            1,
        )
        .unwrap(),
    );
    assert_eq!(
        narrow.apply_snapshot(&wide).unwrap_err(),
        CallAuctionMarketDataError::CapacityExceeded {
            resource: CallAuctionMarketDataResource::BidPriceLevels,
            maximum: 1,
            attempted: 2,
        }
    );
}

#[test]
fn gaps_are_refused_without_change() {
    let all = batches();
    let mut replica = replica();
    assert_eq!(
        replica.apply_batch(&all[1]).unwrap_err(),
        CallAuctionMarketDataError::SequenceGap {
            expected: 1,
            actual: 2
        }
    );
    assert!(!replica.is_poisoned());
    replica.apply_batch(&all[0]).unwrap();
    let mut foreign = all[1].clone();
    foreign.updates[0].instrument_version = InstrumentVersion::new(9).unwrap();
    assert_eq!(
        replica.apply_batch(&foreign).unwrap_err(),
        CallAuctionMarketDataError::WrongInstrumentVersion
    );
    let mut early = all[1].clone();
    early.updates = Vec::new();
    assert!(matches!(
        replica.apply_batch(&early),
        Err(CallAuctionMarketDataError::InvalidUpdate(_))
    ));
    replica.apply_batch(&all[1]).unwrap();
}

#[test]
fn a_contradicting_update_poisons_until_a_snapshot() {
    let all = batches();
    let mut replica = replica();
    replica.apply_batch(&all[0]).unwrap();
    let mut wrong = all[1].clone();
    if let CallAuctionMarketDataKind::Book { level, .. } = &mut wrong.updates[0].kind {
        level.quantity += 1;
    }
    assert!(matches!(
        replica.apply_batch(&wrong),
        Err(CallAuctionMarketDataError::InvalidUpdate(_))
    ));
    assert!(replica.is_poisoned());
    assert_eq!(
        replica.apply_batch(&all[1]).unwrap_err(),
        CallAuctionMarketDataError::Poisoned
    );
    let publisher = CallAuctionMarketDataPublisher::from_engine(&engine()).unwrap();
    assert!(matches!(
        replica.apply_snapshot(&publisher.snapshot()),
        Err(CallAuctionMarketDataError::StaleSnapshot { .. })
    ));
}

#[test]
fn single_updates_cannot_be_parts_of_a_replacement_or_mass_cancel() {
    let mut replica = replica();
    replica
        .apply(update(
            1,
            CallAuctionMarketDataKind::PhaseChanged {
                auction_id: AuctionId::new(1).unwrap(),
                previous: CallAuctionPhase::Closed,
                current: CallAuctionPhase::Collecting,
                revision: 1,
            },
        ))
        .unwrap();
    let level = |quantity: u128, order_count: u64| CallAuctionMarketDataLevel {
        side: Side::Buy,
        constraint: AuctionOrderConstraint::Limit(Price::from_raw(100)),
        quantity,
        order_count,
    };
    replica
        .apply(update(
            2,
            CallAuctionMarketDataKind::Book {
                reason: CallAuctionBookChangeReason::Accepted,
                quantity: Quantity::new(4).unwrap(),
                level: level(4, 1),
            },
        ))
        .unwrap();
    assert_eq!(replica.last_command_sequence(), 0);
    for reason in [
        CallAuctionBookChangeReason::Replaced,
        CallAuctionBookChangeReason::MassCancelled,
    ] {
        assert!(matches!(
            replica.apply(update(
                3,
                CallAuctionMarketDataKind::Book {
                    reason,
                    quantity: Quantity::new(4).unwrap(),
                    level: level(0, 0),
                },
            )),
            Err(CallAuctionMarketDataError::InvalidUpdate(_))
        ));
    }
    assert!(!replica.is_poisoned());
    replica
        .apply(update(
            3,
            CallAuctionMarketDataKind::Book {
                reason: CallAuctionBookChangeReason::UserCancelled,
                quantity: Quantity::new(4).unwrap(),
                level: level(0, 0),
            },
        ))
        .unwrap();
    assert!(replica.try_limit_depth(Side::Buy, 4).unwrap().is_empty());
}

#[test]
fn updates_are_checked_when_they_are_assembled() {
    assert!(matches!(
        CallAuctionMarketDataLevel::from_parts(
            Side::Buy,
            AuctionOrderConstraint::Market,
            1,
            0
        ),
        Err(CallAuctionMarketDataError::InvalidUpdate(_))
    ));
    assert!(matches!(
        CallAuctionMarketDataUpdate::from_parts(
            InstrumentId::new(7).unwrap(),
            InstrumentVersion::new(3).unwrap(),
            1,
            TimestampNs::from_unix_nanos(1),
            CallAuctionMarketDataKind::MassCancelCompleted {
                cancelled_order_count: 0,
                cancelled_quantity_lots: 3,
                book_revision: 0,
            },
        ),
        Err(CallAuctionMarketDataError::InvalidUpdate(_))
    ));
}

#[test]
fn telemetry_counts_configured_reserved_and_used_slots() {
    let publisher = CallAuctionMarketDataPublisher::from_engine(&engine()).unwrap();
    let status = publisher
        .hash_index_status(CallAuctionMarketDataHashIndex::TrackedOrders)
        .unwrap();
    assert_eq!(
        (status.configured_entries, status.allocated_entries, status.occupied_entries),
        (4, 4, 0)
    );
    assert!(publisher
        .hash_index_status(CallAuctionMarketDataHashIndex::ReplicaBatchLevels)
        .is_none());
    let replica = replica();
    assert_eq!(replica.batch_level_hash_status().configured_entries, 9);
    assert_eq!(replica.standby_price_level_arena_status(Side::Sell).configured_slots, 4);
    assert_eq!(replica.price_level_arena_status(Side::Buy).occupied_slots, 0);
}

#[test]
fn telemetry_counts_slots_that_were_used_and_left() {
    let mut replica = replica();
    let slots = |replica: &CallAuctionMarketDataReplica| {
        let status = replica.price_level_arena_status(Side::Buy);
        (status.initialized_slots, status.occupied_slots, status.reusable_slots)
    };
    let all = batches();
    for batch in &all[..2] {
        replica.apply_batch(batch).unwrap();
    }
    assert_eq!(slots(&replica), (1, 1, 0));
    for batch in &all[2..] {
        replica.apply_batch(batch).unwrap();
    }
    assert_eq!(slots(&replica), (1, 0, 1));
}

#[test]
fn a_replay_window_gives_back_whole_batches() {
    let all = batches();
    assert_eq!(
        CallAuctionMarketDataReplayBuffer::try_new(
            InstrumentId::new(7).unwrap(),
            InstrumentVersion::new(3).unwrap(),
            0,
            0,
        )
        .unwrap_err(),
        CallAuctionMarketDataReplayConstructionError::ZeroCapacity
    );
    assert_eq!(
        CallAuctionMarketDataReplayBuffer::try_new(
            InstrumentId::new(7).unwrap(),
            InstrumentVersion::new(3).unwrap(),
            0,
            usize::MAX,
        )
        .unwrap_err(),
        CallAuctionMarketDataReplayConstructionError::ReservationFailed { maximum: usize::MAX }
    );
    let mut buffer = CallAuctionMarketDataReplayBuffer::try_new(
        InstrumentId::new(7).unwrap(),
        InstrumentVersion::new(3).unwrap(),
        0,
        6,
    )
    .unwrap();
    assert_eq!(
        buffer.push_batch(&all[1]).unwrap_err(),
        CallAuctionMarketDataReplayError::SequenceGap {
            expected: 1,
            actual: 2
        }
    );
    let mut total = 0;
    for batch in &all {
        total += buffer.push_batch(batch).unwrap();
        assert_eq!(buffer.push_batch(batch).unwrap(), 0);
        buffer.validate().unwrap();
    }
    assert_eq!(total as u64, buffer.latest_sequence());
    assert_eq!(buffer.latest_sequence(), 13);
    assert_eq!(buffer.retained_len(), 6);
    assert_eq!(buffer.earliest_sequence(), Some(8));
    assert_eq!(buffer.status().maximum_updates, 6);
    assert_eq!(
        buffer.push_batch(&all[0]).unwrap_err(),
        CallAuctionMarketDataReplayError::EvictedOverlap { sequence: 1 }
    );
    let mut changed = all[8].clone();
    changed.updates[0].occurred_at = TimestampNs::from_unix_nanos(0);
    assert!(matches!(
        buffer.push_batch(&changed),
        Err(CallAuctionMarketDataReplayError::Collision { .. })
    ));

    let replay = buffer.replay_batches_after(9, 6).unwrap();
    assert_eq!(replay.batches.len(), 2);
    assert_eq!(replay.batches[0].updates(), all[7].updates);
    assert_eq!(replay.batches[1].updates(), all[8].updates);
    assert_eq!(buffer.replay_batches_after(9, 3).unwrap().update_count, 1);
    assert!(buffer.replay_batches_after(13, 3).unwrap().batches.is_empty());
    assert!(matches!(
        buffer.replay_batches_after(9, 0),
        Err(CallAuctionMarketDataReplayError::ZeroLimit)
    ));
    assert!(matches!(
        buffer.replay_batches_after(14, 1),
        Err(CallAuctionMarketDataReplayError::FutureCursor { latest: 13, requested: 14 })
    ));
    assert!(matches!(
        buffer.replay_batches_after(5, 1),
        Err(CallAuctionMarketDataReplayError::UnavailableCursor { requested: 5 })
    ));
    assert!(matches!(
        buffer.replay_batches_after(11, 6),
        Err(CallAuctionMarketDataReplayError::NotBatchBoundary { requested: 11 })
    ));
    assert!(matches!(
        buffer.replay_batches_after(10, 2),
        Err(CallAuctionMarketDataReplayError::BatchExceedsLimit { maximum: 2, required: 3 })
    ));

    let mut replica = replica();
    for batch in &all[..7] {
        replica.apply_batch(batch).unwrap();
    }
    for batch in &replay.batches {
        replica.apply_replay_batch(batch).unwrap();
    }
    assert_eq!(replica.last_sequence(), 13);
    replica.validate().unwrap();
}

#[test]
fn a_corrupt_replay_window_fails_its_audit() {
    let all = batches();
    let mut buffer = CallAuctionMarketDataReplayBuffer::try_new(
        InstrumentId::new(7).unwrap(),
        InstrumentVersion::new(3).unwrap(),
        0,
        6,
    )
    .unwrap();
    buffer.push_batch(&all[0]).unwrap();
    buffer.slots[0].last = 9;
    assert!(matches!(
        buffer.validate(),
        Err(CallAuctionMarketDataReplayError::CorruptState(_))
    ));
}

#[test]
fn a_refused_update_names_its_contradiction() {
    let mut fresh = replica();
    assert_eq!(
        fresh.apply(update(
            1,
            CallAuctionMarketDataKind::PhaseChanged {
                auction_id: AuctionId::new(2).unwrap(),
                previous: CallAuctionPhase::Closed,
                current: CallAuctionPhase::Collecting,
                revision: 1,
            },
        ))
        .unwrap_err(),
        CallAuctionMarketDataError::InvalidUpdate(
            "auction cycle identity is not the exact successor"
        )
    );
    assert!(fresh.is_poisoned());
    let mut fresh = replica();
    assert_eq!(
        fresh.apply(update(
            1,
            CallAuctionMarketDataKind::PhaseChanged {
                auction_id: AuctionId::new(1).unwrap(),
                previous: CallAuctionPhase::Closed,
                current: CallAuctionPhase::Frozen,
                revision: 1,
            },
        ))
        .unwrap_err(),
        CallAuctionMarketDataError::InvalidUpdate(
            "auction phase transition is outside the explicit graph"
        )
    );
}
