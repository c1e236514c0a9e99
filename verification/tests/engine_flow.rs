use call_auction::allocation::AuctionAllocationPolicy;
use call_auction::auction::{AuctionOrderConstraint, AuctionPricePolicy, AuctionPriorityClass};
use call_auction::auction_engine::{CallAuctionCommandPreparation, CallAuctionEngine};
use call_auction::book_restore::CallAuctionRestoreError;
use call_auction::book_state::CallAuctionBook;
use call_auction::book_types::{
    CallAuctionBookLimits, CallAuctionBookLimitsSpec, CallAuctionCapacity,
    CallAuctionConstructionError, CallAuctionOrder, CallAuctionRemainderPolicy,
    CallAuctionSelfTradePolicy, CallAuctionUncrossPolicy,
};
use call_auction::domain::{
    AccountId, AuctionId, CommandId, InstrumentId, InstrumentVersion, MassCancelScope, OrderId,
    Price, Quantity, Side, TimestampNs,
};
use call_auction::engine_checkpoint::{CallAuctionCheckpoint, CallAuctionCheckpointError};
use call_auction::engine_types::{
    CallAuctionAction, CallAuctionAmendOrder, CallAuctionCancelOrder, CallAuctionCommand,
    CallAuctionCommandOutcome, CallAuctionEngineCapacity, CallAuctionEngineConstructionError,
    CallAuctionEngineError,
    CallAuctionEngineLimits, CallAuctionEngineLimitsError, CallAuctionEngineLimitsSpec,
    CallAuctionEventKind, CallAuctionMassCancel, CallAuctionPhase, CallAuctionPhaseControl,
    CallAuctionQueryError, CallAuctionRejectReason, CallAuctionReplaceOrder,
    CallAuctionSubmitOrder, CallAuctionUncrossCommand,
};
use call_auction::instrument::{InstrumentDefinition, PriceRules, QuantityRules};

fn definition() -> InstrumentDefinition {
    InstrumentDefinition::new(
        InstrumentId::new(7).unwrap(),
        InstrumentVersion::new(3).unwrap(),
        PriceRules::new(0, 5, Price::from_raw(0), Price::from_raw(200)).unwrap(),
        QuantityRules::new(1, 1, 1_000).unwrap(),
    )
}

fn limits() -> CallAuctionEngineLimits {
    let book = CallAuctionBookLimits::new(CallAuctionBookLimitsSpec {
        max_active_orders: 4,
        max_price_levels_per_side: 4,
        max_accepted_order_ids: 16,
        max_prepared_uncrosses: 1,
    })
    .unwrap();
    CallAuctionEngineLimits::new(CallAuctionEngineLimitsSpec {
        book,
        max_retained_commands: 16,
        terminal_command_reserve: 6,
        max_report_events: 9,
    })
    .unwrap()
}

fn engine() -> CallAuctionEngine {
    CallAuctionEngine::try_with_limits(definition(), limits(), 1).unwrap()
}

fn cycle(value: u64) -> AuctionId {
    AuctionId::new(value).unwrap()
}

fn phase(command: u64, revision: u64, target: CallAuctionPhase) -> CallAuctionCommand {
    CallAuctionCommand::PhaseControl(CallAuctionPhaseControl {
        command_id: CommandId::new(command).unwrap(),
        instrument_id: InstrumentId::new(7).unwrap(),
        instrument_version: InstrumentVersion::new(3).unwrap(),
        auction_id: cycle(1),
        expected_phase_revision: revision,
        target_phase: target,
        received_at: TimestampNs::from_unix_nanos(command),
    })
}

fn order(value: u64, owner: u64, side: Side, limit: Option<i64>, lots: u64) -> CallAuctionOrder {
    CallAuctionOrder::new(
        OrderId::new(value).unwrap(),
        AccountId::new(owner).unwrap(),
        InstrumentId::new(7).unwrap(),
        InstrumentVersion::new(3).unwrap(),
        side,
        match limit {
            Some(raw) => AuctionOrderConstraint::Limit(Price::from_raw(raw)),
            None => AuctionOrderConstraint::Market,
        },
        Quantity::new(lots).unwrap(),
        AuctionPriorityClass::highest(),
    )
}

fn submit(command: u64, revision: u64, order: CallAuctionOrder) -> CallAuctionCommand {
    CallAuctionCommand::Submit(CallAuctionSubmitOrder {
        command_id: CommandId::new(command).unwrap(),
        auction_id: cycle(1),
        expected_phase_revision: revision,
        order,
        received_at: TimestampNs::from_unix_nanos(command),
    })
}

fn uncross(engine: &CallAuctionEngine, command: u64, revision: u64) -> CallAuctionCommand {
    CallAuctionCommand::Uncross(CallAuctionUncrossCommand {
        command_id: CommandId::new(command).unwrap(),
        instrument_id: InstrumentId::new(7).unwrap(),
        instrument_version: InstrumentVersion::new(3).unwrap(),
        auction_id: cycle(1),
        expected_phase_revision: revision,
        price_band: engine.book().instrument_price_band(),
        reference_price: Price::from_raw(100),
        price_policy: AuctionPricePolicy::reference_then_lower(),
        uncross_policy: CallAuctionUncrossPolicy::new(
            AuctionAllocationPolicy::PriceTime,
            CallAuctionRemainderPolicy::CancelAll,
            CallAuctionSelfTradePolicy::Permit,
        ),
        received_at: TimestampNs::from_unix_nanos(command),
    })
}

fn accepted(engine: &mut CallAuctionEngine, command: CallAuctionCommand) -> usize {
    let report = engine.submit(command).unwrap();
    assert_eq!(report.outcome, CallAuctionCommandOutcome::Accepted);
    report.events.len()
}

fn rejected(engine: &mut CallAuctionEngine, command: CallAuctionCommand) -> CallAuctionRejectReason {
    match engine.submit(command).unwrap().outcome {
        CallAuctionCommandOutcome::Rejected(reason) => reason,
        CallAuctionCommandOutcome::Accepted => panic!("accepted"),
    }
}

#[test]
fn engine_limits_name_the_first_fault() {
    let spec = CallAuctionEngineLimitsSpec {
        book: limits().book(),
        max_retained_commands: 16,
        terminal_command_reserve: 5,
        max_report_events: 9,
    };
    assert_eq!(
        CallAuctionEngineLimits::new(spec).unwrap_err(),
        CallAuctionEngineLimitsError::TerminalReserveBelowRequired {
            configured: 5,
            required: 6
        }
    );
    assert_eq!(
        CallAuctionEngineLimits::new(CallAuctionEngineLimitsSpec {
            max_retained_commands: 0,
            ..spec
        })
        .unwrap_err(),
        CallAuctionEngineLimitsError::ZeroRetainedCommands
    );
    assert_eq!(
        CallAuctionEngineLimits::new(CallAuctionEngineLimitsSpec {
            terminal_command_reserve: 16,
            ..spec
        })
        .unwrap_err(),
        CallAuctionEngineLimitsError::TerminalReserveExhaustsHistory
    );
    assert_eq!(
        CallAuctionEngineLimits::new(CallAuctionEngineLimitsSpec {
            terminal_command_reserve: 6,
            max_report_events: 8,
            ..spec
        })
        .unwrap_err(),
        CallAuctionEngineLimitsError::ReportEventsBelowRequired {
            configured: 8,
            required: 9
        }
    );
}

#[test]
fn one_cycle_collects_freezes_and_uncrosses() {
    let mut engine = engine();
    accepted(&mut engine, phase(1, 0, CallAuctionPhase::Collecting));
    accepted(&mut engine, submit(2, 1, order(10, 1, Side::Buy, Some(100), 5)));
    accepted(&mut engine, submit(3, 1, order(20, 2, Side::Sell, Some(90), 3)));
    let band = engine.book().instrument_price_band();
    let indicative = engine
        .indicative(
            cycle(1),
            band,
            Price::from_raw(100),
            AuctionPricePolicy::reference_then_lower(),
        )
        .unwrap()
        .unwrap();
    assert_eq!(indicative.clearing().executable_quantity(), 3);
    assert!(matches!(
        engine.indicative(
            cycle(2),
            band,
            Price::from_raw(100),
            AuctionPricePolicy::reference_then_lower(),
        ),
        Err(CallAuctionQueryError::AuctionIdMismatch { .. })
    ));
    accepted(&mut engine, phase(4, 1, CallAuctionPhase::Frozen));
    let command = uncross(&engine, 5, 2);
    let report = engine.submit(command).unwrap();
    assert_eq!(report.events.len(), 3);
    let events = report.events.as_slice();
    assert!(matches!(events[0].kind, CallAuctionEventKind::Trade(trade) if trade.quantity().lots() == 3));
    assert!(matches!(events[1].kind, CallAuctionEventKind::RemainderCancelled(left) if left.quantity().lots() == 2));
    assert!(matches!(
        events[2].kind,
        CallAuctionEventKind::UncrossCompleted { trade_count: 1, cancellation_count: 1, phase_revision: 3, .. }
    ));
    assert_eq!(events[0].sequence, 5);
    assert_eq!(engine.phase_snapshot().phase(), CallAuctionPhase::Closed);
    assert_eq!(engine.phase_snapshot().last_auction_id(), Some(cycle(1)));
    assert_eq!(engine.next_event_sequence(), 8);
    engine.validate().unwrap();
}

#[test]
fn rejections_are_sequenced_and_change_nothing_else() {
    let mut engine = engine();
    assert_eq!(
        rejected(&mut engine, submit(1, 0, order(10, 1, Side::Buy, None, 5))),
        CallAuctionRejectReason::ActionNotAllowed {
            action: CallAuctionAction::Submit,
            phase: CallAuctionPhase::Closed,
        }
    );
    assert_eq!(
        rejected(&mut engine, phase(2, 7, CallAuctionPhase::Collecting)),
        CallAuctionRejectReason::PhaseRevisionMismatch {
            observed: 7,
            current: 0
        }
    );
    accepted(&mut engine, phase(3, 0, CallAuctionPhase::Collecting));
    accepted(&mut engine, submit(4, 1, order(10, 1, Side::Buy, None, 5)));
    assert_eq!(
        rejected(&mut engine, submit(5, 1, order(10, 1, Side::Buy, None, 5))),
        CallAuctionRejectReason::DuplicateOrder
    );
    let cancel = |command: u64, owner: u64, target: u64| {
        CallAuctionCommand::Cancel(CallAuctionCancelOrder {
            command_id: CommandId::new(command).unwrap(),
            instrument_id: InstrumentId::new(7).unwrap(),
            instrument_version: InstrumentVersion::new(3).unwrap(),
            account_id: AccountId::new(owner).unwrap(),
            order_id: OrderId::new(target).unwrap(),
            received_at: TimestampNs::from_unix_nanos(command),
        })
    };
    assert_eq!(
        rejected(&mut engine, cancel(6, 2, 10)),
        CallAuctionRejectReason::NotOrderOwner
    );
    assert_eq!(
        rejected(&mut engine, cancel(7, 1, 11)),
        CallAuctionRejectReason::UnknownOrder
    );
    assert_eq!(engine.next_command_sequence(), 8);
    assert_eq!(engine.book().active_order_count(), 1);
    engine.validate().unwrap();
}

#[test]
fn exact_retries_replay_and_other_commands_collide() {
    let mut engine = engine();
    let open = phase(1, 0, CallAuctionPhase::Collecting);
    let first = engine.submit(open).unwrap();
    let again = engine.submit(open).unwrap();
    assert!(!first.replayed);
    assert!(again.replayed);
    assert_eq!(again.command_sequence, first.command_sequence);
    assert!(again.events.shares_storage_with(&first.events));
    assert_eq!(engine.next_command_sequence(), 2);
    assert_eq!(
        engine.submit(phase(1, 0, CallAuctionPhase::Frozen)).unwrap_err(),
        CallAuctionEngineError::CommandIdCollision(CommandId::new(1).unwrap())
    );
}

#[test]
fn stale_and_foreign_preparations_are_refused() {
    let mut engine = engine();
    let ready = |preparation: CallAuctionCommandPreparation| match preparation {
        CallAuctionCommandPreparation::Ready(prepared) => prepared,
        CallAuctionCommandPreparation::Replay(_) => panic!("replayed"),
    };
    let prepared = ready(engine.prepare(phase(1, 0, CallAuctionPhase::Collecting)).unwrap());
    accepted(&mut engine, phase(2, 0, CallAuctionPhase::Collecting));
    let refused = engine.commit(prepared).unwrap_err();
    assert!(refused.foreign.is_none());
    let mut other = CallAuctionEngine::try_with_limits(definition(), limits(), 2).unwrap();
    let prepared = ready(other.prepare(phase(1, 0, CallAuctionPhase::Collecting)).unwrap());
    let refused = engine.commit(prepared).unwrap_err();
    assert!(refused.foreign.is_some());
    assert!(other.release(refused.foreign.unwrap()).is_ok());
    engine.validate().unwrap();
}

#[test]
fn amend_replace_and_mass_cancel_report_what_they_did() {
    let mut engine = engine();
    accepted(&mut engine, phase(1, 0, CallAuctionPhase::Collecting));
    accepted(&mut engine, submit(2, 1, order(10, 1, Side::Buy, Some(100), 5)));
    accepted(&mut engine, submit(3, 1, order(20, 1, Side::Sell, None, 4)));
    let amend = engine
        .submit(CallAuctionCommand::Amend(CallAuctionAmendOrder {
            command_id: CommandId::new(4).unwrap(),
            instrument_id: InstrumentId::new(7).unwrap(),
            instrument_version: InstrumentVersion::new(3).unwrap(),
            auction_id: cycle(1),
            expected_phase_revision: 1,
            account_id: AccountId::new(1).unwrap(),
            order_id: OrderId::new(10).unwrap(),
            new_quantity: Quantity::new(2).unwrap(),
            received_at: TimestampNs::from_unix_nanos(4),
        }))
        .unwrap();
    assert!(matches!(
        amend.events.as_slice()[0].kind,
        CallAuctionEventKind::OrderAmended { book_revision: 3, .. }
    ));
    let replace = engine
        .submit(CallAuctionCommand::Replace(CallAuctionReplaceOrder {
            command_id: CommandId::new(5).unwrap(),
            auction_id: cycle(1),
            expected_phase_revision: 1,
            account_id: AccountId::new(1).unwrap(),
            target_order_id: OrderId::new(10).unwrap(),
            replacement: order(11, 1, Side::Buy, Some(105), 6),
            received_at: TimestampNs::from_unix_nanos(5),
        }))
        .unwrap();
    assert_eq!(replace.events.len(), 2);
    let mass = engine
        .submit(CallAuctionCommand::MassCancel(CallAuctionMassCancel {
            command_id: CommandId::new(6).unwrap(),
            instrument_id: InstrumentId::new(7).unwrap(),
            instrument_version: InstrumentVersion::new(3).unwrap(),
            account_id: AccountId::new(1).unwrap(),
            scope: MassCancelScope::All,
            received_at: TimestampNs::from_unix_nanos(6),
        }))
        .unwrap();
    assert_eq!(mass.events.len(), 3);
    assert!(matches!(
        mass.events.as_slice()[2].kind,
        CallAuctionEventKind::MassCancelCompleted {
            cancelled_order_count: 2,
            cancelled_quantity_lots: 10,
            book_revision: 5,
            ..
        }
    ));
    assert_eq!(engine.book().active_order_count(), 0);
    engine.validate().unwrap();
}

#[test]
fn the_terminal_lane_stays_open_when_history_fills() {
    let mut engine = engine();
    accepted(&mut engine, phase(1, 0, CallAuctionPhase::Collecting));
    for command in 2..=10 {
        let _ = engine.submit(phase(command, 99, CallAuctionPhase::Frozen)).unwrap();
    }
    assert_eq!(
        engine.submit(submit(11, 1, order(10, 1, Side::Buy, None, 1))).unwrap_err(),
        CallAuctionEngineError::CapacityExhausted(
            CallAuctionEngineCapacity::AdmissionCommandHistory
        )
    );
    accepted(&mut engine, phase(12, 1, CallAuctionPhase::Frozen));
    engine.validate().unwrap();
}

#[test]
fn a_checkpoint_restores_the_same_engine() {
    let mut engine = engine();
    accepted(&mut engine, phase(1, 0, CallAuctionPhase::Collecting));
    accepted(&mut engine, submit(2, 1, order(10, 1, Side::Buy, Some(100), 5)));
    accepted(&mut engine, submit(3, 1, order(20, 2, Side::Sell, Some(90), 3)));
    let checkpoint = engine.checkpoint(1, 7, 2).unwrap();
    assert_eq!(checkpoint.active_orders().len(), 2);
    let mut restored = CallAuctionEngine::from_checkpoint_with_limits(
        checkpoint,
        limits(),
        3,
    )
    .unwrap();
    assert_eq!(restored.phase_snapshot(), engine.phase_snapshot());
    assert_eq!(restored.next_event_sequence(), engine.next_event_sequence());
    let freeze = phase(4, 1, CallAuctionPhase::Frozen);
    let live = engine.submit(freeze).unwrap();
    let replay = restored.submit(freeze).unwrap();
    assert!(live.matches(&replay));
    let command = uncross(&engine, 5, 2);
    let live = engine.submit(command).unwrap();
    let replay = restored.submit(command).unwrap();
    assert!(live.matches(&replay));
    restored.validate().unwrap();
}

#[test]
fn a_full_history_still_empties_and_closes_a_full_book() {
    let mut engine = engine();
    accepted(&mut engine, phase(1, 0, CallAuctionPhase::Collecting));
    for value in 2..=5 {
        accepted(&mut engine, submit(value, 1, order(value, 1, Side::Buy, Some(100), 1)));
    }
    for command in 6..=10 {
        rejected(&mut engine, phase(command, 99, CallAuctionPhase::Frozen));
    }
    assert_eq!(
        engine
            .submit(CallAuctionCommand::MassCancel(CallAuctionMassCancel {
                command_id: CommandId::new(11).unwrap(),
                instrument_id: InstrumentId::new(7).unwrap(),
                instrument_version: InstrumentVersion::new(3).unwrap(),
                account_id: AccountId::new(1).unwrap(),
                scope: MassCancelScope::All,
                received_at: TimestampNs::from_unix_nanos(11),
            }))
            .unwrap_err(),
        CallAuctionEngineError::CapacityExhausted(
            CallAuctionEngineCapacity::AdmissionCommandHistory
        )
    );
    for value in 2..=5 {
        accepted(
            &mut engine,
            CallAuctionCommand::Cancel(CallAuctionCancelOrder {
                command_id: CommandId::new(10 + value).unwrap(),
                instrument_id: InstrumentId::new(7).unwrap(),
                instrument_version: InstrumentVersion::new(3).unwrap(),
                account_id: AccountId::new(1).unwrap(),
                order_id: OrderId::new(value).unwrap(),
                received_at: TimestampNs::from_unix_nanos(10 + value),
            }),
        );
    }
    accepted(&mut engine, phase(16, 1, CallAuctionPhase::Frozen));
    accepted(&mut engine, phase(17, 2, CallAuctionPhase::Closed));
    assert_eq!(engine.book().active_order_count(), 0);
    assert_eq!(engine.next_command_sequence(), 17);
    engine.validate().unwrap();
}

#[test]
fn an_accepted_identifier_is_never_accepted_again() {
    let mut engine = engine();
    accepted(&mut engine, phase(1, 0, CallAuctionPhase::Collecting));
    accepted(&mut engine, submit(2, 1, order(10, 1, Side::Buy, Some(100), 1)));
    accepted(
        &mut engine,
        CallAuctionCommand::Cancel(CallAuctionCancelOrder {
            command_id: CommandId::new(3).unwrap(),
            instrument_id: InstrumentId::new(7).unwrap(),
            instrument_version: InstrumentVersion::new(3).unwrap(),
            account_id: AccountId::new(1).unwrap(),
            order_id: OrderId::new(10).unwrap(),
            received_at: TimestampNs::from_unix_nanos(3),
        }),
    );
    assert_eq!(
        rejected(&mut engine, submit(4, 1, order(10, 1, Side::Sell, Some(90), 1))),
        CallAuctionRejectReason::DuplicateOrder
    );
}

#[test]
fn a_released_preparation_returns_its_buffers() {
    let mut engine = engine();
    accepted(&mut engine, phase(1, 0, CallAuctionPhase::Collecting));
    accepted(&mut engine, submit(2, 1, order(10, 1, Side::Buy, Some(100), 5)));
    accepted(&mut engine, submit(3, 1, order(20, 2, Side::Sell, Some(90), 3)));
    accepted(&mut engine, phase(4, 1, CallAuctionPhase::Frozen));
    let free = engine.book.resource_status().available_prepared_uncrosses;
    let command = uncross(&engine, 5, 2);
    let prepared = match engine.prepare(command).unwrap() {
        CallAuctionCommandPreparation::Ready(prepared) => prepared,
        CallAuctionCommandPreparation::Replay(_) => panic!("replayed"),
    };
    assert_eq!(engine.book.resource_status().available_prepared_uncrosses, free - 1);
    assert!(engine.release(prepared).is_ok());
    assert_eq!(engine.book.resource_status().available_prepared_uncrosses, free);
    accepted(&mut engine, command);
}

#[test]
fn a_checkpoint_names_its_first_contradiction() {
    let mut engine = engine();
    accepted(&mut engine, phase(1, 0, CallAuctionPhase::Collecting));
    accepted(&mut engine, submit(2, 1, order(10, 1, Side::Buy, Some(100), 5)));
    let sound = engine.checkpoint(1, 5, 2).unwrap();
    sound.validate().unwrap();
    let detail = |spoil: fn(&mut CallAuctionCheckpoint)| {
        let mut checkpoint = sound.clone();
        spoil(&mut checkpoint);
        checkpoint.validate().unwrap_err().detail().to_owned()
    };
    assert_eq!(
        detail(|checkpoint| checkpoint.wal_metadata_sequence = 0),
        "auction checkpoint WAL metadata sequence is zero"
    );
    assert_eq!(
        detail(|checkpoint| checkpoint.wal_sequence = 6),
        "auction checkpoint WAL boundary does not terminate its history"
    );
    assert_eq!(
        detail(|checkpoint| checkpoint.accepted_order_ids.clear()),
        "auction checkpoint accepted identities contradict history"
    );
    assert_eq!(
        detail(|checkpoint| checkpoint.active_orders.clear()),
        "auction checkpoint active orders contradict event projection"
    );
    assert_eq!(
        detail(|checkpoint| checkpoint.next_trade_id = 9),
        "auction checkpoint direct counters or phase contradict history"
    );
}

#[test]
fn a_checkpoint_must_fit_the_limits_of_its_engine() {
    let mut engine = engine();
    accepted(&mut engine, phase(1, 0, CallAuctionPhase::Collecting));
    accepted(&mut engine, submit(2, 1, order(10, 1, Side::Buy, Some(100), 5)));
    accepted(&mut engine, submit(3, 1, order(11, 1, Side::Buy, Some(95), 5)));
    let checkpoint = engine.checkpoint(1, 7, 2).unwrap();
    let refusal = |book: CallAuctionBookLimitsSpec| {
        let limits = CallAuctionEngineLimits::new(CallAuctionEngineLimitsSpec {
            book: CallAuctionBookLimits::new(book).unwrap(),
            max_retained_commands: 16,
            terminal_command_reserve: 6,
            max_report_events: 9,
        })
        .unwrap();
        CallAuctionEngine::from_checkpoint_with_limits(checkpoint.clone(), limits, 3)
            .unwrap_err()
            .detail()
            .to_owned()
    };
    let wide = CallAuctionBookLimitsSpec {
        max_active_orders: 4,
        max_price_levels_per_side: 4,
        max_accepted_order_ids: 16,
        max_prepared_uncrosses: 1,
    };
    assert_eq!(
        refusal(CallAuctionBookLimitsSpec {
            max_active_orders: 1,
            max_price_levels_per_side: 1,
            ..wide
        }),
        "auction checkpoint active orders exceed selected capacity"
    );
    assert_eq!(
        refusal(CallAuctionBookLimitsSpec {
            max_price_levels_per_side: 1,
            ..wide
        }),
        "auction checkpoint price levels exceed selected capacity"
    );
}

#[test]
fn a_failed_restoration_is_described_by_its_cause() {
    let mut engine = engine();
    accepted(&mut engine, phase(1, 0, CallAuctionPhase::Collecting));
    let checkpoint = engine.checkpoint(1, 3, 2).unwrap();
    let error = CallAuctionEngine::from_checkpoint_with_limits(checkpoint, limits(), u64::MAX)
        .unwrap_err();
    assert_eq!(
        error.detail(),
        "call-auction engine book: call-auction book instance identity exhausted"
    );
    assert!(!error.is_resource_exhaustion());
    assert!(error.is_operational_failure());
}

#[test]
fn a_restoration_names_the_component_that_it_lacks() {
    let mut engine = engine();
    accepted(&mut engine, phase(1, 0, CallAuctionPhase::Collecting));
    accepted(&mut engine, submit(2, 1, order(10, 1, Side::Buy, Some(100), 5)));
    let checkpoint = engine.checkpoint(1, 5, 2).unwrap();
    let fresh = || CallAuctionEngine::try_with_limits(definition(), limits(), 3);
    let book = || CallAuctionBook::try_with_limits(definition(), limits().book(), 4);
    let starved =
        CallAuctionConstructionError::CapacityReservationFailed(CallAuctionCapacity::ActiveOrders);
    let error = CallAuctionEngine::from_checkpoint_components(
        checkpoint.clone(),
        limits(),
        Err(CallAuctionEngineConstructionError::CommandHistoryReservationFailed),
        Err(starved),
    )
    .unwrap_err();
    assert_eq!(error.detail(), "call-auction command-history reservation failed");
    assert!(error.is_resource_exhaustion());
    let error = CallAuctionEngine::from_checkpoint_components(
        checkpoint.clone(),
        limits(),
        fresh(),
        Err(starved),
    )
    .unwrap_err();
    assert!(matches!(
        error,
        CallAuctionCheckpointError::Construction(
            CallAuctionEngineConstructionError::Book(cause),
            _
        ) if cause == starved
    ));
    let restored = CallAuctionEngine::from_checkpoint_components(
        checkpoint.clone(),
        limits(),
        fresh(),
        book(),
    )
    .unwrap();
    restored.validate().unwrap();
    assert_eq!(restored.book().active_order_count(), 1);
    assert!(matches!(
        engine.replayed_checkpoint(
            checkpoint.clone(),
            Err(CallAuctionEngineConstructionError::EngineInstanceIdExhausted)
        ),
        Err(CallAuctionCheckpointError::Construction(
            CallAuctionEngineConstructionError::EngineInstanceIdExhausted,
            _
        ))
    ));
    assert_eq!(
        engine.replayed_checkpoint(checkpoint.clone(), fresh()).unwrap().active_orders(),
        checkpoint.active_orders()
    );
}

#[test]
fn an_empty_book_takes_exactly_consistent_captures() {
    let mut engine = engine();
    accepted(&mut engine, phase(1, 0, CallAuctionPhase::Collecting));
    accepted(&mut engine, submit(2, 1, order(10, 1, Side::Buy, Some(100), 5)));
    let orders = engine.checkpoint(1, 5, 2).unwrap().active_orders().to_vec();
    let ids = [OrderId::new(10).unwrap()];
    let restore = |ids: &[OrderId], next: u64| {
        CallAuctionBook::try_with_limits(definition(), limits().book(), 4)
            .unwrap()
            .restored(&orders, ids, next, 1, 7)
    };
    let book = restore(&ids, 2).unwrap();
    assert_eq!(book.state_revision(), 7);
    book.validate().unwrap();
    assert!(matches!(
        restore(&[], 2),
        Err(CallAuctionRestoreError::Contradiction(
            "auction checkpoint active order lacks accepted identity"
        ))
    ));
    assert!(matches!(
        CallAuctionBook::from_checkpoint_state(
            definition(),
            limits().book(),
            &orders,
            &[ids[0], ids[0]],
            2,
            1,
            7,
            4
        ),
        Err(CallAuctionRestoreError::Contradiction(
            "auction checkpoint repeats an accepted order identifier"
        ))
    ));
    assert!(matches!(
        CallAuctionBook::from_checkpoint_state(
            definition(),
            limits().book(),
            &orders,
            &ids,
            2,
            1,
            7,
            u64::MAX
        ),
        Err(CallAuctionRestoreError::Construction(
            CallAuctionConstructionError::BookInstanceIdExhausted
        ))
    ));
}

#[test]
fn a_refused_restoration_asks_for_no_storage() {
    let mut engine = engine();
    accepted(&mut engine, phase(1, 0, CallAuctionPhase::Collecting));
    let mut checkpoint = engine.checkpoint(1, 3, 2).unwrap();
    checkpoint.wal_metadata_sequence = 0;
    assert_eq!(
        CallAuctionEngine::from_checkpoint_with_limits(checkpoint, limits(), u64::MAX)
            .unwrap_err()
            .detail(),
        "auction checkpoint WAL metadata sequence is zero"
    );
    assert_eq!(
        engine.checkpoint(1, 9, u64::MAX).unwrap_err().detail(),
        "auction checkpoint WAL boundary does not terminate its history"
    );
}
