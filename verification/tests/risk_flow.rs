use std::sync::Arc;

use call_auction::allocation::AuctionAllocationPolicy;
use call_auction::auction::{AuctionOrderConstraint, AuctionPricePolicy, AuctionPriorityClass};
use call_auction::auction_engine::CallAuctionEngine;
use call_auction::auction_risk::{
    CallAuctionRiskConstructionError, CallAuctionRiskEngine, CallAuctionRiskLimits,
    CallAuctionRiskLimitsError, CallAuctionRiskLimitsSpec,
};
use call_auction::book_types::{
    CallAuctionBookLimits, CallAuctionBookLimitsSpec, CallAuctionOrder,
    CallAuctionRemainderPolicy, CallAuctionSelfTradePolicy, CallAuctionUncrossPolicy,
};
use call_auction::domain::{
    AccountId, AuctionId, CommandId, InstrumentId, InstrumentVersion, MassCancelScope, OrderId,
    Price, Quantity, Side, TimestampNs,
};
use call_auction::engine_types::{
    CallAuctionAmendOrder, CallAuctionCancelOrder, CallAuctionCommand, CallAuctionCommandOutcome,
    CallAuctionEngineLimits, CallAuctionEngineLimitsSpec, CallAuctionMassCancel, CallAuctionPhase,
    CallAuctionPhaseControl, CallAuctionRejectReason, CallAuctionReplaceOrder,
    CallAuctionSubmitOrder, CallAuctionUncrossCommand,
};
use call_auction::instrument::{InstrumentDefinition, PriceRules, QuantityRules};
use call_auction::risk::{
    conservative_order_notional, AccountRiskState, RiskConfigurationError, RiskError,
    RiskAccountCheckpoint, RiskLimitSpec, RiskLimits, RiskProfile, RiskSnapshot,
};
use call_auction::risk_checkpoint::{
    CallAuctionRiskCheckpoint, CallAuctionRiskCheckpointCapture, CallAuctionRiskCheckpointError,
    CallAuctionRiskCheckpointResource,
};
use call_auction::risk_conditional::{
    ConditionalCallAuctionCommandOutcome, ConditionalCallAuctionOutcome,
};
use call_auction::risk_managed::CallAuctionRiskManagedEngine;

fn definition() -> InstrumentDefinition {
    InstrumentDefinition::new(
        InstrumentId::new(7).unwrap(),
        InstrumentVersion::new(3).unwrap(),
        PriceRules::new(0, 5, Price::from_raw(-100), Price::from_raw(200)).unwrap(),
        QuantityRules::new(1, 1, 1_000).unwrap(),
    )
}

fn limits() -> CallAuctionRiskLimits {
    let book = CallAuctionBookLimits::new(CallAuctionBookLimitsSpec {
        max_active_orders: 4,
        max_price_levels_per_side: 4,
        max_accepted_order_ids: 16,
        max_prepared_uncrosses: 1,
    })
    .unwrap();
    let auction = CallAuctionEngineLimits::new(CallAuctionEngineLimitsSpec {
        book,
        max_retained_commands: 32,
        terminal_command_reserve: 6,
        max_report_events: 9,
    })
    .unwrap();
    CallAuctionRiskLimits::new(CallAuctionRiskLimitsSpec {
        auction,
        max_registered_accounts: 2,
    })
    .unwrap()
}

fn profile(state: AccountRiskState) -> RiskProfile {
    RiskProfile::new(
        state,
        0,
        RiskLimits::new(RiskLimitSpec {
            max_order_quantity_lots: 10,
            max_order_notional: 2_000,
            max_open_orders: 3,
            max_open_quantity_lots: 20,
            max_open_notional: 3_000,
            max_long_position_lots: 8,
            max_short_position_lots: 8,
        })
        .unwrap(),
    )
    .unwrap()
}

fn account(value: u64) -> AccountId {
    AccountId::new(value).unwrap()
}

fn managed() -> CallAuctionRiskManagedEngine {
    let mut engine =
        CallAuctionRiskManagedEngine::try_with_limits(definition(), limits(), 1).unwrap();
    engine.register_account(account(1), profile(AccountRiskState::Active)).unwrap();
    engine.register_account(account(2), profile(AccountRiskState::Active)).unwrap();
    let opened = engine.submit(phase(1, 0, CallAuctionPhase::Collecting)).unwrap();
    assert_eq!(opened.outcome, CallAuctionCommandOutcome::Accepted);
    engine
}

fn phase(command: u64, revision: u64, target: CallAuctionPhase) -> CallAuctionCommand {
    CallAuctionCommand::PhaseControl(CallAuctionPhaseControl {
        command_id: CommandId::new(command).unwrap(),
        instrument_id: InstrumentId::new(7).unwrap(),
        instrument_version: InstrumentVersion::new(3).unwrap(),
        auction_id: AuctionId::new(1).unwrap(),
        expected_phase_revision: revision,
        target_phase: target,
        received_at: TimestampNs::from_unix_nanos(command),
    })
}

fn order(value: u64, owner: u64, side: Side, limit: Option<i64>, lots: u64) -> CallAuctionOrder {
    CallAuctionOrder::new(
        OrderId::new(value).unwrap(),
        account(owner),
        InstrumentId::new(7).unwrap(),
        InstrumentVersion::new(3).unwrap(),
        side,
        match limit {
            Some(raw) => AuctionOrderConstraint::Limit(Price::from_raw(raw)),
            None => AuctionOrderConstraint::Market,
        },
        Quantity::new(lots).unwrap(),
        AuctionPriorityClass::highest(),
    )
}

fn submit(command: u64, order: CallAuctionOrder) -> CallAuctionCommand {
    CallAuctionCommand::Submit(CallAuctionSubmitOrder {
        command_id: CommandId::new(command).unwrap(),
        auction_id: AuctionId::new(1).unwrap(),
        expected_phase_revision: 1,
        order,
        received_at: TimestampNs::from_unix_nanos(command),
    })
}

fn cancel(command: u64, owner: u64, target: u64) -> CallAuctionCancelOrder {
    CallAuctionCancelOrder {
        command_id: CommandId::new(command).unwrap(),
        instrument_id: InstrumentId::new(7).unwrap(),
        instrument_version: InstrumentVersion::new(3).unwrap(),
        account_id: account(owner),
        order_id: OrderId::new(target).unwrap(),
        received_at: TimestampNs::from_unix_nanos(command),
    }
}

fn uncross(engine: &CallAuctionRiskManagedEngine, command: u64) -> CallAuctionUncrossCommand {
    CallAuctionUncrossCommand {
        command_id: CommandId::new(command).unwrap(),
        instrument_id: InstrumentId::new(7).unwrap(),
        instrument_version: InstrumentVersion::new(3).unwrap(),
        auction_id: AuctionId::new(1).unwrap(),
        expected_phase_revision: 2,
        price_band: engine.engine().book().instrument_price_band(),
        reference_price: Price::from_raw(100),
        price_policy: AuctionPricePolicy::reference_then_lower(),
        uncross_policy: CallAuctionUncrossPolicy::new(
            AuctionAllocationPolicy::PriceTime,
            CallAuctionRemainderPolicy::RetainAll,
            CallAuctionSelfTradePolicy::Permit,
        ),
        received_at: TimestampNs::from_unix_nanos(command),
    }
}

fn rejected(
    engine: &mut CallAuctionRiskManagedEngine,
    command: CallAuctionCommand,
) -> CallAuctionRejectReason {
    match engine.submit(command).unwrap().outcome {
        CallAuctionCommandOutcome::Rejected(reason) => reason,
        other => panic!("{other:?}"),
    }
}

#[test]
fn risk_configuration_names_its_fault() {
    let spec = RiskLimitSpec {
        max_order_quantity_lots: 0,
        max_order_notional: 1,
        max_open_orders: 1,
        max_open_quantity_lots: 1,
        max_open_notional: 1,
        max_long_position_lots: 1,
        max_short_position_lots: 1,
    };
    assert_eq!(
        RiskLimits::new(spec).unwrap_err(),
        RiskConfigurationError::ZeroLimit
    );
    let limits = RiskLimits::new(RiskLimitSpec {
        max_order_quantity_lots: 1,
        ..spec
    })
    .unwrap();
    assert_eq!(
        RiskProfile::new(AccountRiskState::Active, 2, limits).unwrap_err(),
        RiskConfigurationError::InitialPositionOutsideLimits
    );
    assert_eq!(
        CallAuctionRiskLimits::new(CallAuctionRiskLimitsSpec {
            auction: self::limits().auction(),
            max_registered_accounts: 0,
        })
        .unwrap_err(),
        CallAuctionRiskLimitsError::ZeroRegisteredAccounts
    );
}

#[test]
fn conservative_notional_covers_every_reachable_price() {
    assert_eq!(
        conservative_order_notional(definition(), Side::Buy, AuctionOrderConstraint::Market, 3),
        600
    );
    assert_eq!(
        conservative_order_notional(
            definition(),
            Side::Buy,
            AuctionOrderConstraint::Limit(Price::from_raw(50)),
            2
        ),
        200
    );
    assert_eq!(
        conservative_order_notional(
            definition(),
            Side::Sell,
            AuctionOrderConstraint::Limit(Price::from_raw(50)),
            2
        ),
        400
    );
}

#[test]
fn registration_closes_with_the_first_command() {
    let mut engine =
        CallAuctionRiskManagedEngine::try_with_limits(definition(), limits(), 1).unwrap();
    engine.register_account(account(1), profile(AccountRiskState::Active)).unwrap();
    assert_eq!(
        engine.register_account(account(1), profile(AccountRiskState::Active)).unwrap_err(),
        RiskError::DuplicateProfile(account(1))
    );
    engine.register_account(account(2), profile(AccountRiskState::Active)).unwrap();
    assert_eq!(
        engine.register_account(account(3), profile(AccountRiskState::Active)).unwrap_err(),
        RiskError::ProfileCapacityExhausted { maximum: 2 }
    );
    engine.submit(phase(1, 0, CallAuctionPhase::Collecting)).unwrap();
    assert_eq!(
        engine.register_account(account(3), profile(AccountRiskState::Active)).unwrap_err(),
        RiskError::ProfileRegistryLocked
    );
    engine.validate().unwrap();
}

#[test]
fn each_pretrade_limit_refuses_in_turn() {
    let mut engine = managed();
    assert_eq!(
        rejected(&mut engine, submit(2, order(1, 9, Side::Buy, Some(10), 1))),
        CallAuctionRejectReason::RiskProfileMissing
    );
    assert_eq!(
        rejected(&mut engine, submit(3, order(2, 1, Side::Buy, Some(10), 11))),
        CallAuctionRejectReason::RiskOrderQuantityLimit
    );
    assert_eq!(
        rejected(&mut engine, submit(4, order(3, 1, Side::Buy, Some(10), 9))),
        CallAuctionRejectReason::RiskPositionLimit
    );
    engine.submit(submit(5, order(4, 1, Side::Buy, None, 8))).unwrap();
    assert_eq!(
        engine.risk().snapshot(account(1)).unwrap(),
        RiskSnapshot::from_parts(0, 8, 0, 1_600, 1)
    );
    assert_eq!(
        rejected(&mut engine, submit(6, order(5, 1, Side::Sell, None, 8))),
        CallAuctionRejectReason::RiskOpenNotionalLimit
    );
    assert_eq!(engine.risk().reservation_count(), 1);
    engine.validate().unwrap();
}

#[test]
fn trades_move_positions_and_release_reservations() {
    let mut engine = managed();
    engine.submit(submit(2, order(10, 1, Side::Buy, Some(100), 5))).unwrap();
    engine.submit(submit(3, order(20, 2, Side::Sell, Some(90), 3))).unwrap();
    engine.submit(phase(4, 1, CallAuctionPhase::Frozen)).unwrap();
    let command = uncross(&engine, 5);
    engine.submit(CallAuctionCommand::Uncross(command)).unwrap();
    let buyer = engine.risk().snapshot(account(1)).unwrap();
    assert_eq!(buyer, RiskSnapshot::from_parts(3, 2, 0, 200, 1));
    let seller = engine.risk().snapshot(account(2)).unwrap();
    assert_eq!(seller, RiskSnapshot::from_parts(-3, 0, 0, 0, 0));
    assert!(engine.risk().reservation(OrderId::new(20).unwrap()).is_none());
    engine.validate().unwrap();
}

#[test]
fn amend_replace_and_mass_cancel_move_reservations() {
    let mut engine = managed();
    engine.submit(submit(2, order(10, 1, Side::Buy, None, 5))).unwrap();
    engine
        .submit(CallAuctionCommand::Amend(CallAuctionAmendOrder {
            command_id: CommandId::new(3).unwrap(),
            instrument_id: InstrumentId::new(7).unwrap(),
            instrument_version: InstrumentVersion::new(3).unwrap(),
            auction_id: AuctionId::new(1).unwrap(),
            expected_phase_revision: 1,
            account_id: account(1),
            order_id: OrderId::new(10).unwrap(),
            new_quantity: Quantity::new(2).unwrap(),
            received_at: TimestampNs::from_unix_nanos(3),
        }))
        .unwrap();
    assert_eq!(
        engine.risk().snapshot(account(1)).unwrap(),
        RiskSnapshot::from_parts(0, 2, 0, 400, 1)
    );
    engine
        .submit(CallAuctionCommand::Replace(CallAuctionReplaceOrder {
            command_id: CommandId::new(4).unwrap(),
            auction_id: AuctionId::new(1).unwrap(),
            expected_phase_revision: 1,
            account_id: account(1),
            target_order_id: OrderId::new(10).unwrap(),
            replacement: order(11, 1, Side::Sell, None, 4),
            received_at: TimestampNs::from_unix_nanos(4),
        }))
        .unwrap();
    assert_eq!(
        engine.risk().snapshot(account(1)).unwrap(),
        RiskSnapshot::from_parts(0, 0, 4, 800, 1)
    );
    engine
        .submit(CallAuctionCommand::MassCancel(CallAuctionMassCancel {
            command_id: CommandId::new(5).unwrap(),
            instrument_id: InstrumentId::new(7).unwrap(),
            instrument_version: InstrumentVersion::new(3).unwrap(),
            account_id: account(1),
            scope: MassCancelScope::All,
            received_at: TimestampNs::from_unix_nanos(5),
        }))
        .unwrap();
    assert_eq!(
        engine.risk().snapshot(account(1)).unwrap(),
        RiskSnapshot::from_parts(0, 0, 0, 0, 0)
    );
    engine.validate().unwrap();
}

#[test]
fn conditional_cancel_asks_before_it_commits() {
    let mut engine = managed();
    engine.submit(submit(2, order(10, 1, Side::Buy, None, 5))).unwrap();
    let declined = engine
        .try_submit_cancel_order_if(cancel(3, 1, 10), |seen| seen.order.quantity.lots() > 5)
        .unwrap();
    assert!(matches!(
        declined,
        ConditionalCallAuctionCommandOutcome::Declined(seen) if seen.order.quantity.lots() == 5
    ));
    assert_eq!(engine.risk().reservation_count(), 1);
    assert_eq!(engine.engine().next_command_sequence(), 3);
    let accepted = engine
        .try_submit_cancel_order_if(cancel(3, 1, 10), |seen| seen.order.quantity.lots() == 5)
        .unwrap();
    assert!(matches!(
        accepted,
        ConditionalCallAuctionCommandOutcome::Reported { observation: Some(_), .. }
    ));
    assert_eq!(engine.risk().reservation_count(), 0);
    let replayed = engine
        .try_submit_cancel_order_if(cancel(3, 1, 10), |_| panic!("asked"))
        .unwrap();
    assert!(matches!(
        replayed,
        ConditionalCallAuctionCommandOutcome::Reported { observation: None, ref report }
            if report.replayed
    ));
    let unknown = engine
        .try_submit_cancel_order_if(cancel(4, 1, 10), |_| panic!("asked"))
        .unwrap();
    assert!(matches!(
        unknown,
        ConditionalCallAuctionCommandOutcome::Reported { observation: None, .. }
    ));
    engine.validate().unwrap();
}

#[test]
fn conditional_amend_and_replace_show_the_order() {
    let mut engine = managed();
    engine.submit(submit(2, order(10, 1, Side::Buy, None, 5))).unwrap();
    let amend = CallAuctionAmendOrder {
        command_id: CommandId::new(3).unwrap(),
        instrument_id: InstrumentId::new(7).unwrap(),
        instrument_version: InstrumentVersion::new(3).unwrap(),
        auction_id: AuctionId::new(1).unwrap(),
        expected_phase_revision: 1,
        account_id: account(1),
        order_id: OrderId::new(10).unwrap(),
        new_quantity: Quantity::new(2).unwrap(),
        received_at: TimestampNs::from_unix_nanos(3),
    };
    assert!(matches!(
        engine
            .try_submit_amend_order_if(amend, |seen| seen.new_quantity.lots() == 2
                && seen.order.quantity.lots() == 5)
            .unwrap(),
        ConditionalCallAuctionCommandOutcome::Reported { observation: Some(_), .. }
    ));
    let replace = |command: u64, lots: u64| CallAuctionReplaceOrder {
        command_id: CommandId::new(command).unwrap(),
        auction_id: AuctionId::new(1).unwrap(),
        expected_phase_revision: 1,
        account_id: account(1),
        target_order_id: OrderId::new(10).unwrap(),
        replacement: order(11, 1, Side::Sell, None, lots),
        received_at: TimestampNs::from_unix_nanos(command),
    };
    let refused = engine
        .try_submit_replace_order_if(replace(4, 9), |_| panic!("asked"))
        .unwrap();
    assert!(matches!(
        refused,
        ConditionalCallAuctionCommandOutcome::Reported { observation: None, .. }
    ));
    assert!(matches!(
        engine
            .try_submit_replace_order_if(replace(5, 3), |seen| seen.target.quantity.lots() != 2)
            .unwrap(),
        ConditionalCallAuctionCommandOutcome::Declined(_)
    ));
    assert!(matches!(
        engine
            .try_submit_replace_order_if(replace(5, 3), |seen| seen.target.quantity.lots() == 2)
            .unwrap(),
        ConditionalCallAuctionCommandOutcome::Reported { observation: Some(_), .. }
    ));
    engine.validate().unwrap();
}

#[test]
fn conditional_mass_cancel_and_uncross_show_the_whole_effect() {
    let mut engine = managed();
    engine.submit(submit(2, order(30, 1, Side::Buy, Some(100), 5))).unwrap();
    engine.submit(submit(3, order(20, 1, Side::Buy, Some(95), 2))).unwrap();
    engine.submit(submit(4, order(40, 2, Side::Sell, Some(90), 3))).unwrap();
    let mass = CallAuctionMassCancel {
        command_id: CommandId::new(5).unwrap(),
        instrument_id: InstrumentId::new(7).unwrap(),
        instrument_version: InstrumentVersion::new(3).unwrap(),
        account_id: account(1),
        scope: MassCancelScope::All,
        received_at: TimestampNs::from_unix_nanos(5),
    };
    let declined = engine
        .try_submit_mass_cancel_if(mass, |seen| {
            assert_eq!(
                seen.orders.iter().map(|order| order.order_id.get()).collect::<Vec<_>>(),
                vec![20, 30]
            );
            false
        })
        .unwrap();
    assert!(matches!(declined, ConditionalCallAuctionOutcome::Declined));
    engine.submit(phase(6, 1, CallAuctionPhase::Frozen)).unwrap();
    let command = uncross(&engine, 7);
    let declined = engine
        .try_submit_uncross_if(command, |seen| {
            assert_eq!(seen.trades().len(), 1);
            assert_eq!(seen.clearing().executable_quantity(), 3);
            assert!(seen.cancellations().is_empty());
            false
        })
        .unwrap();
    assert!(matches!(declined, ConditionalCallAuctionOutcome::Declined));
    let done = engine
        .try_submit_uncross_if(command, |seen| seen.trades().len() == 1)
        .unwrap();
    assert!(matches!(done, ConditionalCallAuctionOutcome::Reported(ref report) if !report.replayed));
    assert_eq!(engine.risk().snapshot(account(2)).unwrap().position_lots, -3);
    engine.validate().unwrap();
}

#[test]
fn a_coupled_checkpoint_restores_auction_and_risk() {
    let mut engine = managed();
    engine.submit(submit(2, order(10, 1, Side::Buy, Some(100), 5))).unwrap();
    engine.submit(submit(3, order(20, 2, Side::Sell, Some(90), 3))).unwrap();
    let checkpoint = engine.checkpoint(1, 3, 9, 5, 6).unwrap();
    let restored = CallAuctionRiskManagedEngine::from_checkpoint_with_limits(
        &checkpoint,
        limits(),
        7,
    )
    .unwrap();
    restored.validate().unwrap();
    for owner in [1, 2] {
        assert_eq!(
            restored.risk().snapshot(account(owner)),
            engine.risk().snapshot(account(owner))
        );
    }
    assert_eq!(restored.risk().reservation_count(), 2);
    assert!(engine.checkpoint(1, 3, 8, 5, 6).is_err());
}

#[test]
fn a_coupled_checkpoint_names_its_first_contradiction() {
    let mut engine = managed();
    engine.submit(submit(2, order(10, 1, Side::Buy, Some(100), 5))).unwrap();
    let checkpoint = engine.checkpoint(1, 3, 7, 5, 6).unwrap();
    let refusal = |checkpoint: &CallAuctionRiskCheckpoint, limits: CallAuctionRiskLimits| {
        CallAuctionRiskManagedEngine::from_checkpoint_with_limits(checkpoint, limits, 8)
            .unwrap_err()
            .detail()
            .to_owned()
    };
    let narrow = CallAuctionRiskLimits::new(CallAuctionRiskLimitsSpec {
        auction: limits().auction(),
        max_registered_accounts: 1,
    })
    .unwrap();
    assert_eq!(
        refusal(&checkpoint, narrow),
        "auction risk checkpoint account count 2 exceeds selected capacity 1"
    );
    let mut unprofiled = checkpoint.share();
    Arc::make_mut(&mut unprofiled.accounts).remove(0);
    assert_eq!(
        refusal(&unprofiled, limits()),
        "auction risk checkpoint active order 10 has no account profile"
    );
    let mut exposed = checkpoint.share();
    Arc::make_mut(&mut exposed.accounts)[1].exposure = RiskSnapshot::from_parts(0, 1, 0, 200, 1);
    assert_eq!(
        refusal(&exposed, limits()),
        "auction risk checkpoint account 2 exposure differs from active reservations"
    );
    let assembled = |first: u64, accounts: Vec<RiskAccountCheckpoint>| {
        CallAuctionRiskCheckpoint::from_parts(
            first,
            (*checkpoint.auction).clone(),
            accounts,
            9,
            10,
        )
        .map_err(|error| error.detail().to_owned())
    };
    let rows = checkpoint.accounts().to_vec();
    let reversed: Vec<RiskAccountCheckpoint> = rows.iter().rev().copied().collect();
    assert_eq!(
        assembled(0, rows.clone()).unwrap_err(),
        "auction risk checkpoint WAL first sequence is zero"
    );
    assert_eq!(
        assembled(u64::MAX, rows.clone()).unwrap_err(),
        "auction risk checkpoint metadata boundary overflows"
    );
    assert_eq!(
        assembled(2, rows.clone()).unwrap_err(),
        "auction risk checkpoint auction boundary does not follow profile metadata"
    );
    assert_eq!(
        assembled(1, reversed).unwrap_err(),
        "auction risk checkpoint accounts are not strictly canonical"
    );
    assert!(assembled(1, rows).is_ok());
}

#[test]
fn a_coupled_restoration_names_the_part_that_it_lacks() {
    let mut engine = managed();
    engine.submit(submit(2, order(10, 1, Side::Buy, Some(100), 5))).unwrap();
    let checkpoint = engine.checkpoint(1, 3, 7, 5, 6).unwrap();
    let auction = || {
        CallAuctionEngine::from_checkpoint_with_limits(
            (*checkpoint.auction).clone(),
            limits().auction(),
            8,
        )
    };
    let ledger = || CallAuctionRiskEngine::try_with_limits(definition(), limits());
    let starved = CallAuctionRiskConstructionError::OrderReservationFailed;
    assert_eq!(
        checkpoint.restored_in(limits(), auction(), Err(starved)).unwrap_err(),
        CallAuctionRiskCheckpointError::Construction(starved)
    );
    checkpoint.restored_in(limits(), auction(), ledger()).unwrap().validate().unwrap();
    let mut repeated = checkpoint.share();
    let row = repeated.accounts[0];
    Arc::make_mut(&mut repeated.accounts)[1] = row;
    assert_eq!(
        repeated.restored_in(limits(), auction(), ledger()).unwrap_err(),
        CallAuctionRiskCheckpointError::Risk(RiskError::DuplicateProfile(account(1)))
    );
    let direct = checkpoint.restored_in(limits(), auction(), ledger()).unwrap();
    assert_eq!(
        checkpoint.replayed_against(limits(), direct, Err(starved)).unwrap_err(),
        CallAuctionRiskCheckpointError::Construction(starved)
    );
    let direct = checkpoint.restored_in(limits(), auction(), ledger()).unwrap();
    let fresh = CallAuctionRiskManagedEngine::try_with_limits(definition(), limits(), 9);
    checkpoint.replayed_against(limits(), direct, fresh).unwrap();
}

#[test]
fn a_coupled_capture_names_its_first_refusal() {
    let mut engine = managed();
    engine.submit(submit(2, order(10, 1, Side::Buy, Some(100), 5))).unwrap();
    let refusal = |first: u64, metadata: u64, last: u64| {
        engine.checkpoint(first, metadata, last, u64::MAX, u64::MAX).unwrap_err().detail().to_owned()
    };
    assert_eq!(
        refusal(0, 3, 8),
        "auction checkpoint WAL boundary does not terminate its history"
    );
    assert_eq!(refusal(0, 3, 7), "auction risk checkpoint WAL first sequence is zero");
    assert_eq!(
        refusal(2, 3, 7),
        "auction risk checkpoint auction boundary does not follow profile metadata"
    );
    let starved = CallAuctionRiskCheckpointError::ResourceReservationFailed {
        resource: CallAuctionRiskCheckpointResource::CaptureAccounts,
        maximum: 2,
    };
    let auction = engine.engine().checkpoint_state(3, 7).unwrap();
    assert_eq!(
        engine.captured_checkpoint(0, auction, Err(starved.clone())).unwrap_err(),
        starved
    );
    let mut capture = engine.capture_checkpoint_candidate(1, 3, 7, 5).unwrap();
    capture.checkpoint.wal_first_sequence = 0;
    assert_eq!(
        capture.verify(u64::MAX, u64::MAX).unwrap_err().detail(),
        "auction risk checkpoint WAL first sequence is zero"
    );
    let mut forged = engine.checkpoint(1, 3, 7, 5, 6).unwrap();
    Arc::make_mut(&mut forged.accounts)[1].exposure.position_lots = 1;
    let capture = CallAuctionRiskCheckpointCapture { checkpoint: forged, limits: limits() };
    assert_eq!(
        capture.verify(5, 6).unwrap_err().detail(),
        "auction risk checkpoint direct state differs from coupled history replay"
    );
}
