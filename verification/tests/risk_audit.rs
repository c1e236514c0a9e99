use call_auction::auction::{AuctionOrderConstraint, AuctionPriorityClass};
use call_auction::auction_risk::{
    CallAuctionRiskEngine, CallAuctionRiskLimits, CallAuctionRiskLimitsSpec,
};
use call_auction::book_types::{
    CallAuctionBookLimits, CallAuctionBookLimitsSpec, CallAuctionOrderSnapshot,
};
use call_auction::domain::{
    AccountId, InstrumentId, InstrumentVersion, OrderId, Price, Quantity, Side,
};
use call_auction::engine_types::{CallAuctionEngineLimits, CallAuctionEngineLimitsSpec};
use call_auction::instrument::{InstrumentDefinition, PriceRules, QuantityRules};
use call_auction::risk::{AccountRiskState, RiskLimitSpec, RiskLimits, RiskProfile, RiskSnapshot};
use call_auction::risk_checkpoint::{
    reserve_call_auction_risk_checkpoint_vec, CallAuctionRiskCheckpointError,
    CallAuctionRiskCheckpointResource,
};

fn definition() -> InstrumentDefinition {
    InstrumentDefinition::new(
        InstrumentId::new(41).unwrap(),
        InstrumentVersion::new(7).unwrap(),
        PriceRules::new(0, 5, Price::from_raw(-100), Price::from_raw(200)).unwrap(),
        QuantityRules::new(1, 1, 1_000).unwrap(),
    )
}

fn risk_engine() -> CallAuctionRiskEngine {
    let book = CallAuctionBookLimits::new(CallAuctionBookLimitsSpec {
        max_active_orders: 4,
        max_price_levels_per_side: 4,
        max_accepted_order_ids: 8,
        max_prepared_uncrosses: 2,
    })
    .unwrap();
    let auction = CallAuctionEngineLimits::new(CallAuctionEngineLimitsSpec {
        book,
        max_retained_commands: 16,
        terminal_command_reserve: 6,
        max_report_events: 9,
    })
    .unwrap();
    let limits = CallAuctionRiskLimits::new(CallAuctionRiskLimitsSpec {
        auction,
        max_registered_accounts: 2,
    })
    .unwrap();
    let mut risk = CallAuctionRiskEngine::try_with_limits(definition(), limits).unwrap();
    let profile = RiskProfile::new(
        AccountRiskState::Active,
        0,
        RiskLimits::new(RiskLimitSpec {
            max_order_quantity_lots: 1_000,
            max_order_notional: 200_000,
            max_open_orders: 4,
            max_open_quantity_lots: 4_000,
            max_open_notional: 800_000,
            max_long_position_lots: i128::MAX.unsigned_abs(),
            max_short_position_lots: i128::MAX.unsigned_abs(),
        })
        .unwrap(),
    )
    .unwrap();
    risk.register_account(AccountId::new(1).unwrap(), profile)
        .unwrap();
    for (priority_sequence, order_id) in [10_u64, 20].into_iter().enumerate() {
        risk.insert_reservation(CallAuctionOrderSnapshot {
            order_id: OrderId::new(order_id).unwrap(),
            account_id: AccountId::new(1).unwrap(),
            side: Side::Buy,
            constraint: AuctionOrderConstraint::Market,
            quantity: Quantity::new(1).unwrap(),
            priority_class: AuctionPriorityClass::highest(),
            priority_sequence: u64::try_from(priority_sequence).unwrap() + 1,
        });
    }
    risk.validate().unwrap();
    risk
}

#[test]
fn allocation_free_risk_audit_rejects_cycles_and_unlinked_reservations() {
    let head = OrderId::new(10).unwrap();
    let tail = OrderId::new(20).unwrap();

    let mut cycle = risk_engine();
    cycle.reservations.get_mut(tail).unwrap().next = Some(head);
    assert!(cycle
        .validate()
        .unwrap_err()
        .detail()
        .contains("account-index cycle"));

    let mut unlinked = risk_engine();
    unlinked.reservations.get_mut(head).unwrap().next = None;
    let account = unlinked
        .accounts
        .get_mut(AccountId::new(1).unwrap())
        .unwrap();
    account.reservation_tail = Some(head);
    account.exposure = RiskSnapshot::from_parts(0, 1, 0, 200, 1);
    assert!(unlinked
        .validate()
        .unwrap_err()
        .detail()
        .contains("absent from its account index"));
}

#[test]
fn unrepresentable_checkpoint_capture_is_typed_by_exact_resource() {
    let error = reserve_call_auction_risk_checkpoint_vec::<RiskSnapshot>(
        usize::MAX,
        CallAuctionRiskCheckpointResource::CaptureAccounts,
    )
    .unwrap_err();
    assert_eq!(
        error,
        CallAuctionRiskCheckpointError::ResourceReservationFailed {
            resource: CallAuctionRiskCheckpointResource::CaptureAccounts,
            maximum: usize::MAX,
        }
    );
    assert_eq!(
        error.resource(),
        Some(CallAuctionRiskCheckpointResource::CaptureAccounts)
    );
    assert!(error.is_resource_exhaustion());
    assert!(error.is_operational_failure());
}

#[test]
fn reservation_links_survive_middle_partial_head_and_last_removal() {
    let mut risk = risk_engine();
    let third = OrderId::new(30).unwrap();
    risk.insert_reservation(CallAuctionOrderSnapshot {
        order_id: third,
        account_id: AccountId::new(1).unwrap(),
        side: Side::Buy,
        constraint: AuctionOrderConstraint::Market,
        quantity: Quantity::new(2).unwrap(),
        priority_class: AuctionPriorityClass::highest(),
        priority_sequence: 3,
    });
    risk.validate().unwrap();

    risk.remove_reservation(OrderId::new(20).unwrap());
    risk.validate().unwrap();
    risk.decrement_reservation(third, 1);
    risk.validate().unwrap();
    risk.remove_reservation(OrderId::new(10).unwrap());
    risk.validate().unwrap();
    risk.remove_reservation(third);
    risk.validate().unwrap();
    assert_eq!(risk.reservation_count(), 0);
}
