use call_auction::allocation::AuctionAllocationPolicy;
use call_auction::auction::{AuctionOrderConstraint, AuctionPricePolicy, AuctionPriorityClass};
use call_auction::book_state::CallAuctionBook;
use call_auction::book_types::{
    CallAuctionAdmissionError, CallAuctionAmendError, CallAuctionBookLimits,
    CallAuctionBookLimitsError, CallAuctionBookLimitsSpec, CallAuctionCancelError,
    CallAuctionCapacity, CallAuctionCommitError, CallAuctionConstructionError,
    CallAuctionMassCancelError, CallAuctionOrder, CallAuctionPlanError, CallAuctionPrepareError,
    CallAuctionRemainderPolicy, CallAuctionReplaceError, CallAuctionSelfTradePolicy,
    CallAuctionUncrossPolicy,
};
use call_auction::domain::{
    AccountId, InstrumentId, InstrumentVersion, MassCancelScope, OrderId, Price, Quantity, Side,
};
use call_auction::instrument::{
    AdmissionError, InstrumentDefinition, PriceRules, QuantityRules,
};

fn definition() -> InstrumentDefinition {
    InstrumentDefinition::new(
        InstrumentId::new(7).unwrap(),
        InstrumentVersion::new(3).unwrap(),
        PriceRules::new(0, 5, Price::from_raw(-100), Price::from_raw(200)).unwrap(),
        QuantityRules::new(1, 1, 1_000).unwrap(),
    )
}

fn book() -> CallAuctionBook {
    let limits = CallAuctionBookLimits::new(CallAuctionBookLimitsSpec {
        max_active_orders: 4,
        max_price_levels_per_side: 2,
        max_accepted_order_ids: 6,
        max_prepared_uncrosses: 1,
    })
    .unwrap();
    CallAuctionBook::try_with_limits(definition(), limits, 1).unwrap()
}

fn id(value: u64) -> OrderId {
    OrderId::new(value).unwrap()
}

fn account(value: u64) -> AccountId {
    AccountId::new(value).unwrap()
}

fn order(value: u64, owner: u64, side: Side, limit: Option<i64>, lots: u64) -> CallAuctionOrder {
    CallAuctionOrder::new(
        id(value),
        account(owner),
        InstrumentId::new(7).unwrap(),
        InstrumentVersion::new(3).unwrap(),
        side,
        match limit {
            Some(raw) => AuctionOrderConstraint::Limit(Price::from_raw(raw)),
            None => AuctionOrderConstraint::Market,
        },
        Quantity::new(lots).unwrap(),
        AuctionPriorityClass::highest(),
    )
}

fn policy(self_trade: CallAuctionSelfTradePolicy) -> CallAuctionUncrossPolicy {
    CallAuctionUncrossPolicy::new(
        AuctionAllocationPolicy::PriceTime,
        CallAuctionRemainderPolicy::CancelAll,
        self_trade,
    )
}

#[test]
fn limits_name_the_first_fault() {
    let spec = CallAuctionBookLimitsSpec {
        max_active_orders: 2,
        max_price_levels_per_side: 3,
        max_accepted_order_ids: 4,
        max_prepared_uncrosses: 1,
    };
    assert_eq!(
        CallAuctionBookLimits::new(spec).unwrap_err(),
        CallAuctionBookLimitsError::PriceLevelsExceedActiveOrders
    );
    assert_eq!(
        CallAuctionBookLimits::new(CallAuctionBookLimitsSpec {
            max_active_orders: 0,
            ..spec
        })
        .unwrap_err(),
        CallAuctionBookLimitsError::ZeroActiveOrders
    );
    assert_eq!(
        CallAuctionBookLimits::new(CallAuctionBookLimitsSpec {
            max_price_levels_per_side: 1,
            max_accepted_order_ids: 1,
            ..spec
        })
        .unwrap_err(),
        CallAuctionBookLimitsError::ActiveOrdersExceedAcceptedOrderIds
    );
    let huge = CallAuctionBookLimits::new(CallAuctionBookLimitsSpec {
        max_active_orders: usize::MAX,
        max_price_levels_per_side: 1,
        max_accepted_order_ids: usize::MAX,
        max_prepared_uncrosses: 1,
    })
    .unwrap();
    assert_eq!(
        CallAuctionBook::try_with_limits(definition(), huge, 1).unwrap_err(),
        CallAuctionConstructionError::CapacityReservationFailed(CallAuctionCapacity::ActiveOrders)
    );
}

#[test]
fn admission_orders_priority_and_refuses_duplicates() {
    let mut book = book();
    let first = book.admit_order(order(10, 1, Side::Buy, Some(100), 5)).unwrap();
    let second = book.admit_order(order(20, 2, Side::Buy, Some(100), 6)).unwrap();
    assert_eq!(first.priority_sequence, 1);
    assert_eq!(second.priority_sequence, 2);
    assert_eq!(book.state_revision(), 2);
    assert_eq!(
        book.admit_order(order(10, 1, Side::Buy, Some(100), 5)).unwrap_err(),
        CallAuctionAdmissionError::DuplicateOrderId
    );
    assert_eq!(
        book.admit_order(order(30, 1, Side::Buy, Some(101), 5)).unwrap_err(),
        CallAuctionAdmissionError::Instrument(AdmissionError::PriceOffTick)
    );
    assert_eq!(book.state_revision(), 2);
    let depth = book.limit_depth(Side::Buy, 8);
    assert_eq!(depth.len(), 1);
    assert_eq!(depth[0].quantity(), 11);
    assert_eq!(depth[0].order_count(), 2);
    book.validate().unwrap();
}

#[test]
fn admission_respects_every_capacity() {
    let mut book = book();
    book.admit_order(order(1, 1, Side::Buy, Some(100), 1)).unwrap();
    book.admit_order(order(2, 1, Side::Buy, Some(95), 1)).unwrap();
    assert_eq!(
        book.admit_order(order(3, 1, Side::Buy, Some(90), 1)).unwrap_err(),
        CallAuctionAdmissionError::CapacityExceeded(CallAuctionCapacity::BidPriceLevels)
    );
    book.admit_order(order(3, 1, Side::Sell, None, 1)).unwrap();
    book.admit_order(order(4, 1, Side::Sell, None, 1)).unwrap();
    assert_eq!(
        book.admit_order(order(5, 1, Side::Sell, None, 1)).unwrap_err(),
        CallAuctionAdmissionError::CapacityExceeded(CallAuctionCapacity::ActiveOrders)
    );
    book.cancel(account(1), id(1)).unwrap();
    book.admit_order(order(5, 1, Side::Sell, None, 1)).unwrap();
    book.cancel(account(1), id(2)).unwrap();
    book.admit_order(order(6, 1, Side::Sell, None, 1)).unwrap();
    book.cancel(account(1), id(3)).unwrap();
    assert_eq!(
        book.admit_order(order(7, 1, Side::Sell, None, 1)).unwrap_err(),
        CallAuctionAdmissionError::CapacityExceeded(CallAuctionCapacity::AcceptedOrderIds)
    );
    book.validate().unwrap();
}

#[test]
fn cancellation_is_for_the_owner_only() {
    let mut book = book();
    book.admit_order(order(10, 1, Side::Buy, None, 5)).unwrap();
    assert_eq!(
        book.cancel(account(2), id(10)).unwrap_err(),
        CallAuctionCancelError::AccountMismatch
    );
    assert_eq!(
        book.cancel(account(1), id(11)).unwrap_err(),
        CallAuctionCancelError::UnknownOrder
    );
    let removed = book.cancel(account(1), id(10)).unwrap();
    assert_eq!(removed.quantity.lots(), 5);
    assert!(book.order(id(10)).is_none());
    assert_eq!(
        book.admit_order(order(10, 1, Side::Buy, None, 5)).unwrap_err(),
        CallAuctionAdmissionError::DuplicateOrderId
    );
    assert_eq!(book.market_quantity(Side::Buy), 0);
}

#[test]
fn amendment_keeps_priority_and_must_reduce() {
    let mut book = book();
    book.admit_order(order(10, 1, Side::Buy, Some(50), 5)).unwrap();
    book.admit_order(order(20, 1, Side::Buy, Some(50), 5)).unwrap();
    assert_eq!(
        book.amend(account(1), id(10), Quantity::new(5).unwrap()).unwrap_err(),
        CallAuctionAmendError::QuantityNotReduced
    );
    assert_eq!(
        book.amend(account(2), id(10), Quantity::new(4).unwrap()).unwrap_err(),
        CallAuctionAmendError::AccountMismatch
    );
    book.amend(account(1), id(10), Quantity::new(2).unwrap()).unwrap();
    let left = book.order(id(10)).unwrap();
    assert_eq!(left.quantity.lots(), 2);
    assert_eq!(left.priority_sequence, 1);
    assert_eq!(book.limit_depth(Side::Buy, 1)[0].quantity(), 7);
    book.validate().unwrap();
}

#[test]
fn replacement_is_atomic() {
    let mut book = book();
    book.admit_order(order(10, 1, Side::Buy, Some(50), 5)).unwrap();
    assert_eq!(
        book.replace(account(1), id(10), order(11, 2, Side::Buy, Some(55), 3)).unwrap_err(),
        CallAuctionReplaceError::ReplacementAccountMismatch
    );
    assert_eq!(
        book.replace(account(1), id(12), order(11, 1, Side::Buy, Some(55), 3)).unwrap_err(),
        CallAuctionReplaceError::Target(CallAuctionCancelError::UnknownOrder)
    );
    assert_eq!(
        book.replace(account(1), id(10), order(10, 1, Side::Buy, Some(55), 3)).unwrap_err(),
        CallAuctionReplaceError::Replacement(CallAuctionAdmissionError::DuplicateOrderId)
    );
    assert_eq!(book.state_revision(), 1);
    book.replace(account(1), id(10), order(11, 1, Side::Buy, Some(55), 3)).unwrap();
    assert_eq!(book.state_revision(), 2);
    assert!(book.order(id(10)).is_none());
    assert_eq!(book.order(id(11)).unwrap().priority_sequence, 2);
    assert_eq!(book.best_limit_price(Side::Buy), Some(Price::from_raw(55)));
    book.validate().unwrap();
}

#[test]
fn mass_cancel_selects_sides_in_identity_order() {
    let mut book = book();
    book.admit_order(order(30, 1, Side::Buy, Some(50), 3)).unwrap();
    book.admit_order(order(20, 1, Side::Sell, None, 2)).unwrap();
    book.admit_order(order(10, 1, Side::Buy, None, 1)).unwrap();
    book.admit_order(order(40, 2, Side::Buy, None, 9)).unwrap();
    assert_eq!(
        book.try_account_active_order_ids(account(1), MassCancelScope::All).unwrap(),
        vec![id(10), id(20), id(30)]
    );
    let expected = book
        .preflight_mass_cancel(account(1), MassCancelScope::Side(Side::Buy))
        .unwrap();
    assert_eq!(expected.cancelled_order_count(), 2);
    let mut full = vec![book.order(id(40)).unwrap()];
    assert_eq!(
        book.mass_cancel_into(account(1), MassCancelScope::All, &mut full).unwrap_err(),
        CallAuctionMassCancelError::OutputNotEmpty
    );
    let mut small = Vec::new();
    assert_eq!(
        book.mass_cancel_into(account(1), MassCancelScope::All, &mut small).unwrap_err(),
        CallAuctionMassCancelError::OutputCapacityExceeded {
            required: 3,
            available: 0
        }
    );
    let mut output = Vec::with_capacity(4);
    let result = book
        .mass_cancel_into(account(1), MassCancelScope::Side(Side::Buy), &mut output)
        .unwrap();
    assert_eq!(result.cancelled_quantity_lots(), 4);
    assert_eq!(
        output.iter().map(|order| order.order_id).collect::<Vec<_>>(),
        vec![id(10), id(30)]
    );
    assert_eq!(book.state_revision(), 5);
    assert_eq!(book.active_order_count(), 2);
    book.validate().unwrap();
}

#[test]
fn uncross_trades_at_one_price_and_cancels_remainders() {
    let mut book = book();
    book.admit_order(order(1, 1, Side::Buy, Some(100), 5)).unwrap();
    book.admit_order(order(2, 1, Side::Buy, Some(95), 5)).unwrap();
    book.admit_order(order(3, 2, Side::Sell, Some(95), 7)).unwrap();
    let band = book.instrument_price_band();
    let indicative = book
        .indicative_clearing(
            band,
            Price::from_raw(95),
            AuctionPricePolicy::reference_then_lower(),
        )
        .unwrap()
        .unwrap();
    assert_eq!(indicative.clearing().price(), Price::from_raw(95));
    assert_eq!(indicative.clearing().executable_quantity(), 7);
    let prepared = book
        .prepare_uncross(indicative, policy(CallAuctionSelfTradePolicy::Permit))
        .unwrap();
    assert_eq!(
        book.prepare_uncross(indicative, policy(CallAuctionSelfTradePolicy::Permit)).unwrap_err(),
        CallAuctionPrepareError::PreparationCapacityExhausted { maximum: 1 }
    );
    let uncross = book.commit_uncross(prepared).unwrap();
    let trades: Vec<(u64, u64, u64, u64)> = uncross
        .trades()
        .iter()
        .map(|trade| {
            (
                trade.trade_id().get(),
                trade.buy_order_id().get(),
                trade.sell_order_id().get(),
                trade.quantity().lots(),
            )
        })
        .collect();
    assert_eq!(trades, vec![(1, 1, 3, 5), (2, 2, 3, 2)]);
    assert_eq!(uncross.cancellations().len(), 1);
    assert_eq!(uncross.cancellations()[0].quantity().lots(), 3);
    assert_eq!(uncross.cancellations()[0].executed_quantity_lots(), 2);
    assert_eq!(book.active_order_count(), 0);
    assert_eq!(book.next_trade_id(), 3);
    assert!(book.release_uncross(uncross).is_ok());
    book.validate().unwrap();
}

#[test]
fn preparations_expire_with_the_revision() {
    let mut book = book();
    book.admit_order(order(1, 1, Side::Buy, None, 5)).unwrap();
    book.admit_order(order(2, 1, Side::Sell, Some(50), 5)).unwrap();
    let band = book.instrument_price_band();
    let indicative = book
        .indicative_clearing(
            band,
            Price::from_raw(50),
            AuctionPricePolicy::reference_then_lower(),
        )
        .unwrap()
        .unwrap();
    assert!(matches!(
        book.prepare_uncross(indicative, policy(CallAuctionSelfTradePolicy::Abort)).unwrap_err(),
        CallAuctionPrepareError::SelfTradeWouldOccur { .. }
    ));
    let prepared = book
        .prepare_uncross(indicative, policy(CallAuctionSelfTradePolicy::Permit))
        .unwrap();
    book.cancel(account(1), id(1)).unwrap();
    let refused = book.commit_uncross(prepared).unwrap_err();
    assert_eq!(
        refused.error,
        CallAuctionCommitError::StalePreparation {
            observed: 2,
            current: 3
        }
    );
    assert_eq!(
        book.prepare_uncross(indicative, policy(CallAuctionSelfTradePolicy::Permit)).unwrap_err(),
        CallAuctionPrepareError::Plan(CallAuctionPlanError::StaleRevision {
            observed: 2,
            current: 3
        })
    );
    let other = CallAuctionBook::try_new(definition(), 2);
    let mut other = other.unwrap();
    assert_eq!(
        other.prepare_uncross(indicative, policy(CallAuctionSelfTradePolicy::Permit)).unwrap_err(),
        CallAuctionPrepareError::Plan(CallAuctionPlanError::ForeignBook)
    );
}

#[test]
fn a_mass_cancel_needs_room_for_every_selected_order() {
    let mut book = book();
    book.admit_order(order(30, 1, Side::Buy, Some(100), 5)).unwrap();
    book.admit_order(order(10, 1, Side::Sell, Some(150), 4)).unwrap();
    book.admit_order(order(20, 2, Side::Sell, Some(150), 3)).unwrap();
    let revision = book.state_revision();
    let mut output = Vec::new();
    assert_eq!(
        book.mass_cancel_within(account(1), MassCancelScope::All, 1, &mut output).unwrap_err(),
        CallAuctionMassCancelError::OutputCapacityExceeded {
            required: 2,
            available: 1,
        }
    );
    assert!(output.is_empty());
    assert_eq!(book.state_revision(), revision);
    assert_eq!(book.active_order_count(), 3);
    book.mass_cancel_within(account(1), MassCancelScope::All, 2, &mut output).unwrap();
    let canceled: Vec<u64> = output.iter().map(|order| order.order_id.get()).collect();
    assert_eq!(canceled, vec![10, 30]);
    assert_eq!(
        book.mass_cancel_within(account(2), MassCancelScope::All, 9, &mut output).unwrap_err(),
        CallAuctionMassCancelError::OutputNotEmpty
    );
    assert_eq!(book.active_order_count(), 1);
    book.validate().unwrap();
}

#[test]
fn an_observed_clearing_allocates_under_every_policy() {
    for allocation in [AuctionAllocationPolicy::PriceTime, AuctionAllocationPolicy::ProRataTime] {
        let mut book = book();
        book.admit_order(order(1, 1, Side::Buy, None, 4)).unwrap();
        book.admit_order(order(2, 1, Side::Buy, Some(100), 5)).unwrap();
        book.admit_order(order(3, 2, Side::Sell, Some(95), 6)).unwrap();
        book.admit_order(order(4, 3, Side::Sell, Some(120), 2)).unwrap();
        let band = book.instrument_price_band();
        let indicative = book
            .indicative_clearing(
                band,
                Price::from_raw(95),
                AuctionPricePolicy::reference_then_lower(),
            )
            .unwrap()
            .unwrap();
        assert_eq!(indicative.clearing().executable_quantity(), 6);
        let prepared = book
            .prepare_uncross(
                indicative,
                CallAuctionUncrossPolicy::new(
                    allocation,
                    CallAuctionRemainderPolicy::CancelAll,
                    CallAuctionSelfTradePolicy::Permit,
                ),
            )
            .unwrap();
        let uncross = book.commit_uncross(prepared).unwrap();
        let lots: u64 = uncross.trades().iter().map(|trade| trade.quantity().lots()).sum();
        assert_eq!(lots, 6);
        assert!(book.release_uncross(uncross).is_ok());
        book.validate().unwrap();
    }
}
