use std::sync::Arc;

use call_auction::allocation::AuctionAllocationPolicy;
use call_auction::auction::AuctionPricePolicy;
use call_auction::auction_engine::CallAuctionEngine;
use call_auction::book_types::{
    CallAuctionRemainderPolicy, CallAuctionSelfTradePolicy, CallAuctionUncrossPolicy,
};
use call_auction::domain::{
    AuctionId, CommandId, InstrumentId, InstrumentVersion, Price, TimestampNs,
};
use call_auction::engine_types::{
    CallAuctionCommand, CallAuctionCommandOutcome, CallAuctionEventKind, CallAuctionPhase,
    CallAuctionPhaseControl, CallAuctionRejectReason, CallAuctionUncrossCommand,
};
use call_auction::instrument::{InstrumentDefinition, PriceRules, QuantityRules};

fn definition() -> InstrumentDefinition {
    InstrumentDefinition::new(
        InstrumentId::new(991).unwrap(),
        InstrumentVersion::new(1).unwrap(),
        PriceRules::new(0, 1, Price::from_raw(0), Price::from_raw(100)).unwrap(),
        QuantityRules::new(1, 1, 100).unwrap(),
    )
}

#[test]
fn invalid_transition_precedes_unused_exhausted_phase_revision() {
    let mut engine = CallAuctionEngine::try_new(definition(), 1).unwrap();
    engine.phase_revision = u64::MAX;
    let report = engine
        .submit(CallAuctionCommand::PhaseControl(CallAuctionPhaseControl {
            command_id: CommandId::new(1).unwrap(),
            instrument_id: engine.book.definition().instrument_id(),
            instrument_version: engine.book.definition().version(),
            auction_id: AuctionId::new(1).unwrap(),
            expected_phase_revision: u64::MAX,
            target_phase: CallAuctionPhase::Closed,
            received_at: TimestampNs::from_unix_nanos(1),
        }))
        .unwrap();
    assert_eq!(
        report.outcome,
        CallAuctionCommandOutcome::Rejected(CallAuctionRejectReason::InvalidPhaseTransition {
            from: CallAuctionPhase::Closed,
            to: CallAuctionPhase::Closed,
        })
    );
}

#[test]
fn no_execution_precedes_unused_exhausted_phase_revision() {
    let mut engine = CallAuctionEngine::try_new(definition(), 1).unwrap();
    let auction_id = AuctionId::new(1).unwrap();
    engine.phase = CallAuctionPhase::Frozen;
    engine.phase_revision = u64::MAX;
    engine.active_auction_id = Some(auction_id);
    engine.last_auction_id = Some(auction_id);
    let report = engine
        .submit(CallAuctionCommand::Uncross(CallAuctionUncrossCommand {
            command_id: CommandId::new(1).unwrap(),
            instrument_id: engine.book.definition().instrument_id(),
            instrument_version: engine.book.definition().version(),
            auction_id,
            expected_phase_revision: u64::MAX,
            price_band: engine.book.instrument_price_band(),
            reference_price: Price::from_raw(50),
            price_policy: AuctionPricePolicy::reference_then_lower(),
            uncross_policy: CallAuctionUncrossPolicy::new(
                AuctionAllocationPolicy::PriceTime,
                CallAuctionRemainderPolicy::CancelAll,
                CallAuctionSelfTradePolicy::Permit,
            ),
            received_at: TimestampNs::from_unix_nanos(1),
        }))
        .unwrap();
    assert_eq!(
        report.outcome,
        CallAuctionCommandOutcome::Rejected(CallAuctionRejectReason::NoExecutableInterest)
    );
}

#[test]
fn offline_audit_rejects_corrupt_cached_phase_grammar() {
    let mut engine = CallAuctionEngine::try_new(definition(), 1).unwrap();
    let command_id = CommandId::new(1).unwrap();
    engine
        .submit(CallAuctionCommand::PhaseControl(CallAuctionPhaseControl {
            command_id,
            instrument_id: engine.book.definition().instrument_id(),
            instrument_version: engine.book.definition().version(),
            auction_id: AuctionId::new(1).unwrap(),
            expected_phase_revision: 0,
            target_phase: CallAuctionPhase::Collecting,
            received_at: TimestampNs::from_unix_nanos(1),
        }))
        .unwrap();
    engine.validate().unwrap();

    let position = engine.reports.get(command_id).unwrap();
    let events = Arc::make_mut(&mut engine.history[position].report.events.events);
    let CallAuctionEventKind::PhaseChanged { revision, .. } = &mut events[0].kind else {
        unreachable!();
    };
    *revision = 2;
    assert_eq!(
        engine.validate().unwrap_err().detail(),
        "auction cached report violates command/event grammar"
    );
}
