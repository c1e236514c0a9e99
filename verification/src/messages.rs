//! Diagnostic texts of failures.

use vstd::prelude::*;

use crate::allocation::AuctionAllocationError;
use crate::auction::AuctionError;
use crate::auction_risk::{CallAuctionRiskConstructionError, CallAuctionRiskLimitsError};
use crate::book_types::{
    CallAuctionAdmissionError, CallAuctionAmendError, CallAuctionBookLimitsError,
    CallAuctionBookQueryError, CallAuctionBookQueryResource, CallAuctionCancelError,
    CallAuctionCapacity, CallAuctionCommitError, CallAuctionConstructionError,
    CallAuctionMassCancelError, CallAuctionPlanError, CallAuctionPrepareError,
    CallAuctionReplaceError,
};
use crate::domain::{AuctionId, Side};
use crate::engine_checkpoint::CallAuctionCheckpointError;
use crate::engine_types::{
    CallAuctionEngineCapacity, CallAuctionEngineConstructionError, CallAuctionEngineError,
    CallAuctionEngineLimitsError, CallAuctionQueryError,
};
use crate::instrument::AdmissionError;
use crate::market_data_types::{
    CallAuctionMarketDataConstructionError, CallAuctionMarketDataError,
    CallAuctionMarketDataLimitsError, CallAuctionMarketDataResource,
};
use crate::risk::RiskError;
use crate::risk_checkpoint::{CallAuctionRiskCheckpointError, CallAuctionRiskCheckpointResource};

verus! {

/// A decimal digit.
pub open spec fn digit(value: nat) -> char {
    seq!['0', '1', '2', '3', '4', '5', '6', '7', '8', '9'][value as int]
}

/// Decimal digits of a number, without leading zeros.
pub open spec fn decimal(value: nat) -> Seq<char>
    decreases value,
{
    if value < 10 {
        seq![digit(value)]
    } else {
        decimal(value / 10).push(digit(value % 10))
    }
}

/// Returns the text of one digit.
fn digit_text(value: u128) -> (r: &'static str)
    requires
        value < 10,
    ensures
        r@ == seq![digit(value as nat)],
{
    proof {
        reveal_strlit("0");
        reveal_strlit("1");
        reveal_strlit("2");
        reveal_strlit("3");
        reveal_strlit("4");
        reveal_strlit("5");
        reveal_strlit("6");
        reveal_strlit("7");
        reveal_strlit("8");
        reveal_strlit("9");
    }
    let text = match value {
        0 => "0",
        1 => "1",
        2 => "2",
        3 => "3",
        4 => "4",
        5 => "5",
        6 => "6",
        7 => "7",
        8 => "8",
        _ => "9",
    };
    assert(text@ =~= seq![digit(value as nat)]);
    text
}

/// Appends a number in decimal.
pub(crate) fn push_decimal(text: &mut String, value: u128)
    ensures
        final(text)@ == old(text)@ + decimal(value as nat),
    decreases value,
{
    if value >= 10 {
        push_decimal(text, value / 10);
    }
    text.append(digit_text(value % 10));
    proof {
        let shorter = decimal((value / 10) as nat);
        if value >= 10 {
            assert(decimal(value as nat) =~= shorter + seq![digit((value % 10) as nat)]);
            assert(text@ =~= old(text)@ + (shorter + seq![digit((value % 10) as nat)]));
        }
    }
}

impl Side {
    /// The name of the side.
    pub open spec fn text(self) -> Seq<char> {
        match self {
            Side::Buy => "Buy"@,
            Side::Sell => "Sell"@,
        }
    }

    /// Returns the name of the side.
    pub fn name(self) -> (r: &'static str)
        ensures
            r@ == self.text(),
    {
        match self {
            Side::Buy => "Buy",
            Side::Sell => "Sell",
        }
    }
}

impl AdmissionError {
    /// The name of the violated rule.
    pub open spec fn text(self) -> Seq<char> {
        match self {
            AdmissionError::WrongInstrument => "WrongInstrument"@,
            AdmissionError::WrongVersion => "WrongVersion"@,
            AdmissionError::PriceOffTick => "PriceOffTick"@,
            AdmissionError::PriceOutsideCollar => "PriceOutsideCollar"@,
            AdmissionError::QuantityBelowMinimum => "QuantityBelowMinimum"@,
            AdmissionError::QuantityAboveMaximum => "QuantityAboveMaximum"@,
            AdmissionError::QuantityOffIncrement => "QuantityOffIncrement"@,
        }
    }

    /// Returns the name of the violated rule.
    pub fn name(self) -> (r: &'static str)
        ensures
            r@ == self.text(),
    {
        match self {
            AdmissionError::WrongInstrument => "WrongInstrument",
            AdmissionError::WrongVersion => "WrongVersion",
            AdmissionError::PriceOffTick => "PriceOffTick",
            AdmissionError::PriceOutsideCollar => "PriceOutsideCollar",
            AdmissionError::QuantityBelowMinimum => "QuantityBelowMinimum",
            AdmissionError::QuantityAboveMaximum => "QuantityAboveMaximum",
            AdmissionError::QuantityOffIncrement => "QuantityOffIncrement",
        }
    }
}

/// The text of an optional cycle.
pub open spec fn cycle_text(cycle: Option<AuctionId>) -> Seq<char> {
    match cycle {
        Some(id) => "Some("@ + decimal(id.value as nat) + ")"@,
        None => "None"@,
    }
}

/// Returns the text of an optional cycle.
fn cycle_message(cycle: Option<AuctionId>) -> (r: String)
    ensures
        r@ == cycle_text(cycle),
{
    match cycle {
        Some(id) => {
            let mut text = String::from_str("Some(");
            push_decimal(&mut text, id.value as u128);
            text.append(")");
            text
        },
        None => String::from_str("None"),
    }
}

impl AuctionError {
    /// The diagnostic text.
    pub open spec fn text(self) -> Seq<char> {
        match self {
            AuctionError::InvalidTickSize(tick_size) => {
                "invalid auction tick size "@ + decimal(tick_size as nat)
            },
            AuctionError::PriceBandInverted => "auction price band is inverted"@,
            AuctionError::PriceBandMinimumOffGrid => "auction price-band minimum is off grid"@,
            AuctionError::PriceBandMaximumOffGrid => "auction price-band maximum is off grid"@,
            AuctionError::ZeroLevelQuantity => "auction level quantity is zero"@,
            AuctionError::PriceOffGrid { side, index } => {
                "auction "@ + side.text() + " level at index "@ + decimal(index as nat)
                    + " is off grid"@
            },
            AuctionError::ReferencePriceOffGrid => "auction reference price is off grid"@,
            AuctionError::NonCanonicalLevels { side, index } => {
                "auction "@ + side.text() + " levels are noncanonical at index "@
                    + decimal(index as nat)
            },
            AuctionError::QuantityOverflow(side) => {
                "auction "@ + side.text() + " aggregate quantity overflow"@
            },
            AuctionError::QuantityUnderflow(side) => {
                "auction "@ + side.text() + " aggregate quantity underflow"@
            },
        }
    }

    /// Returns the diagnostic text.
    pub fn message(self) -> (r: String)
        ensures
            r@ == self.text(),
    {
        match self {
            AuctionError::InvalidTickSize(tick_size) => {
                let mut text = String::from_str("invalid auction tick size ");
                push_decimal(&mut text, tick_size as u128);
                text
            },
            AuctionError::PriceBandInverted => String::from_str("auction price band is inverted"),
            AuctionError::PriceBandMinimumOffGrid => {
                String::from_str("auction price-band minimum is off grid")
            },
            AuctionError::PriceBandMaximumOffGrid => {
                String::from_str("auction price-band maximum is off grid")
            },
            AuctionError::ZeroLevelQuantity => String::from_str("auction level quantity is zero"),
            AuctionError::PriceOffGrid { side, index } => {
                let mut text = String::from_str("auction ");
                text.append(side.name());
                text.append(" level at index ");
                push_decimal(&mut text, index as u128);
                text.append(" is off grid");
                text
            },
            AuctionError::ReferencePriceOffGrid => {
                String::from_str("auction reference price is off grid")
            },
            AuctionError::NonCanonicalLevels { side, index } => {
                let mut text = String::from_str("auction ");
                text.append(side.name());
                text.append(" levels are noncanonical at index ");
                push_decimal(&mut text, index as u128);
                text
            },
            AuctionError::QuantityOverflow(side) => {
                let mut text = String::from_str("auction ");
                text.append(side.name());
                text.append(" aggregate quantity overflow");
                text
            },
            AuctionError::QuantityUnderflow(side) => {
                let mut text = String::from_str("auction ");
                text.append(side.name());
                text.append(" aggregate quantity underflow");
                text
            },
        }
    }
}

impl AuctionAllocationError {
    /// The diagnostic text.
    pub open spec fn text(self) -> Seq<char> {
        match self {
            AuctionAllocationError::InvalidOrderLimit(limit) => {
                "invalid auction allocation order limit "@ + decimal(limit as nat)
            },
            AuctionAllocationError::InvalidAllocationQuantum(quantum) => {
                "invalid auction allocation quantum "@ + decimal(quantum as nat)
            },
            AuctionAllocationError::OrderLimitExceeded { side, count, maximum } => {
                "auction "@ + side.text() + " order count "@ + decimal(count as nat)
                    + " exceeds maximum "@ + decimal(maximum as nat)
            },
            AuctionAllocationError::ClearingPriceOffGrid => {
                "auction clearing price is off allocation grid"@
            },
            AuctionAllocationError::LimitPriceOffGrid { side, index } => {
                "auction "@ + side.text() + " limit order at index "@ + decimal(index as nat)
                    + " is off grid"@
            },
            AuctionAllocationError::OrderQuantityOffAllocationGrid {
                side,
                index,
                quantity_lots,
                allocation_quantum_lots,
            } => {
                "auction "@ + side.text() + " order quantity "@ + decimal(quantity_lots as nat)
                    + " at index "@ + decimal(index as nat)
                    + " is not aligned to allocation quantum "@
                    + decimal(allocation_quantum_lots as nat)
            },
            AuctionAllocationError::NonCanonicalOrders { side, index } => {
                "auction "@ + side.text() + " order priority is noncanonical at index "@
                    + decimal(index as nat)
            },
            AuctionAllocationError::QuantityOverflow(side) => {
                "auction "@ + side.text() + " eligible quantity overflow"@
            },
            AuctionAllocationError::ClearingQuantityMismatch {
                expected_buy,
                observed_buy,
                expected_sell,
                observed_sell,
            } => {
                "auction clearing quantities buy="@ + decimal(expected_buy as nat) + "/"@
                    + decimal(observed_buy as nat) + " sell="@ + decimal(expected_sell as nat)
                    + "/"@ + decimal(observed_sell as nat) + " do not reconcile"@
            },
            AuctionAllocationError::ZeroExecutableQuantity => {
                "auction clearing has zero executable quantity"@
            },
            AuctionAllocationError::CapacityReservationFailed(side) => {
                "auction "@ + side.text() + " fill reservation failed"@
            },
            AuctionAllocationError::FillQuantityOverflow(side) => {
                "auction "@ + side.text() + " fill quantity exceeds u64"@
            },
            AuctionAllocationError::InsufficientEligibleQuantity(side) => {
                "auction "@ + side.text() + " eligible quantity was insufficient"@
            },
        }
    }

    /// Returns the diagnostic text.
    pub fn message(self) -> (r: String)
        ensures
            r@ == self.text(),
    {
        match self {
            AuctionAllocationError::InvalidOrderLimit(limit) => {
                let mut text = String::from_str("invalid auction allocation order limit ");
                push_decimal(&mut text, limit as u128);
                text
            },
            AuctionAllocationError::InvalidAllocationQuantum(quantum) => {
                let mut text = String::from_str("invalid auction allocation quantum ");
                push_decimal(&mut text, quantum as u128);
                text
            },
            AuctionAllocationError::OrderLimitExceeded { side, count, maximum } => {
                let mut text = String::from_str("auction ");
                text.append(side.name());
                text.append(" order count ");
                push_decimal(&mut text, count as u128);
                text.append(" exceeds maximum ");
                push_decimal(&mut text, maximum as u128);
                text
            },
            AuctionAllocationError::ClearingPriceOffGrid => {
                String::from_str("auction clearing price is off allocation grid")
            },
            AuctionAllocationError::LimitPriceOffGrid { side, index } => {
                let mut text = String::from_str("auction ");
                text.append(side.name());
                text.append(" limit order at index ");
                push_decimal(&mut text, index as u128);
                text.append(" is off grid");
                text
            },
            AuctionAllocationError::OrderQuantityOffAllocationGrid {
                side,
                index,
                quantity_lots,
                allocation_quantum_lots,
            } => {
                let mut text = String::from_str("auction ");
                text.append(side.name());
                text.append(" order quantity ");
                push_decimal(&mut text, quantity_lots as u128);
                text.append(" at index ");
                push_decimal(&mut text, index as u128);
                text.append(" is not aligned to allocation quantum ");
                push_decimal(&mut text, allocation_quantum_lots as u128);
                text
            },
            AuctionAllocationError::NonCanonicalOrders { side, index } => {
                let mut text = String::from_str("auction ");
                text.append(side.name());
                text.append(" order priority is noncanonical at index ");
                push_decimal(&mut text, index as u128);
                text
            },
            AuctionAllocationError::QuantityOverflow(side) => {
                let mut text = String::from_str("auction ");
                text.append(side.name());
                text.append(" eligible quantity overflow");
                text
            },
            AuctionAllocationError::ClearingQuantityMismatch {
                expected_buy,
                observed_buy,
                expected_sell,
                observed_sell,
            } => {
                let mut text = String::from_str("auction clearing quantities buy=");
                push_decimal(&mut text, expected_buy as u128);
                text.append("/");
                push_decimal(&mut text, observed_buy as u128);
                text.append(" sell=");
                push_decimal(&mut text, expected_sell as u128);
                text.append("/");
                push_decimal(&mut text, observed_sell as u128);
                text.append(" do not reconcile");
                text
            },
            AuctionAllocationError::ZeroExecutableQuantity => {
                String::from_str("auction clearing has zero executable quantity")
            },
            AuctionAllocationError::CapacityReservationFailed(side) => {
                let mut text = String::from_str("auction ");
                text.append(side.name());
                text.append(" fill reservation failed");
                text
            },
            AuctionAllocationError::FillQuantityOverflow(side) => {
                let mut text = String::from_str("auction ");
                text.append(side.name());
                text.append(" fill quantity exceeds u64");
                text
            },
            AuctionAllocationError::InsufficientEligibleQuantity(side) => {
                let mut text = String::from_str("auction ");
                text.append(side.name());
                text.append(" eligible quantity was insufficient");
                text
            },
        }
    }
}

impl CallAuctionBookLimitsError {
    /// The diagnostic text.
    pub open spec fn text(self) -> Seq<char> {
        match self {
            CallAuctionBookLimitsError::ZeroActiveOrders => {
                "call-auction active-order limit is zero"@
            },
            CallAuctionBookLimitsError::ZeroPriceLevels => {
                "call-auction per-side price-level limit is zero"@
            },
            CallAuctionBookLimitsError::ZeroAcceptedOrderIds => {
                "call-auction accepted-order-identifier limit is zero"@
            },
            CallAuctionBookLimitsError::ZeroPreparedUncrosses => {
                "call-auction prepared-uncross limit is zero"@
            },
            CallAuctionBookLimitsError::PriceLevelsExceedActiveOrders => {
                "call-auction per-side price-level limit exceeds active-order limit"@
            },
            CallAuctionBookLimitsError::ActiveOrdersExceedAcceptedOrderIds => {
                "call-auction active-order limit exceeds accepted-order-identifier limit"@
            },
        }
    }

    /// Returns the diagnostic text.
    pub fn message(self) -> (r: String)
        ensures
            r@ == self.text(),
    {
        match self {
            CallAuctionBookLimitsError::ZeroActiveOrders => {
                String::from_str("call-auction active-order limit is zero")
            },
            CallAuctionBookLimitsError::ZeroPriceLevels => {
                String::from_str("call-auction per-side price-level limit is zero")
            },
            CallAuctionBookLimitsError::ZeroAcceptedOrderIds => {
                String::from_str("call-auction accepted-order-identifier limit is zero")
            },
            CallAuctionBookLimitsError::ZeroPreparedUncrosses => {
                String::from_str("call-auction prepared-uncross limit is zero")
            },
            CallAuctionBookLimitsError::PriceLevelsExceedActiveOrders => {
                String::from_str(
                    "call-auction per-side price-level limit exceeds active-order limit",
                )
            },
            CallAuctionBookLimitsError::ActiveOrdersExceedAcceptedOrderIds => {
                String::from_str(
                    "call-auction active-order limit exceeds accepted-order-identifier limit",
                )
            },
        }
    }
}

impl CallAuctionCapacity {
    /// The diagnostic text.
    pub open spec fn text(self) -> Seq<char> {
        match self {
            CallAuctionCapacity::ActiveOrders => "active orders"@,
            CallAuctionCapacity::ActiveAccounts => "active accounts"@,
            CallAuctionCapacity::AcceptedOrderIds => "accepted order identifiers"@,
            CallAuctionCapacity::BidPriceLevels => "bid price levels"@,
            CallAuctionCapacity::AskPriceLevels => "ask price levels"@,
            CallAuctionCapacity::BidLevelScratch => "aggregate bid scratch"@,
            CallAuctionCapacity::AskLevelScratch => "aggregate ask scratch"@,
            CallAuctionCapacity::BuyOrderScratch => "canonical buy-order scratch"@,
            CallAuctionCapacity::SellOrderScratch => "canonical sell-order scratch"@,
            CallAuctionCapacity::UncrossBuyFills => "prepared uncross buy fills"@,
            CallAuctionCapacity::UncrossSellFills => "prepared uncross sell fills"@,
            CallAuctionCapacity::UncrossTrades => "prepared uncross trades"@,
            CallAuctionCapacity::UncrossCancellations => "prepared uncross cancellations"@,
            CallAuctionCapacity::PreparedUncrosses => "prepared uncross pool"@,
        }
    }

    /// Returns the diagnostic text.
    pub fn message(self) -> (r: String)
        ensures
            r@ == self.text(),
    {
        match self {
            CallAuctionCapacity::ActiveOrders => String::from_str("active orders"),
            CallAuctionCapacity::ActiveAccounts => String::from_str("active accounts"),
            CallAuctionCapacity::AcceptedOrderIds => String::from_str("accepted order identifiers"),
            CallAuctionCapacity::BidPriceLevels => String::from_str("bid price levels"),
            CallAuctionCapacity::AskPriceLevels => String::from_str("ask price levels"),
            CallAuctionCapacity::BidLevelScratch => String::from_str("aggregate bid scratch"),
            CallAuctionCapacity::AskLevelScratch => String::from_str("aggregate ask scratch"),
            CallAuctionCapacity::BuyOrderScratch => String::from_str("canonical buy-order scratch"),
            CallAuctionCapacity::SellOrderScratch => {
                String::from_str("canonical sell-order scratch")
            },
            CallAuctionCapacity::UncrossBuyFills => String::from_str("prepared uncross buy fills"),
            CallAuctionCapacity::UncrossSellFills => {
                String::from_str("prepared uncross sell fills")
            },
            CallAuctionCapacity::UncrossTrades => String::from_str("prepared uncross trades"),
            CallAuctionCapacity::UncrossCancellations => {
                String::from_str("prepared uncross cancellations")
            },
            CallAuctionCapacity::PreparedUncrosses => String::from_str("prepared uncross pool"),
        }
    }
}

impl CallAuctionConstructionError {
    /// The diagnostic text.
    pub open spec fn text(self) -> Seq<char> {
        match self {
            CallAuctionConstructionError::CapacityReservationFailed(capacity) => {
                "call-auction "@ + capacity.text() + " reservation failed"@
            },
            CallAuctionConstructionError::InvalidInstrumentPriceConfiguration(error) => {
                "invalid call-auction instrument price configuration: "@ + error.text()
            },
            CallAuctionConstructionError::BookInstanceIdExhausted => {
                "call-auction book instance identity exhausted"@
            },
        }
    }

    /// Returns the diagnostic text.
    pub fn message(self) -> (r: String)
        ensures
            r@ == self.text(),
    {
        match self {
            CallAuctionConstructionError::CapacityReservationFailed(capacity) => {
                let mut text = String::from_str("call-auction ");
                text.append(capacity.message().as_str());
                text.append(" reservation failed");
                text
            },
            CallAuctionConstructionError::InvalidInstrumentPriceConfiguration(error) => {
                let mut text = String::from_str(
                    "invalid call-auction instrument price configuration: ",
                );
                text.append(error.message().as_str());
                text
            },
            CallAuctionConstructionError::BookInstanceIdExhausted => {
                String::from_str("call-auction book instance identity exhausted")
            },
        }
    }
}

impl CallAuctionAdmissionError {
    /// The diagnostic text.
    pub open spec fn text(self) -> Seq<char> {
        match self {
            CallAuctionAdmissionError::Instrument(error) => {
                "call-auction instrument admission: "@ + error.text()
            },
            CallAuctionAdmissionError::DuplicateOrderId => {
                "duplicate call-auction order identifier"@
            },
            CallAuctionAdmissionError::CapacityExceeded(capacity) => {
                "call-auction "@ + capacity.text() + " capacity exceeded"@
            },
            CallAuctionAdmissionError::PrioritySequenceExhausted => {
                "call-auction priority sequence exhausted"@
            },
            CallAuctionAdmissionError::StateRevisionExhausted => {
                "call-auction state revision exhausted"@
            },
            CallAuctionAdmissionError::AggregateQuantityOverflow(side) => {
                "call-auction "@ + side.text() + " aggregate quantity overflow"@
            },
        }
    }

    /// Returns the diagnostic text.
    pub fn message(self) -> (r: String)
        ensures
            r@ == self.text(),
    {
        match self {
            CallAuctionAdmissionError::Instrument(error) => {
                let mut text = String::from_str("call-auction instrument admission: ");
                text.append(error.name());
                text
            },
            CallAuctionAdmissionError::DuplicateOrderId => {
                String::from_str("duplicate call-auction order identifier")
            },
            CallAuctionAdmissionError::CapacityExceeded(capacity) => {
                let mut text = String::from_str("call-auction ");
                text.append(capacity.message().as_str());
                text.append(" capacity exceeded");
                text
            },
            CallAuctionAdmissionError::PrioritySequenceExhausted => {
                String::from_str("call-auction priority sequence exhausted")
            },
            CallAuctionAdmissionError::StateRevisionExhausted => {
                String::from_str("call-auction state revision exhausted")
            },
            CallAuctionAdmissionError::AggregateQuantityOverflow(side) => {
                let mut text = String::from_str("call-auction ");
                text.append(side.name());
                text.append(" aggregate quantity overflow");
                text
            },
        }
    }
}

impl CallAuctionCancelError {
    /// The diagnostic text.
    pub open spec fn text(self) -> Seq<char> {
        match self {
            CallAuctionCancelError::UnknownOrder => "unknown active call-auction order"@,
            CallAuctionCancelError::AccountMismatch => {
                "call-auction cancellation account mismatch"@
            },
            CallAuctionCancelError::StateRevisionExhausted => {
                "call-auction state revision exhausted"@
            },
        }
    }

    /// Returns the diagnostic text.
    pub fn message(self) -> (r: String)
        ensures
            r@ == self.text(),
    {
        match self {
            CallAuctionCancelError::UnknownOrder => {
                String::from_str("unknown active call-auction order")
            },
            CallAuctionCancelError::AccountMismatch => {
                String::from_str("call-auction cancellation account mismatch")
            },
            CallAuctionCancelError::StateRevisionExhausted => {
                String::from_str("call-auction state revision exhausted")
            },
        }
    }
}

impl CallAuctionAmendError {
    /// The diagnostic text.
    pub open spec fn text(self) -> Seq<char> {
        match self {
            CallAuctionAmendError::UnknownOrder => "unknown active call-auction order"@,
            CallAuctionAmendError::AccountMismatch => "call-auction amendment account mismatch"@,
            CallAuctionAmendError::Instrument(error) => {
                "call-auction amendment instrument rule: "@ + error.text()
            },
            CallAuctionAmendError::QuantityNotReduced => {
                "call-auction amendment quantity was not reduced"@
            },
            CallAuctionAmendError::StateRevisionExhausted => {
                "call-auction state revision exhausted"@
            },
        }
    }

    /// Returns the diagnostic text.
    pub fn message(self) -> (r: String)
        ensures
            r@ == self.text(),
    {
        match self {
            CallAuctionAmendError::UnknownOrder => {
                String::from_str("unknown active call-auction order")
            },
            CallAuctionAmendError::AccountMismatch => {
                String::from_str("call-auction amendment account mismatch")
            },
            CallAuctionAmendError::Instrument(error) => {
                let mut text = String::from_str("call-auction amendment instrument rule: ");
                text.append(error.name());
                text
            },
            CallAuctionAmendError::QuantityNotReduced => {
                String::from_str("call-auction amendment quantity was not reduced")
            },
            CallAuctionAmendError::StateRevisionExhausted => {
                String::from_str("call-auction state revision exhausted")
            },
        }
    }
}

impl CallAuctionMassCancelError {
    /// The diagnostic text.
    pub open spec fn text(self) -> Seq<char> {
        match self {
            CallAuctionMassCancelError::OutputNotEmpty => {
                "call-auction mass-cancel output is not empty"@
            },
            CallAuctionMassCancelError::OutputCapacityExceeded { required, available } => {
                "call-auction mass-cancel output capacity "@ + decimal(available as nat)
                    + " is below required "@ + decimal(required as nat)
            },
            CallAuctionMassCancelError::StateRevisionExhausted => {
                "call-auction state revision exhausted"@
            },
            CallAuctionMassCancelError::InternalInvariantViolation => {
                "call-auction mass-cancel index invariant violation"@
            },
        }
    }

    /// Returns the diagnostic text.
    pub fn message(self) -> (r: String)
        ensures
            r@ == self.text(),
    {
        match self {
            CallAuctionMassCancelError::OutputNotEmpty => {
                String::from_str("call-auction mass-cancel output is not empty")
            },
            CallAuctionMassCancelError::OutputCapacityExceeded { required, available } => {
                let mut text = String::from_str("call-auction mass-cancel output capacity ");
                push_decimal(&mut text, available as u128);
                text.append(" is below required ");
                push_decimal(&mut text, required as u128);
                text
            },
            CallAuctionMassCancelError::StateRevisionExhausted => {
                String::from_str("call-auction state revision exhausted")
            },
            CallAuctionMassCancelError::InternalInvariantViolation => {
                String::from_str("call-auction mass-cancel index invariant violation")
            },
        }
    }
}

impl CallAuctionReplaceError {
    /// The diagnostic text.
    pub open spec fn text(self) -> Seq<char> {
        match self {
            CallAuctionReplaceError::Target(error) => {
                "call-auction replacement target: "@ + error.text()
            },
            CallAuctionReplaceError::ReplacementAccountMismatch => {
                "call-auction replacement account differs from target owner"@
            },
            CallAuctionReplaceError::Replacement(error) => {
                "call-auction replacement order: "@ + error.text()
            },
        }
    }

    /// Returns the diagnostic text.
    pub fn message(self) -> (r: String)
        ensures
            r@ == self.text(),
    {
        match self {
            CallAuctionReplaceError::Target(error) => {
                let mut text = String::from_str("call-auction replacement target: ");
                text.append(error.message().as_str());
                text
            },
            CallAuctionReplaceError::ReplacementAccountMismatch => {
                String::from_str("call-auction replacement account differs from target owner")
            },
            CallAuctionReplaceError::Replacement(error) => {
                let mut text = String::from_str("call-auction replacement order: ");
                text.append(error.message().as_str());
                text
            },
        }
    }
}

impl CallAuctionPlanError {
    /// The diagnostic text.
    pub open spec fn text(self) -> Seq<char> {
        match self {
            CallAuctionPlanError::ForeignBook => "foreign call-auction indicative result"@,
            CallAuctionPlanError::StaleRevision { observed, current } => {
                "stale call-auction indicative revision "@ + decimal(observed as nat)
                    + "; current revision is "@ + decimal(current as nat)
            },
            CallAuctionPlanError::Allocation(error) => "call-auction allocation: "@ + error.text(),
        }
    }

    /// Returns the diagnostic text.
    pub fn message(self) -> (r: String)
        ensures
            r@ == self.text(),
    {
        match self {
            CallAuctionPlanError::ForeignBook => {
                String::from_str("foreign call-auction indicative result")
            },
            CallAuctionPlanError::StaleRevision { observed, current } => {
                let mut text = String::from_str("stale call-auction indicative revision ");
                push_decimal(&mut text, observed as u128);
                text.append("; current revision is ");
                push_decimal(&mut text, current as u128);
                text
            },
            CallAuctionPlanError::Allocation(error) => {
                let mut text = String::from_str("call-auction allocation: ");
                text.append(error.message().as_str());
                text
            },
        }
    }
}

impl CallAuctionPrepareError {
    /// The diagnostic text.
    pub open spec fn text(self) -> Seq<char> {
        match self {
            CallAuctionPrepareError::Plan(error) => "call-auction uncross plan: "@ + error.text(),
            CallAuctionPrepareError::TradeIdentifierExhausted => {
                "call-auction trade identifier exhausted"@
            },
            CallAuctionPrepareError::StateRevisionExhausted => {
                "call-auction state revision exhausted"@
            },
            CallAuctionPrepareError::PreparationCapacityExhausted { maximum } => {
                "call-auction prepared-uncross capacity "@ + decimal(maximum as nat)
                    + " is exhausted"@
            },
            CallAuctionPrepareError::SelfTradeWouldOccur {
                account_id,
                buy_order_id,
                sell_order_id,
                quantity,
            } => {
                "call-auction canonical pair buy "@ + decimal(buy_order_id.value as nat)
                    + " and sell "@ + decimal(sell_order_id.value as nat)
                    + " would self-trade account "@ + decimal(account_id.value as nat) + " for "@
                    + decimal(quantity.lots as nat) + " lots"@
            },
            CallAuctionPrepareError::InternalInvariantViolation => {
                "call-auction private state contradicts prepared uncross"@
            },
        }
    }

    /// Returns the diagnostic text.
    pub fn message(self) -> (r: String)
        ensures
            r@ == self.text(),
    {
        match self {
            CallAuctionPrepareError::Plan(error) => {
                let mut text = String::from_str("call-auction uncross plan: ");
                text.append(error.message().as_str());
                text
            },
            CallAuctionPrepareError::TradeIdentifierExhausted => {
                String::from_str("call-auction trade identifier exhausted")
            },
            CallAuctionPrepareError::StateRevisionExhausted => {
                String::from_str("call-auction state revision exhausted")
            },
            CallAuctionPrepareError::PreparationCapacityExhausted { maximum } => {
                let mut text = String::from_str("call-auction prepared-uncross capacity ");
                push_decimal(&mut text, maximum as u128);
                text.append(" is exhausted");
                text
            },
            CallAuctionPrepareError::SelfTradeWouldOccur {
                account_id,
                buy_order_id,
                sell_order_id,
                quantity,
            } => {
                let mut text = String::from_str("call-auction canonical pair buy ");
                push_decimal(&mut text, buy_order_id.value as u128);
                text.append(" and sell ");
                push_decimal(&mut text, sell_order_id.value as u128);
                text.append(" would self-trade account ");
                push_decimal(&mut text, account_id.value as u128);
                text.append(" for ");
                push_decimal(&mut text, quantity.lots as u128);
                text.append(" lots");
                text
            },
            CallAuctionPrepareError::InternalInvariantViolation => {
                String::from_str("call-auction private state contradicts prepared uncross")
            },
        }
    }
}

impl CallAuctionCommitError {
    /// The diagnostic text.
    pub open spec fn text(self) -> Seq<char> {
        match self {
            CallAuctionCommitError::ForeignPreparation => {
                "foreign call-auction uncross preparation"@
            },
            CallAuctionCommitError::StalePreparation { observed, current } => {
                "stale call-auction uncross revision "@ + decimal(observed as nat)
                    + "; current revision is "@ + decimal(current as nat)
            },
            CallAuctionCommitError::InternalInvariantViolation => {
                "call-auction state contradicts uncross preparation"@
            },
        }
    }

    /// Returns the diagnostic text.
    pub fn message(self) -> (r: String)
        ensures
            r@ == self.text(),
    {
        match self {
            CallAuctionCommitError::ForeignPreparation => {
                String::from_str("foreign call-auction uncross preparation")
            },
            CallAuctionCommitError::StalePreparation { observed, current } => {
                let mut text = String::from_str("stale call-auction uncross revision ");
                push_decimal(&mut text, observed as u128);
                text.append("; current revision is ");
                push_decimal(&mut text, current as u128);
                text
            },
            CallAuctionCommitError::InternalInvariantViolation => {
                String::from_str("call-auction state contradicts uncross preparation")
            },
        }
    }
}

impl CallAuctionBookQueryResource {
    /// The diagnostic text.
    pub open spec fn text(self) -> Seq<char> {
        match self {
            CallAuctionBookQueryResource::AccountOrderIds => "account-order-identifier output"@,
        }
    }

    /// Returns the diagnostic text.
    pub fn message(self) -> (r: String)
        ensures
            r@ == self.text(),
    {
        match self {
            CallAuctionBookQueryResource::AccountOrderIds => {
                String::from_str("account-order-identifier output")
            },
        }
    }
}

impl CallAuctionBookQueryError {
    /// The diagnostic text.
    pub open spec fn text(self) -> Seq<char> {
        match self {
            CallAuctionBookQueryError::ReservationFailed { resource, maximum } => {
                "call-auction book "@ + resource.text() + " could not reserve "@
                    + decimal(maximum as nat) + " entries"@
            },
            CallAuctionBookQueryError::InvariantViolation(error) => error.detail@,
        }
    }

    /// Returns the diagnostic text.
    pub fn message(self) -> (r: String)
        ensures
            r@ == self.text(),
    {
        match self {
            CallAuctionBookQueryError::ReservationFailed { resource, maximum } => {
                let mut text = String::from_str("call-auction book ");
                text.append(resource.message().as_str());
                text.append(" could not reserve ");
                push_decimal(&mut text, maximum as u128);
                text.append(" entries");
                text
            },
            CallAuctionBookQueryError::InvariantViolation(error) => error.detail,
        }
    }
}

impl CallAuctionEngineLimitsError {
    /// The diagnostic text.
    pub open spec fn text(self) -> Seq<char> {
        match self {
            CallAuctionEngineLimitsError::ZeroRetainedCommands => {
                "call-auction retained-command limit is zero"@
            },
            CallAuctionEngineLimitsError::TerminalReserveExhaustsHistory => {
                "call-auction terminal reserve leaves no ordinary command capacity"@
            },
            CallAuctionEngineLimitsError::TerminalReserveBelowRequired { configured, required } => {
                "call-auction terminal reserve "@ + decimal(configured as nat)
                    + " is below required "@ + decimal(required as nat)
            },
            CallAuctionEngineLimitsError::ReportEventsBelowRequired { configured, required } => {
                "call-auction report-event limit "@ + decimal(configured as nat)
                    + " is below required "@ + decimal(required as nat)
            },
            CallAuctionEngineLimitsError::DerivedBoundOverflow => {
                "call-auction derived resource bound overflows usize"@
            },
        }
    }

    /// Returns the diagnostic text.
    pub fn message(self) -> (r: String)
        ensures
            r@ == self.text(),
    {
        match self {
            CallAuctionEngineLimitsError::ZeroRetainedCommands => {
                String::from_str("call-auction retained-command limit is zero")
            },
            CallAuctionEngineLimitsError::TerminalReserveExhaustsHistory => {
                String::from_str(
                    "call-auction terminal reserve leaves no ordinary command capacity",
                )
            },
            CallAuctionEngineLimitsError::TerminalReserveBelowRequired { configured, required } => {
                let mut text = String::from_str("call-auction terminal reserve ");
                push_decimal(&mut text, configured as u128);
                text.append(" is below required ");
                push_decimal(&mut text, required as u128);
                text
            },
            CallAuctionEngineLimitsError::ReportEventsBelowRequired { configured, required } => {
                let mut text = String::from_str("call-auction report-event limit ");
                push_decimal(&mut text, configured as u128);
                text.append(" is below required ");
                push_decimal(&mut text, required as u128);
                text
            },
            CallAuctionEngineLimitsError::DerivedBoundOverflow => {
                String::from_str("call-auction derived resource bound overflows usize")
            },
        }
    }
}

impl CallAuctionEngineCapacity {
    /// The diagnostic text.
    pub open spec fn text(self) -> Seq<char> {
        match self {
            CallAuctionEngineCapacity::CommandHistory => "command history"@,
            CallAuctionEngineCapacity::AdmissionCommandHistory => "ordinary command history"@,
            CallAuctionEngineCapacity::ReportEvents => "report events"@,
        }
    }

    /// Returns the diagnostic text.
    pub fn message(self) -> (r: String)
        ensures
            r@ == self.text(),
    {
        match self {
            CallAuctionEngineCapacity::CommandHistory => String::from_str("command history"),
            CallAuctionEngineCapacity::AdmissionCommandHistory => {
                String::from_str("ordinary command history")
            },
            CallAuctionEngineCapacity::ReportEvents => String::from_str("report events"),
        }
    }
}

impl CallAuctionEngineConstructionError {
    /// The diagnostic text.
    pub open spec fn text(self) -> Seq<char> {
        match self {
            CallAuctionEngineConstructionError::Book(error) => {
                "call-auction engine book: "@ + error.text()
            },
            CallAuctionEngineConstructionError::CommandHistoryReservationFailed => {
                "call-auction command-history reservation failed"@
            },
            CallAuctionEngineConstructionError::EngineInstanceIdExhausted => {
                "call-auction engine instance identity exhausted"@
            },
        }
    }

    /// Returns the diagnostic text.
    pub fn message(self) -> (r: String)
        ensures
            r@ == self.text(),
    {
        match self {
            CallAuctionEngineConstructionError::Book(error) => {
                let mut text = String::from_str("call-auction engine book: ");
                text.append(error.message().as_str());
                text
            },
            CallAuctionEngineConstructionError::CommandHistoryReservationFailed => {
                String::from_str("call-auction command-history reservation failed")
            },
            CallAuctionEngineConstructionError::EngineInstanceIdExhausted => {
                String::from_str("call-auction engine instance identity exhausted")
            },
        }
    }
}

impl CallAuctionEngineError {
    /// The diagnostic text.
    pub open spec fn text(self) -> Seq<char> {
        match self {
            CallAuctionEngineError::CommandIdCollision(command_id) => {
                "call-auction command identifier collision "@ + decimal(command_id.value as nat)
            },
            CallAuctionEngineError::CapacityExhausted(capacity) => {
                "call-auction "@ + capacity.text() + " capacity exhausted"@
            },
            CallAuctionEngineError::CapacityReservationFailed(capacity) => {
                "call-auction "@ + capacity.text() + " reservation failed"@
            },
            CallAuctionEngineError::SequenceExhausted => "call-auction sequence exhausted"@,
            CallAuctionEngineError::PhaseRevisionExhausted => {
                "call-auction phase revision exhausted"@
            },
            CallAuctionEngineError::AuctionIdExhausted => {
                "call-auction cycle identifier exhausted"@
            },
            CallAuctionEngineError::BookAdmission(error) => {
                "call-auction admission: "@ + error.text()
            },
            CallAuctionEngineError::BookCancellation(error) => {
                "call-auction cancellation: "@ + error.text()
            },
            CallAuctionEngineError::BookMassCancellation(error) => {
                "call-auction mass cancellation: "@ + error.text()
            },
            CallAuctionEngineError::BookAmendment(error) => {
                "call-auction amendment: "@ + error.text()
            },
            CallAuctionEngineError::BookReplacement(error) => {
                "call-auction replacement: "@ + error.text()
            },
            CallAuctionEngineError::Discovery(error) => "call-auction discovery: "@ + error.text(),
            CallAuctionEngineError::UncrossPreparation(error) => {
                "call-auction uncross preparation: "@ + error.text()
            },
            CallAuctionEngineError::UncrossCommit(error) => {
                "call-auction uncross commit: "@ + error.text()
            },
            CallAuctionEngineError::ForeignPreparation => {
                "foreign sequenced call-auction preparation"@
            },
            CallAuctionEngineError::StalePreparation => "stale sequenced call-auction preparation"@,
            CallAuctionEngineError::InternalInvariantViolation => {
                "sequenced call-auction private invariant violation"@
            },
        }
    }

    /// Returns the diagnostic text.
    pub fn message(self) -> (r: String)
        ensures
            r@ == self.text(),
    {
        match self {
            CallAuctionEngineError::CommandIdCollision(command_id) => {
                let mut text = String::from_str("call-auction command identifier collision ");
                push_decimal(&mut text, command_id.value as u128);
                text
            },
            CallAuctionEngineError::CapacityExhausted(capacity) => {
                let mut text = String::from_str("call-auction ");
                text.append(capacity.message().as_str());
                text.append(" capacity exhausted");
                text
            },
            CallAuctionEngineError::CapacityReservationFailed(capacity) => {
                let mut text = String::from_str("call-auction ");
                text.append(capacity.message().as_str());
                text.append(" reservation failed");
                text
            },
            CallAuctionEngineError::SequenceExhausted => {
                String::from_str("call-auction sequence exhausted")
            },
            CallAuctionEngineError::PhaseRevisionExhausted => {
                String::from_str("call-auction phase revision exhausted")
            },
            CallAuctionEngineError::AuctionIdExhausted => {
                String::from_str("call-auction cycle identifier exhausted")
            },
            CallAuctionEngineError::BookAdmission(error) => {
                let mut text = String::from_str("call-auction admission: ");
                text.append(error.message().as_str());
                text
            },
            CallAuctionEngineError::BookCancellation(error) => {
                let mut text = String::from_str("call-auction cancellation: ");
                text.append(error.message().as_str());
                text
            },
            CallAuctionEngineError::BookMassCancellation(error) => {
                let mut text = String::from_str("call-auction mass cancellation: ");
                text.append(error.message().as_str());
                text
            },
            CallAuctionEngineError::BookAmendment(error) => {
                let mut text = String::from_str("call-auction amendment: ");
                text.append(error.message().as_str());
                text
            },
            CallAuctionEngineError::BookReplacement(error) => {
                let mut text = String::from_str("call-auction replacement: ");
                text.append(error.message().as_str());
                text
            },
            CallAuctionEngineError::Discovery(error) => {
                let mut text = String::from_str("call-auction discovery: ");
                text.append(error.message().as_str());
                text
            },
            CallAuctionEngineError::UncrossPreparation(error) => {
                let mut text = String::from_str("call-auction uncross preparation: ");
                text.append(error.message().as_str());
                text
            },
            CallAuctionEngineError::UncrossCommit(error) => {
                let mut text = String::from_str("call-auction uncross commit: ");
                text.append(error.message().as_str());
                text
            },
            CallAuctionEngineError::ForeignPreparation => {
                String::from_str("foreign sequenced call-auction preparation")
            },
            CallAuctionEngineError::StalePreparation => {
                String::from_str("stale sequenced call-auction preparation")
            },
            CallAuctionEngineError::InternalInvariantViolation => {
                String::from_str("sequenced call-auction private invariant violation")
            },
        }
    }
}

impl CallAuctionQueryError {
    /// The diagnostic text.
    pub open spec fn text(self) -> Seq<char> {
        match self {
            CallAuctionQueryError::AuctionIdMismatch { observed, current } => {
                "call-auction query cycle "@ + decimal(observed.value as nat)
                    + " differs from active "@ + cycle_text(current)
            },
            CallAuctionQueryError::Discovery(error) => {
                "call-auction query discovery: "@ + error.text()
            },
        }
    }

    /// Returns the diagnostic text.
    pub fn message(self) -> (r: String)
        ensures
            r@ == self.text(),
    {
        match self {
            CallAuctionQueryError::AuctionIdMismatch { observed, current } => {
                let mut text = String::from_str("call-auction query cycle ");
                push_decimal(&mut text, observed.value as u128);
                text.append(" differs from active ");
                text.append(cycle_message(current).as_str());
                text
            },
            CallAuctionQueryError::Discovery(error) => {
                let mut text = String::from_str("call-auction query discovery: ");
                text.append(error.message().as_str());
                text
            },
        }
    }
}

impl CallAuctionCheckpointError {
    /// The diagnostic text.
    pub open spec fn text(self) -> Seq<char> {
        match self {
            CallAuctionCheckpointError::Construction(_, detail) => detail@,
            CallAuctionCheckpointError::Preparation(_, detail) => detail@,
            CallAuctionCheckpointError::Contradiction(detail) => detail@,
        }
    }

    /// Returns the diagnostic text.
    pub fn message(self) -> (r: String)
        ensures
            r@ == self.text(),
    {
        match self {
            CallAuctionCheckpointError::Construction(_, detail) => detail,
            CallAuctionCheckpointError::Preparation(_, detail) => detail,
            CallAuctionCheckpointError::Contradiction(detail) => detail,
        }
    }
}

impl CallAuctionMarketDataResource {
    /// The diagnostic text.
    pub open spec fn text(self) -> Seq<char> {
        match self {
            CallAuctionMarketDataResource::TrackedOrders => "tracked orders"@,
            CallAuctionMarketDataResource::BidPriceLevels => "bid price levels"@,
            CallAuctionMarketDataResource::AskPriceLevels => "ask price levels"@,
            CallAuctionMarketDataResource::BatchUpdates => "batch updates"@,
            CallAuctionMarketDataResource::UncrossSourceOrders => "uncross source orders"@,
            CallAuctionMarketDataResource::BatchLevelIdentities => "batch level identities"@,
        }
    }

    /// Returns the diagnostic text.
    pub fn message(self) -> (r: String)
        ensures
            r@ == self.text(),
    {
        match self {
            CallAuctionMarketDataResource::TrackedOrders => String::from_str("tracked orders"),
            CallAuctionMarketDataResource::BidPriceLevels => String::from_str("bid price levels"),
            CallAuctionMarketDataResource::AskPriceLevels => String::from_str("ask price levels"),
            CallAuctionMarketDataResource::BatchUpdates => String::from_str("batch updates"),
            CallAuctionMarketDataResource::UncrossSourceOrders => {
                String::from_str("uncross source orders")
            },
            CallAuctionMarketDataResource::BatchLevelIdentities => {
                String::from_str("batch level identities")
            },
        }
    }
}

impl CallAuctionMarketDataLimitsError {
    /// The diagnostic text.
    pub open spec fn text(self) -> Seq<char> {
        match self {
            CallAuctionMarketDataLimitsError::ZeroActiveOrders => {
                "call-auction market-data active-order limit is zero"@
            },
            CallAuctionMarketDataLimitsError::ZeroPriceLevels => {
                "call-auction market-data per-side price-level limit is zero"@
            },
            CallAuctionMarketDataLimitsError::ZeroBatchUpdates => {
                "call-auction market-data batch-update limit is zero"@
            },
            CallAuctionMarketDataLimitsError::PriceLevelsExceedActiveOrders => {
                "call-auction market-data price-level limit exceeds its active-order limit"@
            },
            CallAuctionMarketDataLimitsError::BatchUpdatesBelowUncrossMaximum => {
                "call-auction market-data batch limit cannot hold a maximum-size uncross"@
            },
            CallAuctionMarketDataLimitsError::DerivedBoundOverflow => {
                "call-auction market-data derived resource bound overflows usize"@
            },
        }
    }

    /// Returns the diagnostic text.
    pub fn message(self) -> (r: String)
        ensures
            r@ == self.text(),
    {
        match self {
            CallAuctionMarketDataLimitsError::ZeroActiveOrders => {
                String::from_str("call-auction market-data active-order limit is zero")
            },
            CallAuctionMarketDataLimitsError::ZeroPriceLevels => {
                String::from_str("call-auction market-data per-side price-level limit is zero")
            },
            CallAuctionMarketDataLimitsError::ZeroBatchUpdates => {
                String::from_str("call-auction market-data batch-update limit is zero")
            },
            CallAuctionMarketDataLimitsError::PriceLevelsExceedActiveOrders => {
                String::from_str(
                    "call-auction market-data price-level limit exceeds its active-order limit",
                )
            },
            CallAuctionMarketDataLimitsError::BatchUpdatesBelowUncrossMaximum => {
                String::from_str(
                    "call-auction market-data batch limit cannot hold a maximum-size uncross",
                )
            },
            CallAuctionMarketDataLimitsError::DerivedBoundOverflow => {
                String::from_str("call-auction market-data derived resource bound overflows usize")
            },
        }
    }
}

impl CallAuctionMarketDataError {
    /// The diagnostic text.
    pub open spec fn text(self) -> Seq<char> {
        match self {
            CallAuctionMarketDataError::WrongInstrument => {
                "auction market data belongs to another instrument"@
            },
            CallAuctionMarketDataError::WrongInstrumentVersion => {
                "auction market data belongs to another instrument version"@
            },
            CallAuctionMarketDataError::SequenceGap { expected, actual } => {
                "auction market-data event gap: expected "@ + decimal(expected as nat)
                    + ", received "@ + decimal(actual as nat)
            },
            CallAuctionMarketDataError::CommandSequenceGap { expected, actual } => {
                "auction market-data command gap: expected "@ + decimal(expected as nat)
                    + ", received "@ + decimal(actual as nat)
            },
            CallAuctionMarketDataError::StaleSnapshot { current, snapshot } => {
                "auction snapshot sequence "@ + decimal(snapshot as nat)
                    + " predates replica sequence "@ + decimal(current as nat)
            },
            CallAuctionMarketDataError::InvalidSnapshot(detail) => detail@,
            CallAuctionMarketDataError::InvalidUpdate(detail) => detail@,
            CallAuctionMarketDataError::TraceMismatch(detail) => detail@,
            CallAuctionMarketDataError::SourceDivergence(detail) => detail@,
            CallAuctionMarketDataError::ArithmeticOverflow => {
                "auction market-data arithmetic overflow"@
            },
            CallAuctionMarketDataError::CapacityExceeded { resource, maximum, attempted } => {
                "call-auction market-data "@ + resource.text() + " capacity "@
                    + decimal(maximum as nat) + " cannot hold "@ + decimal(attempted as nat)
                    + " entries"@
            },
            CallAuctionMarketDataError::PreparationAllocationFailed(resource) => {
                "could not reserve call-auction market-data "@ + resource.text() + " output"@
            },
            CallAuctionMarketDataError::Poisoned => "auction market-data state is poisoned"@,
        }
    }

    /// Returns the diagnostic text.
    pub fn message(self) -> (r: String)
        ensures
            r@ == self.text(),
    {
        match self {
            CallAuctionMarketDataError::WrongInstrument => {
                String::from_str("auction market data belongs to another instrument")
            },
            CallAuctionMarketDataError::WrongInstrumentVersion => {
                String::from_str("auction market data belongs to another instrument version")
            },
            CallAuctionMarketDataError::SequenceGap { expected, actual } => {
                let mut text = String::from_str("auction market-data event gap: expected ");
                push_decimal(&mut text, expected as u128);
                text.append(", received ");
                push_decimal(&mut text, actual as u128);
                text
            },
            CallAuctionMarketDataError::CommandSequenceGap { expected, actual } => {
                let mut text = String::from_str("auction market-data command gap: expected ");
                push_decimal(&mut text, expected as u128);
                text.append(", received ");
                push_decimal(&mut text, actual as u128);
                text
            },
            CallAuctionMarketDataError::StaleSnapshot { current, snapshot } => {
                let mut text = String::from_str("auction snapshot sequence ");
                push_decimal(&mut text, snapshot as u128);
                text.append(" predates replica sequence ");
                push_decimal(&mut text, current as u128);
                text
            },
            CallAuctionMarketDataError::InvalidSnapshot(detail) => String::from_str(detail),
            CallAuctionMarketDataError::InvalidUpdate(detail) => String::from_str(detail),
            CallAuctionMarketDataError::TraceMismatch(detail) => String::from_str(detail),
            CallAuctionMarketDataError::SourceDivergence(detail) => String::from_str(detail),
            CallAuctionMarketDataError::ArithmeticOverflow => {
                String::from_str("auction market-data arithmetic overflow")
            },
            CallAuctionMarketDataError::CapacityExceeded { resource, maximum, attempted } => {
                let mut text = String::from_str("call-auction market-data ");
                text.append(resource.message().as_str());
                text.append(" capacity ");
                push_decimal(&mut text, maximum as u128);
                text.append(" cannot hold ");
                push_decimal(&mut text, attempted as u128);
                text.append(" entries");
                text
            },
            CallAuctionMarketDataError::PreparationAllocationFailed(resource) => {
                let mut text = String::from_str("could not reserve call-auction market-data ");
                text.append(resource.message().as_str());
                text.append(" output");
                text
            },
            CallAuctionMarketDataError::Poisoned => {
                String::from_str("auction market-data state is poisoned")
            },
        }
    }
}

impl CallAuctionMarketDataConstructionError {
    /// The diagnostic text.
    pub open spec fn text(self) -> Seq<char> {
        match self {
            CallAuctionMarketDataConstructionError::InvalidLimits(error) => error.text(),
            CallAuctionMarketDataConstructionError::LimitsBelowSource {
                resource,
                selected,
                required,
            } => {
                "call-auction market-data "@ + resource.text() + " limit "@
                    + decimal(selected as nat) + " is below source requirement "@
                    + decimal(required as nat)
            },
            CallAuctionMarketDataConstructionError::ReservationFailed { resource, maximum } => {
                "failed to reserve call-auction market-data "@ + resource.text() + " through "@
                    + decimal(maximum as nat) + " entries"@
            },
            CallAuctionMarketDataConstructionError::Source(error) => {
                "call-auction market-data source is invalid: "@ + error.text()
            },
        }
    }

    /// Returns the diagnostic text.
    pub fn message(self) -> (r: String)
        ensures
            r@ == self.text(),
    {
        match self {
            CallAuctionMarketDataConstructionError::InvalidLimits(error) => error.message(),
            CallAuctionMarketDataConstructionError::LimitsBelowSource {
                resource,
                selected,
                required,
            } => {
                let mut text = String::from_str("call-auction market-data ");
                text.append(resource.message().as_str());
                text.append(" limit ");
                push_decimal(&mut text, selected as u128);
                text.append(" is below source requirement ");
                push_decimal(&mut text, required as u128);
                text
            },
            CallAuctionMarketDataConstructionError::ReservationFailed { resource, maximum } => {
                let mut text = String::from_str("failed to reserve call-auction market-data ");
                text.append(resource.message().as_str());
                text.append(" through ");
                push_decimal(&mut text, maximum as u128);
                text.append(" entries");
                text
            },
            CallAuctionMarketDataConstructionError::Source(error) => {
                let mut text = String::from_str("call-auction market-data source is invalid: ");
                text.append(error.message().as_str());
                text
            },
        }
    }
}

impl CallAuctionRiskLimitsError {
    /// The diagnostic text.
    pub open spec fn text(self) -> Seq<char> {
        match self {
            CallAuctionRiskLimitsError::ZeroRegisteredAccounts => {
                "registered auction risk-account limit is zero"@
            },
        }
    }

    /// Returns the diagnostic text.
    pub fn message(self) -> (r: String)
        ensures
            r@ == self.text(),
    {
        match self {
            CallAuctionRiskLimitsError::ZeroRegisteredAccounts => {
                String::from_str("registered auction risk-account limit is zero")
            },
        }
    }
}

impl CallAuctionRiskConstructionError {
    /// The diagnostic text.
    pub open spec fn text(self) -> Seq<char> {
        match self {
            CallAuctionRiskConstructionError::Auction(error) => {
                "call-auction risk engine: "@ + error.text()
            },
            CallAuctionRiskConstructionError::AccountReservationFailed => {
                "call-auction risk account reservation failed"@
            },
            CallAuctionRiskConstructionError::OrderReservationFailed => {
                "call-auction risk order reservation failed"@
            },
            CallAuctionRiskConstructionError::PositionScratchReservationFailed => {
                "call-auction risk position scratch reservation failed"@
            },
        }
    }

    /// Returns the diagnostic text.
    pub fn message(self) -> (r: String)
        ensures
            r@ == self.text(),
    {
        match self {
            CallAuctionRiskConstructionError::Auction(error) => {
                let mut text = String::from_str("call-auction risk engine: ");
                text.append(error.message().as_str());
                text
            },
            CallAuctionRiskConstructionError::AccountReservationFailed => {
                String::from_str("call-auction risk account reservation failed")
            },
            CallAuctionRiskConstructionError::OrderReservationFailed => {
                String::from_str("call-auction risk order reservation failed")
            },
            CallAuctionRiskConstructionError::PositionScratchReservationFailed => {
                String::from_str("call-auction risk position scratch reservation failed")
            },
        }
    }
}

impl RiskError {
    /// The diagnostic text.
    pub open spec fn text(self) -> Seq<char> {
        match self {
            RiskError::DuplicateProfile(account_id) => {
                "risk profile already registered for account "@ + decimal(account_id.value as nat)
            },
            RiskError::ProfileCapacityExhausted { maximum } => {
                "risk profile capacity "@ + decimal(maximum as nat) + " exhausted"@
            },
            RiskError::ProfileRegistryLocked => "risk profile registry is locked"@,
        }
    }

    /// Returns the diagnostic text.
    pub fn message(self) -> (r: String)
        ensures
            r@ == self.text(),
    {
        match self {
            RiskError::DuplicateProfile(account_id) => {
                let mut text = String::from_str("risk profile already registered for account ");
                push_decimal(&mut text, account_id.value as u128);
                text
            },
            RiskError::ProfileCapacityExhausted { maximum } => {
                let mut text = String::from_str("risk profile capacity ");
                push_decimal(&mut text, maximum as u128);
                text.append(" exhausted");
                text
            },
            RiskError::ProfileRegistryLocked => String::from_str("risk profile registry is locked"),
        }
    }
}

impl CallAuctionRiskCheckpointResource {
    /// The diagnostic text.
    pub open spec fn text(self) -> Seq<char> {
        match self {
            CallAuctionRiskCheckpointResource::CaptureAccounts => "capture accounts"@,
        }
    }

    /// Returns the diagnostic text.
    pub fn message(self) -> (r: String)
        ensures
            r@ == self.text(),
    {
        match self {
            CallAuctionRiskCheckpointResource::CaptureAccounts => {
                String::from_str("capture accounts")
            },
        }
    }
}

impl CallAuctionRiskCheckpointError {
    /// The diagnostic text.
    pub open spec fn text(self) -> Seq<char> {
        match self {
            CallAuctionRiskCheckpointError::Invalid(detail) => detail@,
            CallAuctionRiskCheckpointError::Auction(error) => error.text(),
            CallAuctionRiskCheckpointError::Construction(error) => {
                "failed to construct auction risk checkpoint shard: "@ + error.text()
            },
            CallAuctionRiskCheckpointError::Risk(error) => error.text(),
            CallAuctionRiskCheckpointError::ResourceReservationFailed { resource, maximum } => {
                "failed to reserve auction risk checkpoint "@ + resource.text() + " through "@
                    + decimal(maximum as nat) + " entries"@
            },
        }
    }

    /// Returns the diagnostic text.
    pub fn message(self) -> (r: String)
        ensures
            r@ == self.text(),
    {
        match self {
            CallAuctionRiskCheckpointError::Invalid(detail) => detail,
            CallAuctionRiskCheckpointError::Auction(error) => error.message(),
            CallAuctionRiskCheckpointError::Construction(error) => {
                let mut text = String::from_str(
                    "failed to construct auction risk checkpoint shard: ",
                );
                text.append(error.message().as_str());
                text
            },
            CallAuctionRiskCheckpointError::Risk(error) => error.message(),
            CallAuctionRiskCheckpointError::ResourceReservationFailed { resource, maximum } => {
                let mut text = String::from_str("failed to reserve auction risk checkpoint ");
                text.append(resource.message().as_str());
                text.append(" through ");
                push_decimal(&mut text, maximum as u128);
                text.append(" entries");
                text
            },
        }
    }
}

} // verus!
