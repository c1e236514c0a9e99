//! The part of an instrument definition that an auction reads.

use vstd::prelude::*;

use crate::domain::{InstrumentId, InstrumentVersion, Price, Quantity};

verus! {

/// Instrument rule that an order violates.
#[derive(Clone, Copy, Debug, PartialEq, Eq, Structural)]
pub enum AdmissionError {
    /// The order is routed to another instrument.
    WrongInstrument,
    /// The order names another definition version.
    WrongVersion,
    /// The price is not a multiple of the tick size.
    PriceOffTick,
    /// The price lies outside the collar.
    PriceOutsideCollar,
    /// The quantity is below the minimum.
    QuantityBelowMinimum,
    /// The quantity exceeds the maximum.
    QuantityAboveMaximum,
    /// The quantity is not a multiple of the increment.
    QuantityOffIncrement,
}

/// Invalid instrument metadata.
#[derive(Clone, Copy, Debug, PartialEq, Eq, Structural)]
pub enum InstrumentError {
    /// The tick size is zero.
    ZeroTickSize,
    /// The collar is inverted.
    InvertedCollar,
    /// A quantity rule is zero.
    ZeroQuantityRule,
    /// The minimum quantity exceeds the maximum.
    InvertedQuantityRange,
}

/// Tick size and absolute collar.
#[derive(Clone, Copy, Debug, PartialEq, Eq, Structural)]
pub struct PriceRules {
    /// Decimal scale of the raw price.
    pub scale: u8,
    /// Raw-price increment.
    pub tick_size: u64,
    /// Lowest admissible price.
    pub minimum: Price,
    /// Highest admissible price.
    pub maximum: Price,
}

impl PriceRules {
    /// The tick is positive and the collar is ordered.
    pub open spec fn wf(self) -> bool {
        self.tick_size != 0 && self.minimum.raw <= self.maximum.raw
    }

    /// Whether a price is on the tick grid and inside the collar.
    pub open spec fn admits(self, price: Price) -> bool {
        price.raw as int % self.tick_size as int == 0 && self.minimum.raw <= price.raw
            <= self.maximum.raw
    }

    /// Creates price rules.
    pub fn new(scale: u8, tick_size: u64, minimum: Price, maximum: Price) -> (r: Result<
        Self,
        InstrumentError,
    >)
        ensures
            match r {
                Ok(rules) => rules.wf() && rules == (PriceRules {
                    scale,
                    tick_size,
                    minimum,
                    maximum,
                }),
                Err(error) => if tick_size == 0 {
                    error == InstrumentError::ZeroTickSize
                } else {
                    minimum.raw > maximum.raw && error == InstrumentError::InvertedCollar
                },
            },
    {
        if tick_size == 0 {
            return Err(InstrumentError::ZeroTickSize);
        }
        if minimum.raw > maximum.raw {
            return Err(InstrumentError::InvertedCollar);
        }
        Ok(PriceRules { scale, tick_size, minimum, maximum })
    }

    /// Returns the raw-price increment.
    pub fn tick_size(self) -> (r: u64)
        ensures
            r == self.tick_size,
    {
        self.tick_size
    }

    /// Returns the lowest admissible price.
    pub fn minimum(self) -> (r: Price)
        ensures
            r == self.minimum,
    {
        self.minimum
    }

    /// Returns the highest admissible price.
    pub fn maximum(self) -> (r: Price)
        ensures
            r == self.maximum,
    {
        self.maximum
    }

    /// The rule that a price violates.
    pub open spec fn fault(self, price: Price) -> Option<AdmissionError> {
        if price.raw as int % self.tick_size as int != 0 {
            Some(AdmissionError::PriceOffTick)
        } else if !(self.minimum.raw <= price.raw <= self.maximum.raw) {
            Some(AdmissionError::PriceOutsideCollar)
        } else {
            None
        }
    }

    /// Checks one price.
    pub fn validate(self, price: Price) -> (r: Result<(), AdmissionError>)
        requires
            self.wf(),
        ensures
            match r {
                Ok(_) => self.fault(price) is None && self.admits(price),
                Err(error) => self.fault(price) == Some(error) && !self.admits(price),
            },
    {
        let remainder: i128 = match (price.raw as i128).checked_rem_euclid(self.tick_size as i128) {
            Some(value) => value,
            None => 0,
        };
        if remainder != 0 {
            return Err(AdmissionError::PriceOffTick);
        }
        if price.raw < self.minimum.raw || price.raw > self.maximum.raw {
            return Err(AdmissionError::PriceOutsideCollar);
        }
        Ok(())
    }
}

/// Minimum, increment and maximum order quantity.
#[derive(Clone, Copy, Debug, PartialEq, Eq, Structural)]
pub struct QuantityRules {
    /// Smallest order in lots.
    pub minimum: u64,
    /// Lot increment.
    pub increment: u64,
    /// Largest order in lots.
    pub maximum: u64,
}

impl QuantityRules {
    /// Every rule is positive and the range is ordered.
    pub open spec fn wf(self) -> bool {
        self.minimum != 0 && self.increment != 0 && self.minimum <= self.maximum
    }

    /// Whether leaves are positive, aligned and within the maximum.
    pub open spec fn admits_leaves(self, quantity: Quantity) -> bool {
        0 < quantity.lots <= self.maximum && quantity.lots % self.increment == 0
    }

    /// Creates quantity rules.
    pub fn new(minimum: u64, increment: u64, maximum: u64) -> (r: Result<Self, InstrumentError>)
        ensures
            match r {
                Ok(rules) => rules.wf() && rules == (QuantityRules { minimum, increment, maximum }),
                Err(error) => if minimum == 0 || increment == 0 {
                    error == InstrumentError::ZeroQuantityRule
                } else {
                    minimum > maximum && error == InstrumentError::InvertedQuantityRange
                },
            },
    {
        if minimum == 0 || increment == 0 {
            return Err(InstrumentError::ZeroQuantityRule);
        }
        if minimum > maximum {
            return Err(InstrumentError::InvertedQuantityRange);
        }
        Ok(QuantityRules { minimum, increment, maximum })
    }

    /// Returns the lot increment.
    pub fn increment_lots(self) -> (r: u64)
        ensures
            r == self.increment,
    {
        self.increment
    }

    /// The rule that new-order leaves violate.
    pub open spec fn leaves_fault(self, quantity: Quantity) -> Option<AdmissionError> {
        if quantity.lots == 0 {
            Some(AdmissionError::QuantityBelowMinimum)
        } else if quantity.lots > self.maximum {
            Some(AdmissionError::QuantityAboveMaximum)
        } else if quantity.lots % self.increment != 0 {
            Some(AdmissionError::QuantityOffIncrement)
        } else {
            None
        }
    }

    /// The rule that an order quantity violates.
    pub open spec fn fault(self, quantity: Quantity) -> Option<AdmissionError> {
        if quantity.lots < self.minimum {
            Some(AdmissionError::QuantityBelowMinimum)
        } else {
            self.leaves_fault(quantity)
        }
    }

    /// Checks the quantity of a new order.
    pub fn validate(self, quantity: Quantity) -> (r: Result<(), AdmissionError>)
        requires
            self.wf(),
        ensures
            match r {
                Ok(_) => self.fault(quantity) is None && self.admits_leaves(quantity),
                Err(error) => self.fault(quantity) == Some(error),
            },
    {
        if quantity.lots < self.minimum {
            return Err(AdmissionError::QuantityBelowMinimum);
        }
        self.validate_leaves(quantity)
    }

    /// Checks the leaves of an active order, which may lie below the minimum.
    pub fn validate_leaves(self, quantity: Quantity) -> (r: Result<(), AdmissionError>)
        requires
            self.wf(),
        ensures
            match r {
                Ok(_) => self.leaves_fault(quantity) is None && self.admits_leaves(quantity),
                Err(error) => self.leaves_fault(quantity) == Some(error) && !self.admits_leaves(
                    quantity,
                ),
            },
    {
        if quantity.lots == 0 {
            return Err(AdmissionError::QuantityBelowMinimum);
        }
        if quantity.lots > self.maximum {
            return Err(AdmissionError::QuantityAboveMaximum);
        }
        if quantity.lots % self.increment != 0 {
            return Err(AdmissionError::QuantityOffIncrement);
        }
        Ok(())
    }
}

/// Immutable definition of one instrument version.
#[derive(Clone, Copy, Debug, PartialEq, Eq, Structural)]
pub struct InstrumentDefinition {
    /// Instrument identity.
    pub instrument_id: InstrumentId,
    /// Definition version.
    pub version: InstrumentVersion,
    /// Tick size and collar.
    pub price: PriceRules,
    /// Order quantity rules.
    pub quantity: QuantityRules,
}

impl InstrumentDefinition {
    /// Both rule sets are valid.
    pub open spec fn wf(self) -> bool {
        self.price.wf() && self.quantity.wf()
    }

    /// Creates a definition from validated parts.
    pub fn new(
        instrument_id: InstrumentId,
        version: InstrumentVersion,
        price: PriceRules,
        quantity: QuantityRules,
    ) -> (r: Self)
        ensures
            r == (InstrumentDefinition { instrument_id, version, price, quantity }),
            price.wf() && quantity.wf() ==> r.wf(),
    {
        InstrumentDefinition { instrument_id, version, price, quantity }
    }

    /// Returns the instrument identity.
    pub fn instrument_id(self) -> (r: InstrumentId)
        ensures
            r == self.instrument_id,
    {
        self.instrument_id
    }

    /// Returns the definition version.
    pub fn version(self) -> (r: InstrumentVersion)
        ensures
            r == self.version,
    {
        self.version
    }

    /// Returns tick size and collar.
    pub fn price_rules(self) -> (r: PriceRules)
        ensures
            r == self.price,
    {
        self.price
    }

    /// Returns the order quantity rules.
    pub fn quantity_rules(self) -> (r: QuantityRules)
        ensures
            r == self.quantity,
    {
        self.quantity
    }
}

} // verus!
