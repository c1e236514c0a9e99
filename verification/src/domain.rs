//! Scalar values shared by every auction component.
//!
//! Identifiers and quantities are positive integers. A value built through its
//! constructor is never zero; `wf` states that fact for contracts.

use vstd::prelude::*;

verus! {

/// A scalar that its constructor refused.
#[derive(Clone, Copy, Debug, PartialEq, Eq, Structural)]
pub enum DomainError {
    /// An identifier was zero.
    ZeroIdentifier,
    /// A quantity was zero.
    ZeroQuantity,
}

/// Book side of an order.
#[derive(Clone, Copy, Debug, PartialEq, Eq, Hash, Structural)]
pub enum Side {
    /// Demand.
    Buy,
    /// Supply.
    Sell,
}

/// Sides selected by an account-scoped mass cancellation.
#[derive(Clone, Copy, Debug, PartialEq, Eq, Structural)]
pub enum MassCancelScope {
    /// Both sides.
    All,
    /// One side only.
    Side(Side),
}

impl MassCancelScope {
    /// Whether orders of `side` are selected.
    pub open spec fn selects(self, side: Side) -> bool {
        match self {
            MassCancelScope::All => true,
            MassCancelScope::Side(selected) => selected == side,
        }
    }

    /// Returns whether the scope selects orders of `side`.
    pub fn includes(self, side: Side) -> (r: bool)
        ensures
            r == self.selects(side),
    {
        match self {
            MassCancelScope::All => true,
            MassCancelScope::Side(selected) => selected == side,
        }
    }
}

/// Signed price in instrument-defined quanta.
#[derive(Clone, Copy, Debug, PartialEq, Eq, PartialOrd, Ord, Hash, Structural)]
pub struct Price {
    /// Raw signed quanta.
    pub raw: i64,
}

impl Price {
    /// Creates a price from its raw quanta.
    pub fn from_raw(raw: i64) -> (r: Self)
        ensures
            r.raw == raw,
    {
        Price { raw }
    }

    /// Returns the raw quanta.
    pub fn raw(self) -> (r: i64)
        ensures
            r == self.raw,
    {
        self.raw
    }
}

/// Positive quantity in instrument-defined lots.
#[derive(Clone, Copy, Debug, PartialEq, Eq, PartialOrd, Ord, Hash, Structural)]
pub struct Quantity {
    /// Lots.
    pub lots: u64,
}

impl Quantity {
    /// The quantity is positive.
    pub open spec fn wf(self) -> bool {
        self.lots != 0
    }

    /// Creates a positive quantity.
    pub fn new(lots: u64) -> (r: Result<Self, DomainError>)
        ensures
            match r {
                Ok(quantity) => lots != 0 && quantity.lots == lots,
                Err(error) => lots == 0 && error == DomainError::ZeroQuantity,
            },
    {
        if lots == 0 {
            Err(DomainError::ZeroQuantity)
        } else {
            Ok(Quantity { lots })
        }
    }

    /// Returns the quantity in lots.
    pub fn lots(self) -> (r: u64)
        ensures
            r == self.lots,
    {
        self.lots
    }
}

/// Nanoseconds since the Unix epoch.
#[derive(Clone, Copy, Debug, PartialEq, Eq, PartialOrd, Ord, Hash, Structural)]
pub struct TimestampNs {
    /// Elapsed nanoseconds.
    pub nanos: u64,
}

impl TimestampNs {
    /// Creates a timestamp from elapsed nanoseconds.
    pub fn from_unix_nanos(nanos: u64) -> (r: Self)
        ensures
            r.nanos == nanos,
    {
        TimestampNs { nanos }
    }

    /// Returns elapsed nanoseconds.
    pub fn unix_nanos(self) -> (r: u64)
        ensures
            r == self.nanos,
    {
        self.nanos
    }
}

/// Identity of one order.
#[derive(Clone, Copy, Debug, PartialEq, Eq, PartialOrd, Ord, Hash, Structural)]
pub struct OrderId {
    /// Positive scalar.
    pub value: u64,
}

impl OrderId {
    /// The identifier is positive.
    pub open spec fn wf(self) -> bool {
        self.value != 0
    }

    /// Creates a positive identifier.
    pub fn new(value: u64) -> (r: Result<Self, DomainError>)
        ensures
            match r {
                Ok(id) => value != 0 && id.value == value,
                Err(error) => value == 0 && error == DomainError::ZeroIdentifier,
            },
    {
        if value == 0 {
            Err(DomainError::ZeroIdentifier)
        } else {
            Ok(OrderId { value })
        }
    }

    /// Returns the scalar.
    pub fn get(self) -> (r: u64)
        ensures
            r == self.value,
    {
        self.value
    }
}

/// Identity of one trading account.
#[derive(Clone, Copy, Debug, PartialEq, Eq, PartialOrd, Ord, Hash, Structural)]
pub struct AccountId {
    /// Positive scalar.
    pub value: u64,
}

impl AccountId {
    /// The identifier is positive.
    pub open spec fn wf(self) -> bool {
        self.value != 0
    }

    /// Creates a positive identifier.
    pub fn new(value: u64) -> (r: Result<Self, DomainError>)
        ensures
            match r {
                Ok(id) => value != 0 && id.value == value,
                Err(error) => value == 0 && error == DomainError::ZeroIdentifier,
            },
    {
        if value == 0 {
            Err(DomainError::ZeroIdentifier)
        } else {
            Ok(AccountId { value })
        }
    }

    /// Returns the scalar.
    pub fn get(self) -> (r: u64)
        ensures
            r == self.value,
    {
        self.value
    }
}

/// Identity of one instrument.
#[derive(Clone, Copy, Debug, PartialEq, Eq, PartialOrd, Ord, Hash, Structural)]
pub struct InstrumentId {
    /// Positive scalar.
    pub value: u64,
}

impl InstrumentId {
    /// The identifier is positive.
    pub open spec fn wf(self) -> bool {
        self.value != 0
    }

    /// Creates a positive identifier.
    pub fn new(value: u64) -> (r: Result<Self, DomainError>)
        ensures
            match r {
                Ok(id) => value != 0 && id.value == value,
                Err(error) => value == 0 && error == DomainError::ZeroIdentifier,
            },
    {
        if value == 0 {
            Err(DomainError::ZeroIdentifier)
        } else {
            Ok(InstrumentId { value })
        }
    }

    /// Returns the scalar.
    pub fn get(self) -> (r: u64)
        ensures
            r == self.value,
    {
        self.value
    }
}

/// Immutable version of one instrument definition.
#[derive(Clone, Copy, Debug, PartialEq, Eq, PartialOrd, Ord, Hash, Structural)]
pub struct InstrumentVersion {
    /// Positive scalar.
    pub value: u64,
}

impl InstrumentVersion {
    /// The identifier is positive.
    pub open spec fn wf(self) -> bool {
        self.value != 0
    }

    /// Creates a positive identifier.
    pub fn new(value: u64) -> (r: Result<Self, DomainError>)
        ensures
            match r {
                Ok(id) => value != 0 && id.value == value,
                Err(error) => value == 0 && error == DomainError::ZeroIdentifier,
            },
    {
        if value == 0 {
            Err(DomainError::ZeroIdentifier)
        } else {
            Ok(InstrumentVersion { value })
        }
    }

    /// Returns the scalar.
    pub fn get(self) -> (r: u64)
        ensures
            r == self.value,
    {
        self.value
    }
}

/// Book-local identity of one execution.
#[derive(Clone, Copy, Debug, PartialEq, Eq, PartialOrd, Ord, Hash, Structural)]
pub struct TradeId {
    /// Positive scalar.
    pub value: u64,
}

impl TradeId {
    /// The identifier is positive.
    pub open spec fn wf(self) -> bool {
        self.value != 0
    }

    /// Creates a positive identifier.
    pub fn new(value: u64) -> (r: Result<Self, DomainError>)
        ensures
            match r {
                Ok(id) => value != 0 && id.value == value,
                Err(error) => value == 0 && error == DomainError::ZeroIdentifier,
            },
    {
        if value == 0 {
            Err(DomainError::ZeroIdentifier)
        } else {
            Ok(TradeId { value })
        }
    }

    /// Returns the scalar.
    pub fn get(self) -> (r: u64)
        ensures
            r == self.value,
    {
        self.value
    }
}

/// Identity of one auction cycle.
#[derive(Clone, Copy, Debug, PartialEq, Eq, PartialOrd, Ord, Hash, Structural)]
pub struct AuctionId {
    /// Positive scalar.
    pub value: u64,
}

impl AuctionId {
    /// The identifier is positive.
    pub open spec fn wf(self) -> bool {
        self.value != 0
    }

    /// Creates a positive identifier.
    pub fn new(value: u64) -> (r: Result<Self, DomainError>)
        ensures
            match r {
                Ok(id) => value != 0 && id.value == value,
                Err(error) => value == 0 && error == DomainError::ZeroIdentifier,
            },
    {
        if value == 0 {
            Err(DomainError::ZeroIdentifier)
        } else {
            Ok(AuctionId { value })
        }
    }

    /// Returns the scalar.
    pub fn get(self) -> (r: u64)
        ensures
            r == self.value,
    {
        self.value
    }
}

/// Identity of one command.
#[derive(Clone, Copy, Debug, PartialEq, Eq, PartialOrd, Ord, Hash, Structural)]
pub struct CommandId {
    /// Positive scalar.
    pub value: u64,
}

impl CommandId {
    /// The identifier is positive.
    pub open spec fn wf(self) -> bool {
        self.value != 0
    }

    /// Creates a positive identifier.
    pub fn new(value: u64) -> (r: Result<Self, DomainError>)
        ensures
            match r {
                Ok(id) => value != 0 && id.value == value,
                Err(error) => value == 0 && error == DomainError::ZeroIdentifier,
            },
    {
        if value == 0 {
            Err(DomainError::ZeroIdentifier)
        } else {
            Ok(CommandId { value })
        }
    }

    /// Returns the scalar.
    pub fn get(self) -> (r: u64)
        ensures
            r == self.value,
    {
        self.value
    }
}

} // verus!
