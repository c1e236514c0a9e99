//! Bounded crossed-interest collection for one call-auction instrument shard.
//!
//! The book owns active market and limit orders while an auction is collecting
//! interest. Opposing limit prices may lock or cross.

use vstd::prelude::*;

use crate::auction::{
    band_fault, AuctionError, AuctionLevel, AuctionOrder, AuctionOrderConstraint, AuctionPriceBand,
    AuctionPriceGrid,
};
use crate::book_lemmas::{lemma_account_member, lemma_queue_member};
use crate::book_state::{
    account_ok, empty_queue, empty_side, in_account, in_queue, lemma_account_ok, lemma_queue_ok,
    queue_ok, AuctionAccountIndex, AuctionAccountSideIndex, AuctionQueue, CallAuctionBook,
    CallAuctionUncrossPool, RestingAuctionOrder,
};
use crate::book_types::{
    CallAuctionAdmissionError, CallAuctionAmendError, CallAuctionAmendment, CallAuctionBookLimits,
    CallAuctionCancelError, CallAuctionCapacity, CallAuctionConstructionError, CallAuctionOrder,
    CallAuctionOrderSnapshot, CallAuctionReplaceError, CallAuctionReplacement,
};
use crate::domain::{AccountId, OrderId, Price, Quantity, Side};
use crate::instrument::{AdmissionError, InstrumentDefinition};
use crate::ordered_map::{index_reserved, OrderedMap};
use crate::storage::{scratch_reserved, Scratch};

verus! {

/// Why a definition cannot form an auction grid and band.
pub open spec fn price_configuration_fault(definition: InstrumentDefinition) -> Option<
    AuctionError,
> {
    let rules = definition.price;
    if !(0 < rules.tick_size <= i64::MAX) {
        Some(AuctionError::InvalidTickSize(rules.tick_size))
    } else {
        band_fault(
            AuctionPriceGrid { tick_size: rules.tick_size, tick_i64: rules.tick_size as i64 },
            rules.minimum,
            rules.maximum,
        )
    }
}

/// Builds the auction grid and band of a definition.
fn price_configuration(definition: InstrumentDefinition) -> (r: Result<
    (AuctionPriceGrid, AuctionPriceBand),
    CallAuctionConstructionError,
>)
    requires
        definition.wf(),
    ensures
        match r {
            Ok((grid, band)) => {
                &&& price_configuration_fault(definition) is None
                &&& grid.wf()
                &&& grid.tick_size == definition.price.tick_size
                &&& band.minimum == definition.price.minimum
                &&& band.maximum == definition.price.maximum
                &&& grid.aligned(band.minimum)
                &&& grid.aligned(band.maximum)
            },
            Err(error) => price_configuration_fault(definition) matches Some(fault) && error
                == CallAuctionConstructionError::InvalidInstrumentPriceConfiguration(fault),
        },
{
    let price_rules = definition.price_rules();
    let grid = match AuctionPriceGrid::new(price_rules.tick_size()) {
        Ok(grid) => grid,
        Err(error) => {
            return Err(CallAuctionConstructionError::InvalidInstrumentPriceConfiguration(error));
        },
    };
    match AuctionPriceBand::new(grid, price_rules.minimum(), price_rules.maximum()) {
        Ok(band) => Ok((grid, band)),
        Err(error) => Err(
            CallAuctionConstructionError::InvalidInstrumentPriceConfiguration(error),
        ),
    }
}

/// What could be reserved for a book.
#[derive(Debug)]
pub struct CallAuctionBookStorage {
    /// Bid limit-price index.
    pub bids: Option<OrderedMap<Price, AuctionQueue>>,
    /// Ask limit-price index.
    pub asks: Option<OrderedMap<Price, AuctionQueue>>,
    /// Active order-identity index.
    pub orders: Option<OrderedMap<OrderId, RestingAuctionOrder>>,
    /// Account-to-active-order index.
    pub account_orders: Option<OrderedMap<AccountId, AuctionAccountIndex>>,
    /// Accepted-order-identity index.
    pub seen_order_ids: Option<OrderedMap<OrderId, ()>>,
    /// Aggregate bid scratch.
    pub bid_level_scratch: Option<Scratch<AuctionLevel>>,
    /// Aggregate ask scratch.
    pub ask_level_scratch: Option<Scratch<AuctionLevel>>,
    /// Canonical buy order scratch.
    pub buy_order_scratch: Option<Scratch<AuctionOrder>>,
    /// Canonical sell order scratch.
    pub sell_order_scratch: Option<Scratch<AuctionOrder>>,
    /// Uncross buffer sets.
    pub uncross_pool: Result<CallAuctionUncrossPool, CallAuctionConstructionError>,
}

impl CallAuctionBookStorage {
    /// Whatever was reserved is empty and has its configured size.
    pub open spec fn sized(&self, limits: CallAuctionBookLimits) -> bool {
        &&& index_reserved(self.bids, limits.price_levels_per_side)
        &&& index_reserved(self.asks, limits.price_levels_per_side)
        &&& index_reserved(self.orders, limits.active_orders)
        &&& index_reserved(self.account_orders, limits.active_orders)
        &&& index_reserved(self.seen_order_ids, limits.accepted_order_ids)
        &&& scratch_reserved(self.bid_level_scratch, limits.price_levels_per_side)
        &&& scratch_reserved(self.ask_level_scratch, limits.price_levels_per_side)
        &&& scratch_reserved(self.buy_order_scratch, limits.active_orders)
        &&& scratch_reserved(self.sell_order_scratch, limits.active_orders)
        &&& self.uncross_pool matches Ok(pool) ==> {
            &&& pool.wf()
            &&& pool.available@.len() == limits.prepared_uncrosses
            &&& pool.capacity == limits.prepared_uncrosses
            &&& pool.buffer_capacity == limits.active_orders
        }
    }

    /// The first resource that could not be reserved.
    pub open spec fn fault(&self) -> Option<CallAuctionConstructionError> {
        if self.bids is None {
            Some(
                CallAuctionConstructionError::CapacityReservationFailed(
                    CallAuctionCapacity::BidPriceLevels,
                ),
            )
        } else if self.asks is None {
            Some(
                CallAuctionConstructionError::CapacityReservationFailed(
                    CallAuctionCapacity::AskPriceLevels,
                ),
            )
        } else if self.orders is None {
            Some(
                CallAuctionConstructionError::CapacityReservationFailed(
                    CallAuctionCapacity::ActiveOrders,
                ),
            )
        } else if self.account_orders is None {
            Some(
                CallAuctionConstructionError::CapacityReservationFailed(
                    CallAuctionCapacity::ActiveAccounts,
                ),
            )
        } else if self.seen_order_ids is None {
            Some(
                CallAuctionConstructionError::CapacityReservationFailed(
                    CallAuctionCapacity::AcceptedOrderIds,
                ),
            )
        } else if self.bid_level_scratch is None {
            Some(
                CallAuctionConstructionError::CapacityReservationFailed(
                    CallAuctionCapacity::BidLevelScratch,
                ),
            )
        } else if self.ask_level_scratch is None {
            Some(
                CallAuctionConstructionError::CapacityReservationFailed(
                    CallAuctionCapacity::AskLevelScratch,
                ),
            )
        } else if self.buy_order_scratch is None {
            Some(
                CallAuctionConstructionError::CapacityReservationFailed(
                    CallAuctionCapacity::BuyOrderScratch,
                ),
            )
        } else if self.sell_order_scratch is None {
            Some(
                CallAuctionConstructionError::CapacityReservationFailed(
                    CallAuctionCapacity::SellOrderScratch,
                ),
            )
        } else {
            match self.uncross_pool {
                Ok(_) => None,
                Err(error) => Some(error),
            }
        }
    }

    /// Asks for every mutation and analysis index.
    ///
    /// Which of them are granted depends on the allocator.
    pub fn reserve(limits: CallAuctionBookLimits) -> (r: Self)
        ensures
            r.sized(limits),
            r.uncross_pool matches Err(error) ==> error is CapacityReservationFailed,
    {
        CallAuctionBookStorage {
            bids: OrderedMap::try_with_capacity(limits.price_levels_per_side),
            asks: OrderedMap::try_with_capacity(limits.price_levels_per_side),
            orders: OrderedMap::try_with_capacity(limits.active_orders),
            account_orders: OrderedMap::try_with_capacity(limits.active_orders),
            seen_order_ids: OrderedMap::try_with_capacity(limits.accepted_order_ids),
            bid_level_scratch: Scratch::try_with_capacity(limits.price_levels_per_side),
            ask_level_scratch: Scratch::try_with_capacity(limits.price_levels_per_side),
            buy_order_scratch: Scratch::try_with_capacity(limits.active_orders),
            sell_order_scratch: Scratch::try_with_capacity(limits.active_orders),
            uncross_pool: CallAuctionUncrossPool::try_new(
                limits.prepared_uncrosses,
                limits.active_orders,
            ),
        }
    }
}

impl CallAuctionBook {
    /// The book holds no order and has seen none.
    pub open spec fn is_new(&self) -> bool {
        &&& self.active() == Map::<OrderId, CallAuctionOrderSnapshot>::empty()
        &&& self.accepted() == Set::<OrderId>::empty()
        &&& self.next_priority_sequence == 1
        &&& self.next_trade_id == 1
        &&& self.state_revision == 0
    }

    /// Creates an empty book under default finite limits.
    ///
    /// `instance_id` distinguishes this book from every other live book. A
    /// valid configuration fails only when storage cannot be reserved or the
    /// identity space is exhausted.
    pub fn try_new(definition: InstrumentDefinition, instance_id: u64) -> (r: Result<
        Self,
        CallAuctionConstructionError,
    >)
        requires
            definition.wf(),
        ensures
            match price_configuration_fault(definition) {
                Some(fault) => r matches Err(error) && error
                    == CallAuctionConstructionError::InvalidInstrumentPriceConfiguration(fault),
                None => match r {
                    Ok(book) => {
                        &&& book.wf()
                        &&& book.is_new()
                        &&& book.definition == definition
                        &&& book.limits.active_orders == 4_096
                        &&& book.limits.price_levels_per_side == 4_096
                        &&& book.limits.accepted_order_ids == 65_536
                        &&& book.limits.prepared_uncrosses == 2
                        &&& book.uncross_pool.available@.len() == book.limits.prepared_uncrosses
                        &&& book.instance_id == instance_id < u64::MAX
                    },
                    Err(error) => error is CapacityReservationFailed || (instance_id == u64::MAX
                        && error == CallAuctionConstructionError::BookInstanceIdExhausted),
                },
            },
    {
        Self::try_with_limits(definition, CallAuctionBookLimits::default(), instance_id)
    }

    /// Creates an empty book and reserves every mutation and analysis index.
    ///
    /// `instance_id` distinguishes this book from every other live book. A
    /// valid configuration fails only when storage cannot be reserved or the
    /// identity space is exhausted.
    pub fn try_with_limits(
        definition: InstrumentDefinition,
        limits: CallAuctionBookLimits,
        instance_id: u64,
    ) -> (r: Result<Self, CallAuctionConstructionError>)
        requires
            definition.wf(),
            limits.wf(),
        ensures
            match price_configuration_fault(definition) {
                Some(fault) => r matches Err(error) && error
                    == CallAuctionConstructionError::InvalidInstrumentPriceConfiguration(fault),
                None => match r {
                    Ok(book) => {
                        &&& book.wf()
                        &&& book.is_new()
                        &&& book.definition == definition
                        &&& book.limits == limits
                        &&& book.instance_id == instance_id < u64::MAX
                        &&& book.uncross_pool.available@.len() == limits.prepared_uncrosses
                    },
                    Err(error) => error is CapacityReservationFailed || (instance_id == u64::MAX
                        && error == CallAuctionConstructionError::BookInstanceIdExhausted),
                },
            },
    {
        if let Err(error) = price_configuration(definition) {
            return Err(error);
        }
        Self::from_storage(definition, limits, instance_id, CallAuctionBookStorage::reserve(limits))
    }

    /// Creates an empty book over reserved storage.
    ///
    /// The first resource that could not be reserved is named.
    pub fn from_storage(
        definition: InstrumentDefinition,
        limits: CallAuctionBookLimits,
        instance_id: u64,
        storage: CallAuctionBookStorage,
    ) -> (r: Result<Self, CallAuctionConstructionError>)
        requires
            definition.wf(),
            limits.wf(),
            storage.sized(limits),
        ensures
            match r {
                Ok(book) => {
                    &&& price_configuration_fault(definition) is None
                    &&& storage.fault() is None
                    &&& book.wf()
                    &&& book.is_new()
                    &&& book.definition == definition
                    &&& book.limits == limits
                    &&& book.instance_id == instance_id < u64::MAX
                    &&& book.uncross_pool.available@.len() == limits.prepared_uncrosses
                },
                Err(error) => error == (if price_configuration_fault(definition) is Some {
                    CallAuctionConstructionError::InvalidInstrumentPriceConfiguration(
                        price_configuration_fault(definition)->0,
                    )
                } else if storage.fault() is Some {
                    storage.fault()->0
                } else {
                    CallAuctionConstructionError::BookInstanceIdExhausted
                }) && (price_configuration_fault(definition) is Some || storage.fault() is Some
                    || instance_id == u64::MAX),
            },
    {
        let (grid, instrument_band) = match price_configuration(definition) {
            Ok(configuration) => configuration,
            Err(error) => {
                return Err(error);
            },
        };
        let bids = match storage.bids {
            Some(values) => values,
            None => {
                return Err(
                    CallAuctionConstructionError::CapacityReservationFailed(
                        CallAuctionCapacity::BidPriceLevels,
                    ),
                );
            },
        };
        let asks = match storage.asks {
            Some(values) => values,
            None => {
                return Err(
                    CallAuctionConstructionError::CapacityReservationFailed(
                        CallAuctionCapacity::AskPriceLevels,
                    ),
                );
            },
        };
        let orders = match storage.orders {
            Some(values) => values,
            None => {
                return Err(
                    CallAuctionConstructionError::CapacityReservationFailed(
                        CallAuctionCapacity::ActiveOrders,
                    ),
                );
            },
        };
        let account_orders = match storage.account_orders {
            Some(values) => values,
            None => {
                return Err(
                    CallAuctionConstructionError::CapacityReservationFailed(
                        CallAuctionCapacity::ActiveAccounts,
                    ),
                );
            },
        };
        let seen_order_ids = match storage.seen_order_ids {
            Some(values) => values,
            None => {
                return Err(
                    CallAuctionConstructionError::CapacityReservationFailed(
                        CallAuctionCapacity::AcceptedOrderIds,
                    ),
                );
            },
        };
        let bid_level_scratch = match storage.bid_level_scratch {
            Some(values) => values,
            None => {
                return Err(
                    CallAuctionConstructionError::CapacityReservationFailed(
                        CallAuctionCapacity::BidLevelScratch,
                    ),
                );
            },
        };
        let ask_level_scratch = match storage.ask_level_scratch {
            Some(values) => values,
            None => {
                return Err(
                    CallAuctionConstructionError::CapacityReservationFailed(
                        CallAuctionCapacity::AskLevelScratch,
                    ),
                );
            },
        };
        let buy_order_scratch = match storage.buy_order_scratch {
            Some(values) => values,
            None => {
                return Err(
                    CallAuctionConstructionError::CapacityReservationFailed(
                        CallAuctionCapacity::BuyOrderScratch,
                    ),
                );
            },
        };
        let sell_order_scratch = match storage.sell_order_scratch {
            Some(values) => values,
            None => {
                return Err(
                    CallAuctionConstructionError::CapacityReservationFailed(
                        CallAuctionCapacity::SellOrderScratch,
                    ),
                );
            },
        };
        let uncross_pool = match storage.uncross_pool {
            Ok(pool) => pool,
            Err(error) => {
                return Err(error);
            },
        };
        if instance_id == u64::MAX {
            return Err(CallAuctionConstructionError::BookInstanceIdExhausted);
        }
        let book = CallAuctionBook {
            instance_id,
            definition,
            limits,
            grid,
            instrument_band,
            orders,
            account_orders,
            seen_order_ids,
            bids,
            asks,
            market_buys: AuctionQueue::default(),
            market_sells: AuctionQueue::default(),
            next_priority_sequence: 1,
            next_trade_id: 1,
            state_revision: 0,
            bid_level_scratch,
            ask_level_scratch,
            buy_order_scratch,
            sell_order_scratch,
            uncross_pool,
        };
        proof {
            let none = Seq::<OrderId>::empty();
            assert forall|side: Side, constraint: AuctionOrderConstraint| queue_ok(
                book.orders@,
                #[trigger] book.queue_of(side, constraint),
                side,
                constraint,
            ) by {
                reveal(crate::book_state::ascending);
                assert(book.queue_of(side, constraint) == empty_queue());
                lemma_queue_ok(book.orders@, empty_queue(), side, constraint, none);
            }
            assert forall|account: AccountId, side: Side| account_ok(
                book.orders@,
                #[trigger] book.account_side(account, side),
                account,
                side,
            ) by {
                assert(book.account_side(account, side) == empty_side());
                lemma_account_ok(book.orders@, empty_side(), account, side, none);
            }
            assert(book.active() =~= Map::<OrderId, CallAuctionOrderSnapshot>::empty());
            assert(book.accepted() =~= Set::<OrderId>::empty());
        }
        Ok(book)
    }

    /// The instrument rule that an order request violates.
    pub open spec fn command_fault(&self, command: CallAuctionOrder) -> Option<
        CallAuctionAdmissionError,
    > {
        if command.instrument_id != self.definition.instrument_id {
            Some(CallAuctionAdmissionError::Instrument(AdmissionError::WrongInstrument))
        } else if command.instrument_version != self.definition.version {
            Some(CallAuctionAdmissionError::Instrument(AdmissionError::WrongVersion))
        } else if self.definition.quantity.fault(command.quantity) is Some {
            Some(
                CallAuctionAdmissionError::Instrument(
                    self.definition.quantity.fault(command.quantity)->0,
                ),
            )
        } else {
            match command.constraint {
                AuctionOrderConstraint::Market => None,
                AuctionOrderConstraint::Limit(price) => match self.definition.price.fault(price) {
                    Some(error) => Some(CallAuctionAdmissionError::Instrument(error)),
                    None => None,
                },
            }
        }
    }

    fn validate_command(&self, command: CallAuctionOrder) -> (r: Result<
        (),
        CallAuctionAdmissionError,
    >)
        requires
            self.definition.wf(),
        ensures
            match r {
                Ok(_) => {
                    &&& self.command_fault(command) is None
                    &&& self.definition.quantity.admits_leaves(command.quantity)
                    &&& (command.constraint matches AuctionOrderConstraint::Limit(price)
                        ==> self.definition.price.admits(price))
                },
                Err(error) => self.command_fault(command) == Some(error),
            },
    {
        if command.instrument_id != self.definition.instrument_id() {
            return Err(CallAuctionAdmissionError::Instrument(AdmissionError::WrongInstrument));
        }
        if command.instrument_version != self.definition.version() {
            return Err(CallAuctionAdmissionError::Instrument(AdmissionError::WrongVersion));
        }
        match self.definition.quantity_rules().validate(command.quantity) {
            Ok(()) => {},
            Err(error) => {
                return Err(CallAuctionAdmissionError::Instrument(error));
            },
        }
        if let AuctionOrderConstraint::Limit(price) = command.constraint {
            match self.definition.price_rules().validate(price) {
                Ok(()) => {},
                Err(error) => {
                    return Err(CallAuctionAdmissionError::Instrument(error));
                },
            }
        }
        Ok(())
    }

    /// The first reason why an order is not admitted.
    pub open spec fn admission_fault(&self, command: CallAuctionOrder) -> Option<
        CallAuctionAdmissionError,
    > {
        if self.command_fault(command) is Some {
            self.command_fault(command)
        } else if self.accepted().contains(command.order_id) {
            Some(CallAuctionAdmissionError::DuplicateOrderId)
        } else if self.active().len() >= self.limits.active_orders {
            Some(CallAuctionAdmissionError::CapacityExceeded(CallAuctionCapacity::ActiveOrders))
        } else if self.accepted().len() >= self.limits.accepted_order_ids {
            Some(CallAuctionAdmissionError::CapacityExceeded(CallAuctionCapacity::AcceptedOrderIds))
        } else if !self.level_room(command.side, command.constraint) {
            Some(CallAuctionAdmissionError::CapacityExceeded(level_capacity(command.side)))
        } else if self.next_priority_sequence == u64::MAX {
            Some(CallAuctionAdmissionError::PrioritySequenceExhausted)
        } else if self.state_revision == u64::MAX {
            Some(CallAuctionAdmissionError::StateRevisionExhausted)
        } else if !Self::aggregates_fit(
            self.queue_of(command.side, command.constraint),
            self.account_side(command.account_id, command.side),
            command.quantity,
        ) {
            Some(CallAuctionAdmissionError::AggregateQuantityOverflow(command.side))
        } else {
            None
        }
    }

    /// The active state that an admitted order receives.
    pub open spec fn admitted(&self, command: CallAuctionOrder) -> CallAuctionOrderSnapshot {
        CallAuctionOrderSnapshot {
            order_id: command.order_id,
            account_id: command.account_id,
            side: command.side,
            constraint: command.constraint,
            quantity: command.quantity,
            priority_class: command.priority_class,
            priority_sequence: self.next_priority_sequence,
        }
    }

    /// The number of active orders is the number of visible orders.
    proof fn lemma_active_len(&self)
        ensures
            self.active().dom() == self.orders@.dom(),
            self.active().len() == self.orders@.len(),
    {
        assert(self.active().dom() =~= self.orders@.dom());
    }

    /// Checks whether one order would be admitted.
    pub(crate) fn preflight_admission(&self, command: CallAuctionOrder) -> (r: Result<
        (),
        CallAuctionAdmissionError,
    >)
        requires
            self.wf(),
        ensures
            match r {
                Ok(_) => self.admission_fault(command) is None
                    && self.definition.quantity.admits_leaves(command.quantity) && (
                command.constraint matches AuctionOrderConstraint::Limit(price)
                    ==> self.definition.price.admits(price)),
                Err(error) => self.admission_fault(command) == Some(error),
            },
    {
        proof {
            self.lemma_active_len();
            self.bids.lemma_view();
            self.asks.lemma_view();
        }
        match self.validate_command(command) {
            Ok(()) => {},
            Err(error) => {
                return Err(error);
            },
        }
        if self.seen_order_ids.contains_key(command.order_id) {
            return Err(CallAuctionAdmissionError::DuplicateOrderId);
        }
        if self.orders.len() >= self.limits.active_orders {
            return Err(
                CallAuctionAdmissionError::CapacityExceeded(CallAuctionCapacity::ActiveOrders),
            );
        }
        if self.seen_order_ids.len() >= self.limits.accepted_order_ids {
            return Err(
                CallAuctionAdmissionError::CapacityExceeded(CallAuctionCapacity::AcceptedOrderIds),
            );
        }
        if let AuctionOrderConstraint::Limit(price) = command.constraint {
            let (occupied, count) = match command.side {
                Side::Buy => (self.bids.contains_key(price), self.bids.len()),
                Side::Sell => (self.asks.contains_key(price), self.asks.len()),
            };
            if !occupied && count >= self.limits.price_levels_per_side {
                return Err(
                    CallAuctionAdmissionError::CapacityExceeded(
                        match command.side {
                            Side::Buy => CallAuctionCapacity::BidPriceLevels,
                            Side::Sell => CallAuctionCapacity::AskPriceLevels,
                        },
                    ),
                );
            }
        }
        if self.next_priority_sequence == u64::MAX {
            return Err(CallAuctionAdmissionError::PrioritySequenceExhausted);
        }
        if self.state_revision == u64::MAX {
            return Err(CallAuctionAdmissionError::StateRevisionExhausted);
        }
        let queue = self.queue_snapshot(command.side, command.constraint);
        let account_side = self.account_side_snapshot(command.account_id, command.side);
        if !aggregates_fit_exec(queue, account_side, command.quantity) {
            return Err(CallAuctionAdmissionError::AggregateQuantityOverflow(command.side));
        }
        Ok(())
    }

    /// Admits one market or limit order at authoritative class/time priority.
    ///
    /// Market orders precede limit orders, limit prices are ordered by
    /// aggressiveness, lower priority classes precede higher classes within an
    /// equal constraint, and admission sequence orders interest within one
    /// class. A refused order leaves the book unchanged.
    pub fn admit_order(&mut self, command: CallAuctionOrder) -> (r: Result<
        CallAuctionOrderSnapshot,
        CallAuctionAdmissionError,
    >)
        requires
            old(self).wf(),
        ensures
            final(self).wf(),
            match old(self).admission_fault(command) {
                Some(fault) => r == Err::<CallAuctionOrderSnapshot, CallAuctionAdmissionError>(
                    fault,
                ) && *final(self) == *old(self),
                None => r == Ok::<CallAuctionOrderSnapshot, CallAuctionAdmissionError>(
                    old(self).admitted(command),
                ) && final(self).admits_from(old(self), command),
            },
    {
        match self.preflight_admission(command) {
            Ok(()) => {},
            Err(error) => {
                return Err(error);
            },
        }
        proof {
            self.lemma_active_len();
        }
        let next_priority_sequence: u64 = self.next_priority_sequence + 1;
        let next_state_revision: u64 = self.state_revision + 1;
        Ok(self.insert_preflighted(command, next_priority_sequence, next_state_revision))
    }

    /// This book is `old` after one admission.
    pub open spec fn admits_from(&self, old: &Self, command: CallAuctionOrder) -> bool {
        &&& self.same_shell(old)
        &&& self.active() == old.active().insert(command.order_id, old.admitted(command))
        &&& self.accepted() == old.accepted().insert(command.order_id)
        &&& self.next_priority_sequence == old.next_priority_sequence + 1
        &&& self.state_revision == old.state_revision + 1
        &&& self.next_trade_id == old.next_trade_id
    }

    /// Whether an order can be inserted without further checks.
    pub open spec fn insertable(&self, command: CallAuctionOrder) -> bool {
        &&& !self.accepted().contains(command.order_id)
        &&& self.orders@.len() < self.limits.active_orders
        &&& self.seen_order_ids@.len() < self.limits.accepted_order_ids
        &&& self.definition.quantity.admits_leaves(command.quantity)
        &&& (command.constraint matches AuctionOrderConstraint::Limit(price)
            ==> self.definition.price.admits(price))
        &&& self.level_room(command.side, command.constraint)
        &&& self.next_priority_sequence < u64::MAX
        &&& self.state_revision < u64::MAX
        &&& Self::aggregates_fit(
            self.queue_of(command.side, command.constraint),
            self.account_side(command.account_id, command.side),
            command.quantity,
        )
    }

    fn insert_preflighted(
        &mut self,
        command: CallAuctionOrder,
        next_priority_sequence: u64,
        next_state_revision: u64,
    ) -> (r: CallAuctionOrderSnapshot)
        requires
            old(self).wf(),
            old(self).insertable(command),
            next_priority_sequence == old(self).next_priority_sequence + 1,
            next_state_revision == old(self).state_revision + 1,
        ensures
            final(self).wf(),
            r == old(self).admitted(command),
            final(self).admits_from(old(self), command),
    {
        let ghost entry = *self;
        let snapshot = CallAuctionOrderSnapshot {
            order_id: command.order_id,
            account_id: command.account_id,
            side: command.side,
            constraint: command.constraint,
            quantity: command.quantity,
            priority_class: command.priority_class,
            priority_sequence: self.next_priority_sequence,
        };
        proof {
            self.seen_order_ids.lemma_view();
            if self.orders@.dom().contains(command.order_id) {
                assert(self.order_ok(command.order_id));
            }
        }
        let _seen = self.seen_order_ids.insert(command.order_id, ());
        self.next_priority_sequence = next_priority_sequence;
        self.state_revision = next_state_revision;
        proof {
            self.seen_order_ids.lemma_view();
            assert(self.accepted() =~= entry.accepted().insert(command.order_id));
            assert forall|id: OrderId| #[trigger] self.orders@.dom().contains(id) implies self.order_ok(
                id,
            ) by {
                assert(entry.order_ok(id));
            }
            assert forall|side: Side, constraint: AuctionOrderConstraint| queue_ok(
                self.orders@,
                #[trigger] self.queue_of(side, constraint),
                side,
                constraint,
            ) by {
                assert(self.queue_of(side, constraint) == entry.queue_of(side, constraint));
            }
            assert forall|account: AccountId, side: Side| account_ok(
                self.orders@,
                #[trigger] self.account_side(account, side),
                account,
                side,
            ) by {
                assert(self.account_side(account, side) == entry.account_side(account, side));
            }
            assert forall|id: OrderId| #[trigger] in_queue(
                self.orders@,
                id,
                snapshot.side,
                snapshot.constraint,
            ) implies self.orders@[id].priority_sequence < snapshot.priority_sequence by {
                assert(entry.order_ok(id));
            }
            assert(self.level_room(snapshot.side, snapshot.constraint));
            assert(self.queue_of(snapshot.side, snapshot.constraint) == entry.queue_of(
                snapshot.side,
                snapshot.constraint,
            ));
            assert(self.account_side(snapshot.account_id, snapshot.side) == entry.account_side(
                snapshot.account_id,
                snapshot.side,
            ));
            assert(self.active() == entry.active());
        }
        self.link_order(snapshot);
        snapshot
    }

    /// The first reason why a cancellation is refused.
    pub open spec fn cancel_fault(&self, account_id: AccountId, order_id: OrderId) -> Option<
        CallAuctionCancelError,
    > {
        if !self.active().dom().contains(order_id) {
            Some(CallAuctionCancelError::UnknownOrder)
        } else if self.active()[order_id].account_id != account_id {
            Some(CallAuctionCancelError::AccountMismatch)
        } else if self.state_revision == u64::MAX {
            Some(CallAuctionCancelError::StateRevisionExhausted)
        } else {
            None
        }
    }

    /// Checks whether one order could be canceled by an account.
    pub(crate) fn preflight_cancel(&self, account_id: AccountId, order_id: OrderId) -> (r: Result<
        CallAuctionOrderSnapshot,
        CallAuctionCancelError,
    >)
        requires
            self.orders.wf(),
        ensures
            match self.cancel_fault(account_id, order_id) {
                Some(fault) => r == Err::<CallAuctionOrderSnapshot, CallAuctionCancelError>(fault),
                None => r == Ok::<CallAuctionOrderSnapshot, CallAuctionCancelError>(
                    self.active()[order_id],
                ),
            },
    {
        let order = match self.orders.get(order_id) {
            Some(order) => order,
            None => {
                return Err(CallAuctionCancelError::UnknownOrder);
            },
        };
        if order.account_id != account_id {
            return Err(CallAuctionCancelError::AccountMismatch);
        }
        if self.state_revision == u64::MAX {
            return Err(CallAuctionCancelError::StateRevisionExhausted);
        }
        Ok(order.snapshot())
    }

    /// Cancels one active order after exact owner verification.
    ///
    /// Accepted order identity remains retained and cannot be reused. A refused
    /// request leaves the book unchanged.
    pub fn cancel(&mut self, account_id: AccountId, order_id: OrderId) -> (r: Result<
        CallAuctionOrderSnapshot,
        CallAuctionCancelError,
    >)
        requires
            old(self).wf(),
        ensures
            final(self).wf(),
            match old(self).cancel_fault(account_id, order_id) {
                Some(fault) => r == Err::<CallAuctionOrderSnapshot, CallAuctionCancelError>(fault)
                    && *final(self) == *old(self),
                None => {
                    &&& r == Ok::<CallAuctionOrderSnapshot, CallAuctionCancelError>(
                        old(self).active()[order_id],
                    )
                    &&& final(self).cancels_from(old(self), order_id)
                },
            },
    {
        let snapshot = match self.preflight_cancel(account_id, order_id) {
            Ok(snapshot) => snapshot,
            Err(error) => {
                return Err(error);
            },
        };
        let next_state_revision: u64 = self.state_revision + 1;
        let _removed = self.remove_active_order(order_id);
        self.set_revision(next_state_revision);
        Ok(snapshot)
    }

    /// This book is `old` after one cancellation.
    pub open spec fn cancels_from(&self, old: &Self, order_id: OrderId) -> bool {
        &&& self.same_shell(old)
        &&& self.active() == old.active().remove(order_id)
        &&& self.accepted() == old.accepted()
        &&& self.next_priority_sequence == old.next_priority_sequence
        &&& self.state_revision == old.state_revision + 1
        &&& self.next_trade_id == old.next_trade_id
    }

    /// Everything but revision and trade identity is unchanged.
    pub open spec fn same_but_counters(&self, other: &Self) -> bool {
        &&& self.same_shell(other)
        &&& self.orders == other.orders
        &&& self.account_orders == other.account_orders
        &&& self.seen_order_ids == other.seen_order_ids
        &&& self.bids == other.bids
        &&& self.asks == other.asks
        &&& self.market_buys == other.market_buys
        &&& self.market_sells == other.market_sells
        &&& self.next_priority_sequence == other.next_priority_sequence
    }

    /// Well-formedness does not depend on revision or trade identity.
    pub(crate) proof fn lemma_counters(&self, other: &Self)
        requires
            other.wf(),
            self.same_but_counters(other),
            self.next_trade_id > 0,
        ensures
            self.wf(),
            self.active() == other.active(),
    {
        assert forall|side: Side, constraint: AuctionOrderConstraint| queue_ok(
            self.orders@,
            #[trigger] self.queue_of(side, constraint),
            side,
            constraint,
        ) by {
            assert(self.queue_of(side, constraint) == other.queue_of(side, constraint));
        }
        assert forall|account: AccountId, side: Side| account_ok(
            self.orders@,
            #[trigger] self.account_side(account, side),
            account,
            side,
        ) by {
            assert(self.account_side(account, side) == other.account_side(account, side));
        }
        assert forall|id: OrderId| #[trigger] self.orders@.dom().contains(id) implies self.order_ok(
            id,
        ) by {
            assert(other.order_ok(id));
        }
    }

    /// Sets the mutation revision.
    pub(crate) fn set_revision(&mut self, state_revision: u64)
        requires
            old(self).wf(),
        ensures
            final(self).wf(),
            final(self).same_but_counters(old(self)),
            final(self).active() == old(self).active(),
            final(self).next_trade_id == old(self).next_trade_id,
            final(self).state_revision == state_revision,
    {
        let ghost entry = *self;
        self.state_revision = state_revision;
        proof {
            self.lemma_counters(&entry);
        }
    }

    /// The first reason why an amendment is refused.
    pub open spec fn amend_fault(
        &self,
        account_id: AccountId,
        order_id: OrderId,
        new_quantity: Quantity,
    ) -> Option<CallAuctionAmendError> {
        if !self.active().dom().contains(order_id) {
            Some(CallAuctionAmendError::UnknownOrder)
        } else if self.active()[order_id].account_id != account_id {
            Some(CallAuctionAmendError::AccountMismatch)
        } else if self.definition.quantity.leaves_fault(new_quantity) is Some {
            Some(
                CallAuctionAmendError::Instrument(
                    self.definition.quantity.leaves_fault(new_quantity)->0,
                ),
            )
        } else if new_quantity.lots >= self.active()[order_id].quantity.lots {
            Some(CallAuctionAmendError::QuantityNotReduced)
        } else if self.state_revision == u64::MAX {
            Some(CallAuctionAmendError::StateRevisionExhausted)
        } else {
            None
        }
    }

    /// Checks whether one order could be reduced by an account.
    pub(crate) fn preflight_amend(
        &self,
        account_id: AccountId,
        order_id: OrderId,
        new_quantity: Quantity,
    ) -> (r: Result<CallAuctionOrderSnapshot, CallAuctionAmendError>)
        requires
            self.orders.wf(),
            self.definition.wf(),
        ensures
            match self.amend_fault(account_id, order_id, new_quantity) {
                Some(fault) => r == Err::<CallAuctionOrderSnapshot, CallAuctionAmendError>(fault),
                None => r == Ok::<CallAuctionOrderSnapshot, CallAuctionAmendError>(
                    self.active()[order_id],
                ) && self.definition.quantity.admits_leaves(new_quantity),
            },
    {
        let order = match self.orders.get(order_id) {
            Some(order) => order,
            None => {
                return Err(CallAuctionAmendError::UnknownOrder);
            },
        };
        if order.account_id != account_id {
            return Err(CallAuctionAmendError::AccountMismatch);
        }
        match self.definition.quantity_rules().validate_leaves(new_quantity) {
            Ok(()) => {},
            Err(error) => {
                return Err(CallAuctionAmendError::Instrument(error));
            },
        }
        if new_quantity.lots >= order.quantity.lots {
            return Err(CallAuctionAmendError::QuantityNotReduced);
        }
        if self.state_revision == u64::MAX {
            return Err(CallAuctionAmendError::StateRevisionExhausted);
        }
        Ok(order.snapshot())
    }

    /// The state of an active order with other leaves.
    pub open spec fn with_leaves(&self, order_id: OrderId, quantity: Quantity) -> CallAuctionOrderSnapshot {
        CallAuctionOrderSnapshot { quantity, ..self.active()[order_id] }
    }

    /// This book is `old` after one amendment.
    pub open spec fn amends_from(&self, old: &Self, order_id: OrderId, quantity: Quantity) -> bool {
        &&& self.same_shell(old)
        &&& self.active() == old.active().insert(order_id, old.with_leaves(order_id, quantity))
        &&& self.accepted() == old.accepted()
        &&& self.next_priority_sequence == old.next_priority_sequence
        &&& self.state_revision == old.state_revision + 1
        &&& self.next_trade_id == old.next_trade_id
    }

    /// Reduces one owned active order's quantity without changing priority.
    ///
    /// Identity, account, side, constraint, queue links, and priority sequence
    /// remain unchanged. A refused request leaves the book unchanged.
    pub fn amend(&mut self, account_id: AccountId, order_id: OrderId, new_quantity: Quantity) -> (r:
        Result<CallAuctionAmendment, CallAuctionAmendError>)
        requires
            old(self).wf(),
        ensures
            final(self).wf(),
            match old(self).amend_fault(account_id, order_id, new_quantity) {
                Some(fault) => r == Err::<CallAuctionAmendment, CallAuctionAmendError>(fault)
                    && *final(self) == *old(self),
                None => {
                    &&& r == Ok::<CallAuctionAmendment, CallAuctionAmendError>(
                        CallAuctionAmendment {
                            previous: old(self).active()[order_id],
                            current: old(self).with_leaves(order_id, new_quantity),
                            state_revision: (old(self).state_revision + 1) as u64,
                        },
                    )
                    &&& final(self).amends_from(old(self), order_id, new_quantity)
                },
            },
    {
        let previous = match self.preflight_amend(account_id, order_id, new_quantity) {
            Ok(snapshot) => snapshot,
            Err(error) => {
                return Err(error);
            },
        };
        let state_revision: u64 = self.state_revision + 1;
        self.resize_order(order_id, new_quantity);
        self.set_revision(state_revision);
        let mut current = previous;
        current.quantity = new_quantity;
        Ok(CallAuctionAmendment { previous, current, state_revision })
    }

    /// Whether the replacement's queue can be stored once the target has left.
    pub open spec fn replacement_room(&self, target: OrderId, replacement: CallAuctionOrder) -> bool {
        match replacement.constraint {
            AuctionOrderConstraint::Market => true,
            AuctionOrderConstraint::Limit(price) => {
                let prices = self.levels_after_removal(target, replacement.side);
                prices.contains(price) || prices.len() < self.limits.price_levels_per_side
            },
        }
    }

    /// The first reason why a replacement is refused.
    pub open spec fn replace_fault(
        &self,
        account_id: AccountId,
        target: OrderId,
        replacement: CallAuctionOrder,
    ) -> Option<CallAuctionReplaceError> {
        if !self.active().dom().contains(target) {
            Some(CallAuctionReplaceError::Target(CallAuctionCancelError::UnknownOrder))
        } else if self.active()[target].account_id != account_id {
            Some(CallAuctionReplaceError::Target(CallAuctionCancelError::AccountMismatch))
        } else if replacement.account_id != account_id {
            Some(CallAuctionReplaceError::ReplacementAccountMismatch)
        } else if self.command_fault(replacement) is Some {
            Some(CallAuctionReplaceError::Replacement(self.command_fault(replacement)->0))
        } else if self.accepted().contains(replacement.order_id) {
            Some(CallAuctionReplaceError::Replacement(CallAuctionAdmissionError::DuplicateOrderId))
        } else if self.accepted().len() >= self.limits.accepted_order_ids {
            Some(
                CallAuctionReplaceError::Replacement(
                    CallAuctionAdmissionError::CapacityExceeded(
                        CallAuctionCapacity::AcceptedOrderIds,
                    ),
                ),
            )
        } else if !self.replacement_room(target, replacement) {
            Some(
                CallAuctionReplaceError::Replacement(
                    CallAuctionAdmissionError::CapacityExceeded(level_capacity(replacement.side)),
                ),
            )
        } else if self.next_priority_sequence == u64::MAX {
            Some(
                CallAuctionReplaceError::Replacement(
                    CallAuctionAdmissionError::PrioritySequenceExhausted,
                ),
            )
        } else if self.state_revision == u64::MAX {
            Some(
                CallAuctionReplaceError::Replacement(
                    CallAuctionAdmissionError::StateRevisionExhausted,
                ),
            )
        } else if !Self::aggregates_fit(
            self.queue_after_removal(target, replacement.side, replacement.constraint),
            self.side_after_removal(target, account_id, replacement.side),
            replacement.quantity,
        ) {
            Some(
                CallAuctionReplaceError::Replacement(
                    CallAuctionAdmissionError::AggregateQuantityOverflow(replacement.side),
                ),
            )
        } else {
            None
        }
    }

    fn preflight_replacement_level(
        &self,
        target: RestingAuctionOrder,
        replacement: CallAuctionOrder,
    ) -> (r: bool)
        requires
            self.wf(),
            self.orders@.dom().contains(target.order_id),
            self.orders@[target.order_id] == target,
        ensures
            r == self.replacement_room(target.order_id, replacement),
    {
        let price = match replacement.constraint {
            AuctionOrderConstraint::Market => {
                return true;
            },
            AuctionOrderConstraint::Limit(price) => price,
        };
        proof {
            self.bids.lemma_view();
            self.asks.lemma_view();
            assert(queue_ok(
                self.orders@,
                self.queue_of(target.side, target.constraint),
                target.side,
                target.constraint,
            ));
            assert(in_queue(self.orders@, target.order_id, target.side, target.constraint));
            lemma_queue_member(
                self.orders@,
                self.queue_of(target.side, target.constraint),
                target.side,
                target.constraint,
                target.order_id,
            );
        }
        let (occupied, count) = match replacement.side {
            Side::Buy => (self.bids.contains_key(price), self.bids.len()),
            Side::Sell => (self.asks.contains_key(price), self.asks.len()),
        };
        let queue = self.queue_snapshot(target.side, target.constraint);
        let removes_level = match target.constraint {
            AuctionOrderConstraint::Market => false,
            AuctionOrderConstraint::Limit(_) => target.side == replacement.side
                && queue.order_count == 1,
        };
        let same_price = match target.constraint {
            AuctionOrderConstraint::Market => false,
            AuctionOrderConstraint::Limit(target_price) => target_price == price,
        };
        let exists_after = occupied && !(removes_level && same_price);
        let count_after: usize = if removes_level {
            count - 1
        } else {
            count
        };
        exists_after || count_after < self.limits.price_levels_per_side
    }

    /// Checks whether one order could be replaced by an account.
    pub(crate) fn preflight_replace(
        &self,
        account_id: AccountId,
        target_order_id: OrderId,
        replacement: CallAuctionOrder,
    ) -> (r: Result<CallAuctionOrderSnapshot, CallAuctionReplaceError>)
        requires
            self.wf(),
        ensures
            match self.replace_fault(account_id, target_order_id, replacement) {
                Some(fault) => r == Err::<CallAuctionOrderSnapshot, CallAuctionReplaceError>(fault),
                None => {
                    &&& r == Ok::<CallAuctionOrderSnapshot, CallAuctionReplaceError>(
                        self.active()[target_order_id],
                    )
                    &&& self.definition.quantity.admits_leaves(replacement.quantity)
                    &&& (replacement.constraint matches AuctionOrderConstraint::Limit(price)
                        ==> self.definition.price.admits(price))
                },
            },
    {
        let target = match self.orders.get(target_order_id) {
            Some(order) => order,
            None => {
                return Err(CallAuctionReplaceError::Target(CallAuctionCancelError::UnknownOrder));
            },
        };
        proof {
            assert(self.order_ok(target_order_id));
            self.lemma_member(target_order_id);
        }
        if target.account_id != account_id {
            return Err(CallAuctionReplaceError::Target(CallAuctionCancelError::AccountMismatch));
        }
        if replacement.account_id != account_id {
            return Err(CallAuctionReplaceError::ReplacementAccountMismatch);
        }
        match self.validate_command(replacement) {
            Ok(()) => {},
            Err(error) => {
                return Err(CallAuctionReplaceError::Replacement(error));
            },
        }
        if self.seen_order_ids.contains_key(replacement.order_id) {
            return Err(
                CallAuctionReplaceError::Replacement(CallAuctionAdmissionError::DuplicateOrderId),
            );
        }
        if self.seen_order_ids.len() >= self.limits.accepted_order_ids {
            return Err(
                CallAuctionReplaceError::Replacement(
                    CallAuctionAdmissionError::CapacityExceeded(
                        CallAuctionCapacity::AcceptedOrderIds,
                    ),
                ),
            );
        }
        if !self.preflight_replacement_level(target, replacement) {
            return Err(
                CallAuctionReplaceError::Replacement(
                    CallAuctionAdmissionError::CapacityExceeded(
                        match replacement.side {
                            Side::Buy => CallAuctionCapacity::BidPriceLevels,
                            Side::Sell => CallAuctionCapacity::AskPriceLevels,
                        },
                    ),
                ),
            );
        }
        if self.next_priority_sequence == u64::MAX {
            return Err(
                CallAuctionReplaceError::Replacement(
                    CallAuctionAdmissionError::PrioritySequenceExhausted,
                ),
            );
        }
        if self.state_revision == u64::MAX {
            return Err(
                CallAuctionReplaceError::Replacement(
                    CallAuctionAdmissionError::StateRevisionExhausted,
                ),
            );
        }
        let mut queue = self.queue_snapshot(replacement.side, replacement.constraint);
        if target.side == replacement.side && target.constraint == replacement.constraint {
            queue.total_quantity = queue.total_quantity - target.quantity.lots as u128;
            queue.order_count = queue.order_count - 1;
        }
        let mut account_side = self.account_side_snapshot(account_id, replacement.side);
        if target.side == replacement.side {
            account_side.total_quantity = account_side.total_quantity - target.quantity.lots
                as u128;
            account_side.order_count = account_side.order_count - 1;
        }
        if !aggregates_fit_exec(queue, account_side, replacement.quantity) {
            return Err(
                CallAuctionReplaceError::Replacement(
                    CallAuctionAdmissionError::AggregateQuantityOverflow(replacement.side),
                ),
            );
        }
        Ok(target.snapshot())
    }

    /// Aggregates of the lists that hold one active order.
    proof fn lemma_member(&self, id: OrderId)
        requires
            self.wf(),
            self.orders@.dom().contains(id),
        ensures
            ({
                let order = self.orders@[id];
                let queue = self.queue_of(order.side, order.constraint);
                let account_side = self.account_side(order.account_id, order.side);
                &&& queue.order_count > 0
                &&& queue.total_quantity >= order.quantity.lots
                &&& account_side.order_count > 0
                &&& account_side.total_quantity >= order.quantity.lots
            }),
    {
        let order = self.orders@[id];
        assert(queue_ok(
            self.orders@,
            self.queue_of(order.side, order.constraint),
            order.side,
            order.constraint,
        ));
        assert(account_ok(
            self.orders@,
            self.account_side(order.account_id, order.side),
            order.account_id,
            order.side,
        ));
        assert(in_queue(self.orders@, id, order.side, order.constraint));
        assert(in_account(self.orders@, id, order.account_id, order.side));
        lemma_queue_member(
            self.orders@,
            self.queue_of(order.side, order.constraint),
            order.side,
            order.constraint,
            id,
        );
        lemma_account_member(
            self.orders@,
            self.account_side(order.account_id, order.side),
            order.account_id,
            order.side,
            id,
        );
    }

    /// This book is `old` after one replacement.
    pub open spec fn replaces_from(
        &self,
        old: &Self,
        target: OrderId,
        replacement: CallAuctionOrder,
    ) -> bool {
        &&& self.same_shell(old)
        &&& self.active() == old.active().remove(target).insert(
            replacement.order_id,
            old.admitted(replacement),
        )
        &&& self.accepted() == old.accepted().insert(replacement.order_id)
        &&& self.next_priority_sequence == old.next_priority_sequence + 1
        &&& self.state_revision == old.state_revision + 1
        &&& self.next_trade_id == old.next_trade_id
    }

    /// Atomically cancels one owned target and admits a new-identity replacement.
    ///
    /// The replacement always receives a fresh strict priority sequence. The
    /// target identity remains consumed, and the replacement identity becomes
    /// permanently consumed. A refused request leaves the book unchanged.
    pub fn replace(
        &mut self,
        account_id: AccountId,
        target_order_id: OrderId,
        replacement: CallAuctionOrder,
    ) -> (r: Result<CallAuctionReplacement, CallAuctionReplaceError>)
        requires
            old(self).wf(),
        ensures
            final(self).wf(),
            match old(self).replace_fault(account_id, target_order_id, replacement) {
                Some(fault) => r == Err::<CallAuctionReplacement, CallAuctionReplaceError>(fault)
                    && *final(self) == *old(self),
                None => {
                    &&& r == Ok::<CallAuctionReplacement, CallAuctionReplaceError>(
                        CallAuctionReplacement {
                            cancelled: old(self).active()[target_order_id],
                            accepted: old(self).admitted(replacement),
                        },
                    )
                    &&& final(self).replaces_from(old(self), target_order_id, replacement)
                },
            },
    {
        let cancelled = match self.preflight_replace(account_id, target_order_id, replacement) {
            Ok(snapshot) => snapshot,
            Err(error) => {
                return Err(error);
            },
        };
        let next_priority_sequence: u64 = self.next_priority_sequence + 1;
        let next_state_revision: u64 = self.state_revision + 1;
        let ghost entry = *self;
        proof {
            self.lemma_member(target_order_id);
            self.orders.lemma_view();
        }
        let _removed = self.remove_active_order(target_order_id);
        proof {
            assert(self.level_map(replacement.side).dom() == entry.levels_after_removal(
                target_order_id,
                replacement.side,
            ));
            assert(self.level_room(replacement.side, replacement.constraint));
            assert(self.queue_of(replacement.side, replacement.constraint)
                == entry.queue_after_removal(
                target_order_id,
                replacement.side,
                replacement.constraint,
            ));
            assert(self.account_side(account_id, replacement.side) == entry.side_after_removal(
                target_order_id,
                account_id,
                replacement.side,
            ));
        }
        let accepted = self.insert_preflighted(
            replacement,
            next_priority_sequence,
            next_state_revision,
        );
        Ok(CallAuctionReplacement { cancelled, accepted })
    }

    /// Returns the immutable instrument definition owned by this shard.
    pub fn definition(&self) -> (r: InstrumentDefinition)
        ensures
            r == self.definition,
    {
        self.definition
    }

    /// Returns the finite resource policy.
    pub fn limits(&self) -> (r: CallAuctionBookLimits)
        ensures
            r == self.limits,
    {
        self.limits
    }

    /// Returns the instrument tick grid.
    pub fn price_grid(&self) -> (r: AuctionPriceGrid)
        ensures
            r == self.grid,
    {
        self.grid
    }

    /// Returns the immutable instrument collar as an auction candidate band.
    pub fn instrument_price_band(&self) -> (r: AuctionPriceBand)
        ensures
            r == self.instrument_band,
    {
        self.instrument_band
    }

    /// Returns the number of active orders.
    pub fn active_order_count(&self) -> (r: usize)
        requires
            self.orders.wf(),
        ensures
            r == self.active().len(),
    {
        proof {
            self.lemma_active_len();
        }
        self.orders.len()
    }

    /// Returns the number of accepted identifiers, including canceled orders.
    pub fn accepted_order_id_count(&self) -> (r: usize)
        requires
            self.seen_order_ids.wf(),
        ensures
            r == self.accepted().len(),
    {
        self.seen_order_ids.len()
    }

    /// Returns the mutation revision of active collection state.
    pub fn state_revision(&self) -> (r: u64)
        ensures
            r == self.state_revision,
    {
        self.state_revision
    }

    /// Returns the next book-local trade identifier assigned by an uncross.
    pub fn next_trade_id(&self) -> (r: u64)
        ensures
            r == self.next_trade_id,
    {
        self.next_trade_id
    }

    /// Returns the sequence of the next admitted order.
    pub(crate) fn next_priority_sequence(&self) -> (r: u64)
        ensures
            r == self.next_priority_sequence,
    {
        self.next_priority_sequence
    }

    /// Returns immutable state for one active order.
    pub fn order(&self, order_id: OrderId) -> (r: Option<CallAuctionOrderSnapshot>)
        requires
            self.orders.wf(),
        ensures
            r == (if self.active().dom().contains(order_id) {
                Some(self.active()[order_id])
            } else {
                None
            }),
    {
        match self.orders.get(order_id) {
            Some(order) => Some(order.snapshot()),
            None => None,
        }
    }
}

/// The resource that a full side of prices exhausts.
pub open spec fn level_capacity(side: Side) -> CallAuctionCapacity {
    match side {
        Side::Buy => CallAuctionCapacity::BidPriceLevels,
        Side::Sell => CallAuctionCapacity::AskPriceLevels,
    }
}

/// Returns whether the aggregates stay representable with one more order.
fn aggregates_fit_exec(
    queue: AuctionQueue,
    account_side: AuctionAccountSideIndex,
    quantity: Quantity,
) -> (r: bool)
    ensures
        r == CallAuctionBook::aggregates_fit(queue, account_side, quantity),
{
    queue.total_quantity.checked_add(quantity.lots as u128).is_some() && queue.order_count
        < u64::MAX && account_side.total_quantity.checked_add(quantity.lots as u128).is_some()
        && account_side.order_count < usize::MAX
}

} // verus!
