//! Conservative reservations for active call-auction orders.
//!
//! Every active order is reserved at its largest reachable absolute price. The
//! reservations of one account form a list, and the open exposure of the
//! account is the sum over that list.

use vstd::prelude::*;

use crate::auction::AuctionOrderConstraint;
use crate::book_interest::ActiveOrders;
use crate::book_types::CallAuctionOrderSnapshot;
use crate::chain::{
    lemma_list_frame, lemma_sum_frame, lemma_walk, list_spells, member_sum, walk, Link,
};
use crate::domain::{AccountId, OrderId, Side};
use crate::engine_types::{CallAuctionEngineConstructionError, CallAuctionEngineLimits};
use crate::instrument::InstrumentDefinition;
use crate::ordered_map::{index_reserved, OrderedMap};
use crate::risk::{
    conservative_notional, reach_magnitude, RiskError, RiskHashIndex, RiskHashIndexStatus,
    RiskProfile, RiskSnapshot,
};
use crate::storage::unrepresentable;

verus! {

/// Raw finite resources for one coupled call-auction/risk shard.
#[derive(Clone, Copy, Debug, PartialEq, Eq, Structural)]
pub struct CallAuctionRiskLimitsSpec {
    /// Independently validated call-auction engine resources.
    pub auction: CallAuctionEngineLimits,
    /// Maximum immutable account profiles registered in this shard.
    pub max_registered_accounts: usize,
}

/// Invalid coupled call-auction/risk resource policy.
#[derive(Clone, Copy, Debug, PartialEq, Eq, Structural)]
pub enum CallAuctionRiskLimitsError {
    /// The shard could not register any risk profile.
    ZeroRegisteredAccounts,
}

/// Validated resources for one coupled call-auction/risk shard.
#[derive(Clone, Copy, Debug, PartialEq, Eq, Structural)]
pub struct CallAuctionRiskLimits {
    /// Call-auction engine resources.
    pub auction: CallAuctionEngineLimits,
    /// Maximum registered account profiles.
    pub max_registered_accounts: usize,
}

impl CallAuctionRiskLimits {
    /// Default maximum immutable risk profiles in one auction shard.
    pub const DEFAULT_MAX_REGISTERED_ACCOUNTS: usize = 65_536;

    /// The engine bounds are coherent and an account can be registered.
    pub open spec fn wf(self) -> bool {
        self.auction.wf() && self.max_registered_accounts > 0
    }

    /// Validates one finite coupled resource policy.
    pub fn new(spec: CallAuctionRiskLimitsSpec) -> (r: Result<Self, CallAuctionRiskLimitsError>)
        ensures
            match r {
                Ok(limits) => {
                    &&& spec.max_registered_accounts > 0
                    &&& limits.auction == spec.auction
                    &&& limits.max_registered_accounts == spec.max_registered_accounts
                    &&& spec.auction.wf() ==> limits.wf()
                },
                Err(error) => error == CallAuctionRiskLimitsError::ZeroRegisteredAccounts
                    && spec.max_registered_accounts == 0,
            },
    {
        if spec.max_registered_accounts == 0 {
            return Err(CallAuctionRiskLimitsError::ZeroRegisteredAccounts);
        }
        Ok(
            CallAuctionRiskLimits {
                auction: spec.auction,
                max_registered_accounts: spec.max_registered_accounts,
            },
        )
    }

    /// Returns the embedded auction-engine resource policy.
    #[must_use]
    pub fn auction(self) -> (r: CallAuctionEngineLimits)
        ensures
            r == self.auction,
    {
        self.auction
    }

    /// Returns maximum registered account profiles.
    #[must_use]
    pub fn max_registered_accounts(self) -> (r: usize)
        ensures
            r == self.max_registered_accounts,
    {
        self.max_registered_accounts
    }
}

impl CallAuctionRiskLimits {
    /// The default policy.
    pub open spec fn standard() -> Self {
        CallAuctionRiskLimits {
            auction: CallAuctionEngineLimits::standard(),
            max_registered_accounts: 65_536,
        }
    }
}

impl Default for CallAuctionRiskLimits {
    fn default() -> (r: Self)
        ensures
            r.wf(),
            r == Self::standard(),
    {
        CallAuctionRiskLimits {
            auction: CallAuctionEngineLimits::default(),
            max_registered_accounts: Self::DEFAULT_MAX_REGISTERED_ACCOUNTS,
        }
    }
}

/// Failure while constructing one coupled call-auction/risk shard.
#[derive(Clone, Copy, Debug, PartialEq, Eq, Structural)]
pub enum CallAuctionRiskConstructionError {
    /// The underlying auction engine could not be constructed.
    Auction(CallAuctionEngineConstructionError),
    /// Complete immutable account-registry reservation failed.
    AccountReservationFailed,
    /// Complete active-order reservation-index reservation failed.
    OrderReservationFailed,
    /// Complete uncross position-netting scratch reservation failed.
    PositionScratchReservationFailed,
}

/// One registered account.
#[derive(Clone, Copy, Debug, PartialEq, Eq, Structural)]
pub struct CallAuctionRiskAccount {
    /// Immutable profile.
    pub profile: RiskProfile,
    /// Position and open interest.
    pub exposure: RiskSnapshot,
    /// First reservation of the account.
    pub reservation_head: Option<OrderId>,
    /// Last reservation of the account.
    pub reservation_tail: Option<OrderId>,
}

/// Conservative reservation retained for one active call-auction order.
#[derive(Clone, Copy, Debug, PartialEq, Eq, Structural)]
pub struct CallAuctionReservationSnapshot {
    /// Owning account.
    pub account_id: AccountId,
    /// Reserved side.
    pub side: Side,
    /// Market or limit constraint.
    pub constraint: AuctionOrderConstraint,
    /// Largest reachable absolute price.
    pub valuation_per_lot: u64,
    /// Active quantity in lots.
    pub quantity_lots: u64,
    /// Valuation times quantity.
    pub notional: u128,
}

/// A reservation and its neighbours in the account list.
#[derive(Clone, Copy, Debug, PartialEq, Eq, Structural)]
pub struct ActiveCallAuctionReservation {
    /// The reservation.
    pub snapshot: CallAuctionReservationSnapshot,
    /// Reservation before this one.
    pub previous: Option<OrderId>,
    /// Reservation after this one.
    pub next: Option<OrderId>,
}

impl CallAuctionReservationSnapshot {
    /// Returns the owning account.
    #[must_use]
    pub fn account_id(self) -> (r: AccountId)
        ensures
            r == self.account_id,
    {
        self.account_id
    }

    /// Returns the reserved side.
    #[must_use]
    pub fn side(self) -> (r: Side)
        ensures
            r == self.side,
    {
        self.side
    }

    /// Returns the order's market or limit constraint.
    #[must_use]
    pub fn constraint(self) -> (r: AuctionOrderConstraint)
        ensures
            r == self.constraint,
    {
        self.constraint
    }

    /// Returns maximum reachable absolute price magnitude reserved per lot.
    #[must_use]
    pub fn valuation_per_lot(self) -> (r: u64)
        ensures
            r == self.valuation_per_lot,
    {
        self.valuation_per_lot
    }

    /// Returns active reserved quantity in lots.
    #[must_use]
    pub fn quantity_lots(self) -> (r: u64)
        ensures
            r == self.quantity_lots,
    {
        self.quantity_lots
    }

    /// Returns conservative raw-price-times-lots notional.
    #[must_use]
    pub fn notional(self) -> (r: u128)
        ensures
            r == self.notional,
    {
        self.notional
    }

    /// The quantity is positive and the valuation is conservative.
    pub open spec fn priced(self, definition: InstrumentDefinition) -> bool {
        &&& self.quantity_lots > 0
        &&& self.valuation_per_lot == reach_magnitude(definition, self.side, self.constraint)
        &&& self.notional == conservative_notional(self.valuation_per_lot, self.quantity_lots)
    }

    /// The reservation for a smaller or equal quantity.
    pub open spec fn with_lots(self, lots: u64) -> Self {
        CallAuctionReservationSnapshot {
            quantity_lots: lots,
            notional: conservative_notional(self.valuation_per_lot, lots),
            ..self
        }
    }
}

/// Lots that an account bought and sold in one uncross.
#[derive(Clone, Copy, Debug, PartialEq, Eq, Structural)]
pub struct ExecutedLots {
    /// Bought lots.
    pub buys: u128,
    /// Sold lots.
    pub sells: u128,
}

/// The reservation that an active order must have.
pub open spec fn reservation_of(
    definition: InstrumentDefinition,
    order: CallAuctionOrderSnapshot,
) -> CallAuctionReservationSnapshot {
    let valuation = reach_magnitude(definition, order.side, order.constraint) as u64;
    CallAuctionReservationSnapshot {
        account_id: order.account_id,
        side: order.side,
        constraint: order.constraint,
        valuation_per_lot: valuation,
        quantity_lots: order.quantity.lots,
        notional: conservative_notional(valuation, order.quantity.lots),
    }
}

/// The reservations that active orders must have.
pub open spec fn mirrored(definition: InstrumentDefinition, orders: ActiveOrders) -> Map<
    OrderId,
    CallAuctionReservationSnapshot,
> {
    orders.map_values(|order: CallAuctionOrderSnapshot| reservation_of(definition, order))
}

/// Reservations by order.
pub type ReservationTable = Map<OrderId, ActiveCallAuctionReservation>;

/// Links of every reservation.
pub open spec fn reservation_links(table: ReservationTable) -> Map<OrderId, Link> {
    table.map_values(
        |entry: ActiveCallAuctionReservation| Link { previous: entry.previous, next: entry.next },
    )
}

/// Reservations of one account.
pub open spec fn reserved_by(table: ReservationTable, account: AccountId) -> Set<OrderId> {
    table.dom().filter(|id: OrderId| table[id].snapshot.account_id == account)
}

/// Lots of every reservation of one side.
pub open spec fn side_lots(table: ReservationTable, side: Side) -> Map<OrderId, int> {
    table.map_values(
        |entry: ActiveCallAuctionReservation|
            if entry.snapshot.side == side {
                entry.snapshot.quantity_lots as int
            } else {
                0
            },
    )
}

/// Notional of every reservation.
pub open spec fn notionals(table: ReservationTable) -> Map<OrderId, int> {
    table.map_values(|entry: ActiveCallAuctionReservation| entry.snapshot.notional as int)
}

/// The open exposure is the sum over some reservations.
pub open spec fn exposure_sums(
    table: ReservationTable,
    exposure: RiskSnapshot,
    ids: Seq<OrderId>,
) -> bool {
    &&& exposure.open_orders == ids.len()
    &&& exposure.open_buy_lots == member_sum(side_lots(table, Side::Buy), ids)
    &&& exposure.open_sell_lots == member_sum(side_lots(table, Side::Sell), ids)
    &&& exposure.open_notional == member_sum(notionals(table), ids)
}

/// The list of the account holds exactly its reservations, and its open
/// exposure is the sum over them.
pub open spec fn account_spells(
    table: ReservationTable,
    id: AccountId,
    account: CallAuctionRiskAccount,
    ids: Seq<OrderId>,
) -> bool {
    &&& list_spells(
        reservation_links(table),
        reserved_by(table, id),
        account.reservation_head,
        account.reservation_tail,
        ids,
    )
    &&& exposure_sums(table, account.exposure, ids)
}

/// Reservations of an account from head to tail.
pub open spec fn account_list(table: ReservationTable, account: CallAuctionRiskAccount) -> Seq<
    OrderId,
> {
    walk(reservation_links(table), account.reservation_head, account.exposure.open_orders as nat)
}

/// The list and the open exposure of an account agree with the reservations.
#[verifier::opaque]
pub open spec fn account_balanced(
    table: ReservationTable,
    id: AccountId,
    account: CallAuctionRiskAccount,
) -> bool {
    account_spells(table, id, account, account_list(table, account))
}

/// An account that spells some list is balanced.
pub proof fn lemma_balanced(
    table: ReservationTable,
    id: AccountId,
    account: CallAuctionRiskAccount,
    ids: Seq<OrderId>,
)
    requires
        account_spells(table, id, account, ids),
    ensures
        account_balanced(table, id, account),
        account_list(table, account) == ids,
{
    reveal(account_balanced);
    lemma_walk(
        reservation_links(table),
        ids,
        account.reservation_head,
        account.reservation_tail,
    );
}

/// A balanced account stays so while its reservations do not change.
pub proof fn lemma_balanced_frame(
    before: ReservationTable,
    after: ReservationTable,
    id: AccountId,
    account: CallAuctionRiskAccount,
)
    requires
        account_balanced(before, id, account),
        reserved_by(before, id) == reserved_by(after, id),
        forall|order: OrderId| #[trigger]
            reserved_by(before, id).contains(order) ==> after[order] == before[order],
    ensures
        account_balanced(after, id, account),
{
    reveal(account_balanced);
    let ids = account_list(before, account);
    let members = reserved_by(before, id);
    assert forall|order: OrderId| #[trigger] members.contains(order) implies reservation_links(
        after,
    ).dom().contains(order) && reservation_links(after)[order] == reservation_links(
        before,
    )[order] by {
        assert(reserved_by(after, id).contains(order));
    }
    lemma_list_frame(
        reservation_links(before),
        reservation_links(after),
        members,
        account.reservation_head,
        account.reservation_tail,
        ids,
    );
    assert forall|i: int| 0 <= i < ids.len() implies after.dom().contains(#[trigger] ids[i])
        && before.dom().contains(ids[i]) && after[ids[i]] == before[ids[i]] by {
        assert(members.contains(ids[i]));
        assert(reserved_by(after, id).contains(ids[i]));
    }
    lemma_sum_frame(side_lots(before, Side::Buy), side_lots(after, Side::Buy), ids);
    lemma_sum_frame(side_lots(before, Side::Sell), side_lots(after, Side::Sell), ids);
    lemma_sum_frame(notionals(before), notionals(after), ids);
    lemma_balanced(after, id, account, ids);
}

/// Exposure with one more reservation.
pub open spec fn exposure_with(
    exposure: RiskSnapshot,
    reservation: CallAuctionReservationSnapshot,
) -> RiskSnapshot {
    RiskSnapshot {
        position_lots: exposure.position_lots,
        open_buy_lots: (exposure.open_buy_lots + if reservation.side == Side::Buy {
            reservation.quantity_lots as int
        } else {
            0
        }) as u128,
        open_sell_lots: (exposure.open_sell_lots + if reservation.side == Side::Sell {
            reservation.quantity_lots as int
        } else {
            0
        }) as u128,
        open_notional: (exposure.open_notional + reservation.notional) as u128,
        open_orders: (exposure.open_orders + 1) as u64,
    }
}

/// One more reservation keeps every aggregate representable.
pub open spec fn exposure_fits(
    exposure: RiskSnapshot,
    reservation: CallAuctionReservationSnapshot,
) -> bool {
    &&& exposure.open_lots(reservation.side) + reservation.quantity_lots <= u128::MAX
    &&& exposure.open_notional + reservation.notional <= u128::MAX
    &&& exposure.open_orders < u64::MAX
}

/// One reservation is part of an exposure.
pub open spec fn exposure_covers(
    exposure: RiskSnapshot,
    reservation: CallAuctionReservationSnapshot,
) -> bool {
    &&& reservation.quantity_lots <= exposure.open_lots(reservation.side)
    &&& reservation.notional <= exposure.open_notional
    &&& 1 <= exposure.open_orders
}

/// Exposure with one reservation less.
pub open spec fn exposure_less(
    exposure: RiskSnapshot,
    reservation: CallAuctionReservationSnapshot,
) -> RiskSnapshot {
    RiskSnapshot {
        position_lots: exposure.position_lots,
        open_buy_lots: (exposure.open_buy_lots - if reservation.side == Side::Buy {
            reservation.quantity_lots as int
        } else {
            0
        }) as u128,
        open_sell_lots: (exposure.open_sell_lots - if reservation.side == Side::Sell {
            reservation.quantity_lots as int
        } else {
            0
        }) as u128,
        open_notional: (exposure.open_notional - reservation.notional) as u128,
        open_orders: (exposure.open_orders - 1) as u64,
    }
}

/// Returns the exposure with one reservation less, unless it is not part of it.
pub fn exposure_without_reservation(
    exposure: RiskSnapshot,
    reservation: CallAuctionReservationSnapshot,
) -> (r: Option<RiskSnapshot>)
    ensures
        r == (if exposure_covers(exposure, reservation) {
            Some(exposure_less(exposure, reservation))
        } else {
            None
        }),
{
    let quantity: u128 = reservation.quantity_lots as u128;
    let mut open_buy_lots: u128 = exposure.open_buy_lots;
    let mut open_sell_lots: u128 = exposure.open_sell_lots;
    match reservation.side {
        Side::Buy => match open_buy_lots.checked_sub(quantity) {
            Some(left) => {
                open_buy_lots = left;
            },
            None => {
                return None;
            },
        },
        Side::Sell => match open_sell_lots.checked_sub(quantity) {
            Some(left) => {
                open_sell_lots = left;
            },
            None => {
                return None;
            },
        },
    }
    let open_notional: u128 = match exposure.open_notional.checked_sub(reservation.notional) {
        Some(left) => left,
        None => {
            return None;
        },
    };
    if exposure.open_orders == 0 {
        return None;
    }
    Some(
        RiskSnapshot::from_parts(
            exposure.position_lots,
            open_buy_lots,
            open_sell_lots,
            open_notional,
            exposure.open_orders - 1,
        ),
    )
}

/// Returns the exposure with one more reservation, unless an aggregate would
/// not be representable.
pub fn exposure_with_reservation(
    exposure: RiskSnapshot,
    reservation: CallAuctionReservationSnapshot,
) -> (r: Option<RiskSnapshot>)
    ensures
        r == (if exposure_fits(exposure, reservation) {
            Some(exposure_with(exposure, reservation))
        } else {
            None
        }),
{
    let quantity: u128 = reservation.quantity_lots as u128;
    let mut open_buy_lots: u128 = exposure.open_buy_lots;
    let mut open_sell_lots: u128 = exposure.open_sell_lots;
    match reservation.side {
        Side::Buy => match open_buy_lots.checked_add(quantity) {
            Some(total) => {
                open_buy_lots = total;
            },
            None => {
                return None;
            },
        },
        Side::Sell => match open_sell_lots.checked_add(quantity) {
            Some(total) => {
                open_sell_lots = total;
            },
            None => {
                return None;
            },
        },
    }
    let open_notional: u128 = match exposure.open_notional.checked_add(reservation.notional) {
        Some(total) => total,
        None => {
            return None;
        },
    };
    if exposure.open_orders == u64::MAX {
        return None;
    }
    Some(
        RiskSnapshot::from_parts(
            exposure.position_lots,
            open_buy_lots,
            open_sell_lots,
            open_notional,
            exposure.open_orders + 1,
        ),
    )
}

/// Immutable profiles, positions, and active call-auction reservations.
#[derive(Debug)]
pub struct CallAuctionRiskEngine {
    /// Instrument definition.
    pub definition: InstrumentDefinition,
    /// Registered accounts.
    pub accounts: OrderedMap<AccountId, CallAuctionRiskAccount>,
    /// Active reservations.
    pub reservations: OrderedMap<OrderId, ActiveCallAuctionReservation>,
    /// Lots executed in the uncross under way.
    pub position_scratch: OrderedMap<AccountId, ExecutedLots>,
    /// Maximum registered accounts.
    pub maximum_accounts: usize,
    /// Maximum active reservations.
    pub maximum_reservations: usize,
}

impl CallAuctionRiskEngine {
    /// Reservations without their links.
    pub open spec fn reserved(&self) -> Map<OrderId, CallAuctionReservationSnapshot> {
        self.reservations@.map_values(|entry: ActiveCallAuctionReservation| entry.snapshot)
    }

    /// A reservation is valued conservatively and belongs to a registered account.
    pub open spec fn reservation_ok(&self, id: OrderId) -> bool {
        let snapshot = self.reservations@[id].snapshot;
        snapshot.priced(self.definition) && self.accounts@.dom().contains(snapshot.account_id)
    }

    /// Reservations, lists and exposures agree.
    pub open spec fn ledger_ok(&self) -> bool {
        &&& self.accounts.wf()
        &&& self.reservations.wf()
        &&& self.position_scratch.wf()
        &&& forall|id: OrderId| #[trigger]
            self.reservations@.dom().contains(id) ==> self.reservation_ok(id)
        &&& forall|id: AccountId| #[trigger]
            self.accounts@.dom().contains(id) ==> account_balanced(
                self.reservations@,
                id,
                self.accounts@[id],
            )
    }

    /// Position and worst-case positions of an account lie within its limits.
    pub open spec fn account_bears(&self, id: AccountId) -> bool {
        let account = self.accounts@[id];
        let exposure = account.exposure;
        &&& account.profile.limits.holds(exposure.position_lots as int)
        &&& account.profile.limits.bears(
            exposure.position_lots as int,
            exposure.open_buy_lots as int,
            exposure.open_sell_lots as int,
        )
    }

    /// Every account lies within its limits.
    pub open spec fn limits_ok(&self) -> bool {
        forall|id: AccountId| #[trigger]
            self.accounts@.dom().contains(id) ==> self.account_bears(id)
    }

    /// The indexes are reserved and hold no more than they may.
    pub open spec fn bounds_ok(&self) -> bool {
        &&& self.accounts.maximum == self.maximum_accounts <= self.accounts.reserved
        &&& self.accounts.entries@.len() <= self.maximum_accounts
        &&& self.reservations.maximum == self.maximum_reservations <= self.reservations.reserved
        &&& self.reservations.entries@.len() <= self.maximum_reservations
        &&& self.position_scratch.maximum == self.maximum_accounts
            <= self.position_scratch.reserved
        &&& self.position_scratch.entries@.len() == 0
    }

    /// The definition and every registered profile are valid.
    pub open spec fn config_ok(&self) -> bool {
        &&& self.definition.wf()
        &&& forall|id: AccountId| #[trigger]
            self.accounts@.dom().contains(id) ==> self.accounts@[id].profile.limits.wf()
    }

    /// Everything that the audit checks.
    pub open spec fn audited(&self) -> bool {
        self.ledger_ok() && self.limits_ok() && self.bounds_ok()
    }

    /// Valid configuration and consistent state.
    pub open spec fn wf(&self) -> bool {
        self.config_ok() && self.audited()
    }

    /// Capacity, definition and accounts other than one are unchanged.
    pub open spec fn same_but_account(&self, old: &Self, id: AccountId, exposure: RiskSnapshot) -> bool {
        &&& self.definition == old.definition
        &&& self.maximum_accounts == old.maximum_accounts
        &&& self.maximum_reservations == old.maximum_reservations
        &&& self.position_scratch == old.position_scratch
        &&& self.accounts.maximum == old.accounts.maximum
        &&& self.accounts.reserved == old.accounts.reserved
        &&& self.accounts.entries@.len() == old.accounts.entries@.len()
        &&& self.reservations.maximum == old.reservations.maximum
        &&& self.reservations.reserved == old.reservations.reserved
        &&& self.accounts@.dom() == old.accounts@.dom()
        &&& forall|other: AccountId| other != id ==> #[trigger] self.accounts@[other]
            == old.accounts@[other]
        &&& self.accounts@[id].profile == old.accounts@[id].profile
        &&& self.accounts@[id].exposure == exposure
    }

    /// Creates an empty ledger from what was reserved for its indexes, or names
    /// the first index for which nothing was.
    pub fn from_storage(
        definition: InstrumentDefinition,
        limits: CallAuctionRiskLimits,
        accounts: Option<OrderedMap<AccountId, CallAuctionRiskAccount>>,
        reservations: Option<OrderedMap<OrderId, ActiveCallAuctionReservation>>,
        position_scratch: Option<OrderedMap<AccountId, ExecutedLots>>,
    ) -> (r: Result<Self, CallAuctionRiskConstructionError>)
        requires
            definition.wf(),
            limits.wf(),
            index_reserved(accounts, limits.max_registered_accounts),
            index_reserved(reservations, limits.auction.book.active_orders),
            index_reserved(position_scratch, limits.max_registered_accounts),
        ensures
            match r {
                Ok(risk) => {
                    &&& accounts == Some(risk.accounts)
                    &&& reservations == Some(risk.reservations)
                    &&& position_scratch == Some(risk.position_scratch)
                    &&& risk.wf()
                    &&& risk.definition == definition
                    &&& risk.maximum_accounts == limits.max_registered_accounts
                    &&& risk.maximum_reservations == limits.auction.book.active_orders
                },
                Err(error) => if accounts is None {
                    error == CallAuctionRiskConstructionError::AccountReservationFailed
                } else if reservations is None {
                    error == CallAuctionRiskConstructionError::OrderReservationFailed
                } else {
                    &&& position_scratch is None
                    &&& error == CallAuctionRiskConstructionError::PositionScratchReservationFailed
                },
            },
    {
        let accounts = match accounts {
            Some(accounts) => accounts,
            None => {
                return Err(CallAuctionRiskConstructionError::AccountReservationFailed);
            },
        };
        let reservations = match reservations {
            Some(reservations) => reservations,
            None => {
                return Err(CallAuctionRiskConstructionError::OrderReservationFailed);
            },
        };
        let position_scratch = match position_scratch {
            Some(scratch) => scratch,
            None => {
                return Err(CallAuctionRiskConstructionError::PositionScratchReservationFailed);
            },
        };
        Ok(
            CallAuctionRiskEngine {
                definition,
                accounts,
                reservations,
                position_scratch,
                maximum_accounts: limits.max_registered_accounts(),
                maximum_reservations: limits.auction().book().max_active_orders(),
            },
        )
    }

    /// Creates an empty ledger with all indexes reserved.
    ///
    /// Valid limits fail only for want of storage; `from_storage` says which
    /// error that is.
    pub fn try_with_limits(definition: InstrumentDefinition, limits: CallAuctionRiskLimits) -> (r:
        Result<Self, CallAuctionRiskConstructionError>)
        requires
            definition.wf(),
            limits.wf(),
        ensures
            unrepresentable::<(AccountId, CallAuctionRiskAccount)>(
                limits.max_registered_accounts as int,
            ) ==> r == Err::<Self, CallAuctionRiskConstructionError>(
                CallAuctionRiskConstructionError::AccountReservationFailed,
            ),
            match r {
                Ok(risk) => {
                    &&& risk.wf()
                    &&& risk.definition == definition
                    &&& risk.maximum_accounts == limits.max_registered_accounts
                    &&& risk.maximum_reservations == limits.auction.book.active_orders
                    &&& risk.accounts@ == Map::<AccountId, CallAuctionRiskAccount>::empty()
                    &&& risk.reservations@
                        == Map::<OrderId, ActiveCallAuctionReservation>::empty()
                },
                Err(error) => !(error is Auction),
            },
    {
        Self::from_storage(
            definition,
            limits,
            OrderedMap::try_with_capacity(limits.max_registered_accounts()),
            OrderedMap::try_with_capacity(limits.auction().book().max_active_orders()),
            OrderedMap::try_with_capacity(limits.max_registered_accounts()),
        )
    }

    /// Registers one immutable account profile.
    pub fn register_account(&mut self, account_id: AccountId, profile: RiskProfile) -> (r: Result<
        (),
        RiskError,
    >)
        requires
            old(self).accounts.wf(),
            profile.wf(),
        ensures
            match r {
                Ok(_) => {
                    let account = CallAuctionRiskAccount {
                        profile,
                        exposure: RiskSnapshot {
                            position_lots: profile.initial_position_lots,
                            open_buy_lots: 0,
                            open_sell_lots: 0,
                            open_notional: 0,
                            open_orders: 0,
                        },
                        reservation_head: None,
                        reservation_tail: None,
                    };
                    &&& !old(self).accounts@.dom().contains(account_id)
                    &&& old(self).accounts.entries@.len() < old(self).maximum_accounts
                    &&& final(self).accounts@ == old(self).accounts@.insert(account_id, account)
                    &&& final(self).definition == old(self).definition
                    &&& final(self).reservations == old(self).reservations
                    &&& final(self).position_scratch == old(self).position_scratch
                    &&& final(self).maximum_accounts == old(self).maximum_accounts
                    &&& final(self).maximum_reservations == old(self).maximum_reservations
                    &&& old(self).wf() ==> final(self).wf()
                },
                Err(error) => {
                    &&& *final(self) == *old(self)
                    &&& if old(self).accounts@.dom().contains(account_id) {
                        error == RiskError::DuplicateProfile(account_id)
                    } else {
                        &&& old(self).accounts.entries@.len() >= old(self).maximum_accounts
                        &&& error == RiskError::ProfileCapacityExhausted {
                            maximum: old(self).maximum_accounts,
                        }
                    }
                },
            },
    {
        if self.accounts.contains_key(account_id) {
            return Err(RiskError::DuplicateProfile(account_id));
        }
        if self.accounts.len() >= self.maximum_accounts {
            return Err(RiskError::ProfileCapacityExhausted { maximum: self.maximum_accounts });
        }
        let ghost entry = *self;
        let account = CallAuctionRiskAccount {
            profile,
            exposure: RiskSnapshot::from_parts(profile.initial_position_lots(), 0, 0, 0, 0),
            reservation_head: None,
            reservation_tail: None,
        };
        let _ = self.accounts.insert(account_id, account);
        proof {
            if entry.wf() {
                let table = self.reservations@;
                let none = Seq::<OrderId>::empty();
                assert forall|id: OrderId| !reserved_by(table, account_id).contains(id) by {
                    if table.dom().contains(id) {
                        assert(entry.reservation_ok(id));
                    }
                }
                lemma_balanced(table, account_id, account, none);
                assert forall|id: OrderId| #[trigger] table.dom().contains(
                    id,
                ) implies self.reservation_ok(id) by {
                    assert(entry.reservation_ok(id));
                }
                assert forall|id: AccountId| #[trigger] self.accounts@.dom().contains(
                    id,
                ) implies self.account_bears(id) by {
                    if id != account_id {
                        assert(entry.account_bears(id));
                    }
                }
            }
        }
        Ok(())
    }

    /// Returns one account's current position and open exposure.
    #[must_use]
    pub fn snapshot(&self, account_id: AccountId) -> (r: Option<RiskSnapshot>)
        requires
            self.accounts.wf(),
        ensures
            r == (if self.accounts@.dom().contains(account_id) {
                Some(self.accounts@[account_id].exposure)
            } else {
                None
            }),
    {
        match self.accounts.get(account_id) {
            Some(account) => Some(account.exposure),
            None => None,
        }
    }

    /// Returns one active auction-order reservation.
    #[must_use]
    pub fn reservation(&self, order_id: OrderId) -> (r: Option<CallAuctionReservationSnapshot>)
        requires
            self.reservations.wf(),
        ensures
            r == (if self.reserved().dom().contains(order_id) {
                Some(self.reserved()[order_id])
            } else {
                None
            }),
    {
        match self.reservations.get(order_id) {
            Some(reservation) => Some(reservation.snapshot),
            None => None,
        }
    }

    /// Returns active reservation count.
    #[must_use]
    pub fn reservation_count(&self) -> (r: usize)
        ensures
            r == self.reservations.entries@.len(),
            self.reservations.wf() ==> r == self.reservations@.len(),
    {
        self.reservations.len()
    }

    /// Returns allocation telemetry for one constructor-reserved risk index.
    #[must_use]
    pub fn hash_index_status(&self, index: RiskHashIndex) -> (r: RiskHashIndexStatus)
        ensures
            r == (match index {
                RiskHashIndex::AccountProfiles => RiskHashIndexStatus {
                    configured_entries: self.maximum_accounts,
                    allocated_entries: self.accounts.reserved,
                    occupied_entries: self.accounts.entries@.len() as usize,
                },
                RiskHashIndex::ActiveReservations => RiskHashIndexStatus {
                    configured_entries: self.maximum_reservations,
                    allocated_entries: self.reservations.reserved,
                    occupied_entries: self.reservations.entries@.len() as usize,
                },
            }),
    {
        match index {
            RiskHashIndex::AccountProfiles => RiskHashIndexStatus {
                configured_entries: self.maximum_accounts,
                allocated_entries: self.accounts.allocation_capacity(),
                occupied_entries: self.accounts.len(),
            },
            RiskHashIndex::ActiveReservations => RiskHashIndexStatus {
                configured_entries: self.maximum_reservations,
                allocated_entries: self.reservations.allocation_capacity(),
                occupied_entries: self.reservations.len(),
            },
        }
    }
}

} // verus!
