//! Capture, verification and restoration of coupled auction and risk state.

use std::sync::Arc;
use vstd::prelude::*;

use crate::auction_engine::{construction_error, CallAuctionEngine};
use crate::auction_risk::{
    exposure_fits, exposure_with, exposure_with_reservation, lemma_balanced, mirrored,
    reservation_of, ActiveCallAuctionReservation, CallAuctionReservationSnapshot,
    CallAuctionRiskAccount, CallAuctionRiskConstructionError, CallAuctionRiskEngine,
    CallAuctionRiskLimits,
};
use crate::book_agreement::lemma_same_keys;
use crate::book_restore::{ids_distinct, orders_by_id};
use crate::book_types::{CallAuctionBookLimits, CallAuctionOrderSnapshot};
use crate::domain::{AccountId, OrderId, Side};
use crate::engine_checkpoint::{
    boundary_ok, same_checkpoint, CallAuctionCheckpoint, CallAuctionCheckpointError,
};
use crate::engine_replay::same_histories;
use crate::engine_types::{
    CallAuctionCommand, CallAuctionCommandReportCheckpoint, CallAuctionEngineCapacity,
    CallAuctionEngineError, CallAuctionEngineLimits,
};
use crate::instrument::InstrumentDefinition;
use crate::messages::{decimal, push_decimal};
use crate::ordered_map::MapKey;
use crate::risk::{
    conservative_price_magnitude, reserve_notional, RiskAccountCheckpoint, RiskError, RiskProfile,
    RiskSnapshot,
};
use crate::risk_managed::{ledger_failed, CallAuctionRiskManagedEngine};
use crate::risk_replay::{lemma_same_net, net_executed};
use crate::storage::{share_owner, shares_owner, try_vector, unrepresentable};

verus! {

/// One fallibly reserved coupled call-auction/risk checkpoint resource.
#[derive(Clone, Copy, Debug, PartialEq, Eq, Structural)]
pub enum CallAuctionRiskCheckpointResource {
    /// Canonical account/profile/exposure rows copied from live risk state.
    CaptureAccounts,
}

/// Semantic coupled auction/risk checkpoint construction or restoration failure.
#[derive(Clone, Debug, PartialEq, Eq)]
pub enum CallAuctionRiskCheckpointError {
    /// Checkpoint content or coupled-state contradiction.
    Invalid(String),
    /// Direct call-auction checkpoint capture or restoration failed.
    Auction(CallAuctionCheckpointError),
    /// A temporary coupled risk engine could not be constructed.
    Construction(CallAuctionRiskConstructionError),
    /// Immutable profile registration or reconstruction failed.
    Risk(RiskError),
    /// A coupled checkpoint capture resource could not be reserved.
    ResourceReservationFailed {
        /// Resource whose construction failed.
        resource: CallAuctionRiskCheckpointResource,
        /// Requested semantic maximum entries.
        maximum: usize,
    },
}

/// How an active order whose account has no row is described.
pub open spec fn unprofiled_text(order_id: OrderId) -> Seq<char> {
    "auction risk checkpoint active order "@ + decimal(order_id.value as nat)
        + " has no account profile"@
}

/// How a row that its active orders contradict is described.
pub open spec fn exposure_text(account_id: AccountId) -> Seq<char> {
    "auction risk checkpoint account "@ + decimal(account_id.value as nat)
        + " exposure differs from active reservations"@
}

/// How a retained command that cannot be sequenced again is described.
pub open spec fn replay_text(cause: CallAuctionEngineError) -> Seq<char> {
    "auction risk checkpoint history cannot be replayed: "@ + cause.text()
}

/// How a retained command for whose report there is no storage is described.
pub open spec fn starved_text() -> Seq<char> {
    replay_text(
        CallAuctionEngineError::CapacityReservationFailed(CallAuctionEngineCapacity::ReportEvents),
    )
}

/// How more rows than the selected capacity are described.
pub open spec fn account_count_text(count: nat, maximum: nat) -> Seq<char> {
    "auction risk checkpoint account count "@ + decimal(count) + " exceeds selected capacity "@
        + decimal(maximum)
}

impl CallAuctionRiskCheckpointError {
    fn new(detail: &str) -> (r: Self)
        ensures
            r is Invalid,
            r.description() == detail@,
    {
        CallAuctionRiskCheckpointError::Invalid(String::from_str(detail))
    }

    fn about_order(order_id: OrderId) -> (r: Self)
        ensures
            r is Invalid,
            r.description() == unprofiled_text(order_id),
    {
        let mut text = String::from_str("auction risk checkpoint active order ");
        push_decimal(&mut text, order_id.value as u128);
        text.append(" has no account profile");
        CallAuctionRiskCheckpointError::Invalid(text)
    }

    fn about_account(account_id: AccountId) -> (r: Self)
        ensures
            r is Invalid,
            r.description() == exposure_text(account_id),
    {
        let mut text = String::from_str("auction risk checkpoint account ");
        push_decimal(&mut text, account_id.value as u128);
        text.append(" exposure differs from active reservations");
        CallAuctionRiskCheckpointError::Invalid(text)
    }

    fn about_count(count: usize, maximum: usize) -> (r: Self)
        ensures
            r is Invalid,
            r.description() == account_count_text(count as nat, maximum as nat),
    {
        let mut text = String::from_str("auction risk checkpoint account count ");
        push_decimal(&mut text, count as u128);
        text.append(" exceeds selected capacity ");
        push_decimal(&mut text, maximum as u128);
        CallAuctionRiskCheckpointError::Invalid(text)
    }

    fn about_replay(cause: CallAuctionEngineError) -> (r: Self)
        ensures
            r is Invalid,
            r.description() == replay_text(cause),
    {
        let mut text = String::from_str("auction risk checkpoint history cannot be replayed: ");
        text.append(cause.message().as_str());
        CallAuctionRiskCheckpointError::Invalid(text)
    }

    /// The diagnostic description.
    pub open spec fn description(self) -> Seq<char> {
        match self {
            CallAuctionRiskCheckpointError::Invalid(detail) => detail@,
            CallAuctionRiskCheckpointError::Auction(error) => error.description(),
            CallAuctionRiskCheckpointError::Construction(_) => {
                "auction risk checkpoint construction failed"@
            },
            CallAuctionRiskCheckpointError::Risk(_) => {
                "auction risk checkpoint profile reconstruction failed"@
            },
            CallAuctionRiskCheckpointError::ResourceReservationFailed { .. } => {
                "auction risk checkpoint account capture reservation failed"@
            },
        }
    }

    /// Returns a stable diagnostic description.
    #[must_use]
    pub fn detail(&self) -> (r: &str)
        ensures
            r@ == self.description(),
    {
        match self {
            CallAuctionRiskCheckpointError::Invalid(detail) => detail.as_str(),
            CallAuctionRiskCheckpointError::Auction(error) => error.detail(),
            CallAuctionRiskCheckpointError::Construction(_) => {
                "auction risk checkpoint construction failed"
            },
            CallAuctionRiskCheckpointError::Risk(_) => {
                "auction risk checkpoint profile reconstruction failed"
            },
            CallAuctionRiskCheckpointError::ResourceReservationFailed { .. } => {
                "auction risk checkpoint account capture reservation failed"
            },
        }
    }

    /// Returns the failed coupled capture resource.
    #[must_use]
    pub fn resource(&self) -> (r: Option<CallAuctionRiskCheckpointResource>)
        ensures
            r == (match *self {
                CallAuctionRiskCheckpointError::ResourceReservationFailed { resource, .. } => Some(
                    resource,
                ),
                _ => None,
            }),
    {
        match self {
            CallAuctionRiskCheckpointError::ResourceReservationFailed { resource, .. } => Some(
                *resource,
            ),
            _ => None,
        }
    }

    /// Returns the preserved direct auction-checkpoint failure.
    #[must_use]
    pub fn auction_error(&self) -> (r: Option<&CallAuctionCheckpointError>)
        ensures
            match *self {
                CallAuctionRiskCheckpointError::Auction(error) => r matches Some(held) && *held
                    == error,
                _ => r is None,
            },
    {
        match self {
            CallAuctionRiskCheckpointError::Auction(error) => Some(error),
            _ => None,
        }
    }

    /// Returns the preserved coupled-engine construction failure.
    #[must_use]
    pub fn construction_error(&self) -> (r: Option<&CallAuctionRiskConstructionError>)
        ensures
            match *self {
                CallAuctionRiskCheckpointError::Construction(error) => r matches Some(held) && *held
                    == error,
                _ => r is None,
            },
    {
        match self {
            CallAuctionRiskCheckpointError::Construction(error) => Some(error),
            _ => None,
        }
    }

    /// Returns the preserved profile registration or reconstruction failure.
    #[must_use]
    pub fn risk_error(&self) -> (r: Option<&RiskError>)
        ensures
            match *self {
                CallAuctionRiskCheckpointError::Risk(error) => r matches Some(held) && *held
                    == error,
                _ => r is None,
            },
    {
        match self {
            CallAuctionRiskCheckpointError::Risk(error) => Some(error),
            _ => None,
        }
    }

    /// Whether this error or its direct-auction cause is resource exhaustion.
    pub open spec fn exhausted(self) -> bool {
        match self {
            CallAuctionRiskCheckpointError::Auction(error) => error.exhausted(),
            CallAuctionRiskCheckpointError::ResourceReservationFailed { .. } => true,
            _ => false,
        }
    }

    /// Returns whether this error or its direct-auction cause is resource exhaustion.
    #[must_use]
    pub fn is_resource_exhaustion(&self) -> (r: bool)
        ensures
            r == self.exhausted(),
    {
        match self {
            CallAuctionRiskCheckpointError::Auction(error) => error.is_resource_exhaustion(),
            CallAuctionRiskCheckpointError::ResourceReservationFailed { .. } => true,
            _ => false,
        }
    }

    /// Whether retry under different resource availability can succeed.
    pub open spec fn operational(self) -> bool {
        match self {
            CallAuctionRiskCheckpointError::Auction(error) => error.operational(),
            CallAuctionRiskCheckpointError::Construction(_) => true,
            CallAuctionRiskCheckpointError::ResourceReservationFailed { .. } => true,
            _ => false,
        }
    }

    /// Returns whether retry under different resource availability can succeed.
    #[must_use]
    pub fn is_operational_failure(&self) -> (r: bool)
        ensures
            r == self.operational(),
    {
        match self {
            CallAuctionRiskCheckpointError::Auction(error) => error.is_operational_failure(),
            CallAuctionRiskCheckpointError::Construction(_) => true,
            CallAuctionRiskCheckpointError::ResourceReservationFailed { .. } => true,
            _ => false,
        }
    }
}

/// Reserves an empty list, or names the resource that could not be reserved.
///
/// No room is always granted, and room that no vector can hold is always refused.
/// Otherwise the allocator decides.
pub fn reserve_call_auction_risk_checkpoint_vec<T>(
    maximum: usize,
    resource: CallAuctionRiskCheckpointResource,
) -> (r: Result<Vec<T>, CallAuctionRiskCheckpointError>)
    ensures
        maximum == 0 ==> r is Ok,
        unrepresentable::<T>(maximum as int) ==> r is Err,
        match r {
            Ok(values) => values@.len() == 0,
            Err(error) => error == CallAuctionRiskCheckpointError::ResourceReservationFailed {
                resource,
                maximum,
            },
        },
{
    match try_vector(maximum) {
        Some(values) => Ok(values),
        None => Err(
            CallAuctionRiskCheckpointError::ResourceReservationFailed { resource, maximum },
        ),
    }
}

/// Lots of one account and side among the first `count` orders.
pub open spec fn open_lots_of(
    orders: Seq<CallAuctionOrderSnapshot>,
    account: AccountId,
    side: Side,
    count: nat,
) -> int
    decreases count,
{
    if count == 0 {
        0
    } else {
        let order = orders[count - 1];
        open_lots_of(orders, account, side, (count - 1) as nat) + if order.account_id == account
            && order.side == side {
            order.quantity.lots as int
        } else {
            0
        }
    }
}

/// Conservative notional of one account among the first `count` orders.
pub open spec fn open_notional_of(
    checkpoint: &CallAuctionCheckpoint,
    account: AccountId,
    count: nat,
) -> int
    decreases count,
{
    if count == 0 {
        0
    } else {
        let order = checkpoint.active_orders@[count - 1];
        open_notional_of(checkpoint, account, (count - 1) as nat) + if order.account_id == account {
            reservation_of(checkpoint.definition, order).notional as int
        } else {
            0
        }
    }
}

/// Orders of one account among the first `count` orders.
pub open spec fn open_orders_of(
    orders: Seq<CallAuctionOrderSnapshot>,
    account: AccountId,
    count: nat,
) -> int
    decreases count,
{
    if count == 0 {
        0
    } else {
        open_orders_of(orders, account, (count - 1) as nat) + if orders[count - 1].account_id
            == account {
            1int
        } else {
            0
        }
    }
}

/// An open exposure is the sum over the first `count` active orders.
pub open spec fn exposes(
    checkpoint: &CallAuctionCheckpoint,
    account: AccountId,
    exposure: RiskSnapshot,
    count: nat,
) -> bool {
    let orders = checkpoint.active_orders@;
    &&& exposure.open_buy_lots == open_lots_of(orders, account, Side::Buy, count)
    &&& exposure.open_sell_lots == open_lots_of(orders, account, Side::Sell, count)
    &&& exposure.open_notional == open_notional_of(checkpoint, account, count)
    &&& exposure.open_orders == open_orders_of(orders, account, count)
}

/// Sums over more orders are no smaller.
proof fn lemma_sums_monotone(
    checkpoint: &CallAuctionCheckpoint,
    account: AccountId,
    few: nat,
    many: nat,
)
    requires
        few <= many,
    ensures
        open_lots_of(checkpoint.active_orders@, account, Side::Buy, few) <= open_lots_of(
            checkpoint.active_orders@,
            account,
            Side::Buy,
            many,
        ),
        open_lots_of(checkpoint.active_orders@, account, Side::Sell, few) <= open_lots_of(
            checkpoint.active_orders@,
            account,
            Side::Sell,
            many,
        ),
        open_notional_of(checkpoint, account, few) <= open_notional_of(checkpoint, account, many),
        open_orders_of(checkpoint.active_orders@, account, few) <= open_orders_of(
            checkpoint.active_orders@,
            account,
            many,
        ),
    decreases many,
{
    if few < many {
        lemma_sums_monotone(checkpoint, account, few, (many - 1) as nat);
    }
}

/// Canonical coupled call-auction, risk-profile, position, and exposure state.
///
/// Both images are immutable shared storage, so another handle on the complete
/// checkpoint copies no rows.
#[derive(Debug)]
pub struct CallAuctionRiskCheckpoint {
    /// First log sequence, occupied by the definition.
    pub wal_first_sequence: u64,
    /// Direct auction state and complete command lineage.
    pub auction: Arc<CallAuctionCheckpoint>,
    /// Account rows by ascending identity.
    pub accounts: Arc<Vec<RiskAccountCheckpoint>>,
}

impl CallAuctionRiskCheckpoint {
    /// Account rows.
    pub open spec fn rows(&self) -> Seq<RiskAccountCheckpoint> {
        self.accounts@
    }

    /// The definition and every profile are valid.
    pub open spec fn config_ok(&self) -> bool {
        &&& self.auction.definition.wf()
        &&& forall|k: int| 0 <= k < self.rows().len() ==> (#[trigger] self.rows()[k]).profile.wf()
    }

    /// Profiles follow the definition in the log, and rows are canonical.
    pub open spec fn structured(&self) -> bool {
        &&& self.wal_first_sequence != 0
        &&& self.auction.wal_metadata_sequence == self.wal_first_sequence + self.rows().len()
        &&& forall|i: int, j: int|
            0 <= i < j < self.rows().len() ==> (#[trigger] self.rows()[i]).account_id.value < (
            #[trigger] self.rows()[j]).account_id.value
    }

    /// The first structural contradiction.
    pub open spec fn structure_fault(&self) -> Option<Seq<char>> {
        if self.wal_first_sequence == 0 {
            Some("auction risk checkpoint WAL first sequence is zero"@)
        } else if self.wal_first_sequence + self.rows().len() > u64::MAX {
            Some("auction risk checkpoint metadata boundary overflows"@)
        } else if self.auction.wal_metadata_sequence != self.wal_first_sequence
            + self.rows().len() {
            Some("auction risk checkpoint auction boundary does not follow profile metadata"@)
        } else if !self.structured() {
            Some("auction risk checkpoint accounts are not strictly canonical"@)
        } else {
            None
        }
    }

    /// The account of the first row, from one on, that an earlier row names too.
    pub open spec fn repeated_account(&self, index: int) -> Option<AccountId>
        decreases self.rows().len() - index,
    {
        if index < 0 || index >= self.rows().len() {
            None
        } else if exists|i: int|
            0 <= i < index && (#[trigger] self.rows()[i]).account_id
                == self.rows()[index].account_id {
            Some(self.rows()[index].account_id)
        } else {
            self.repeated_account(index + 1)
        }
    }

    /// The open interest of an account over the first `count` active orders is
    /// representable.
    pub open spec fn sums_fit(&self, account: AccountId, count: nat) -> bool {
        let orders = self.auction.active_orders@;
        &&& open_lots_of(orders, account, Side::Buy, count) <= u128::MAX
        &&& open_lots_of(orders, account, Side::Sell, count) <= u128::MAX
        &&& open_notional_of(&self.auction, account, count) <= u128::MAX
        &&& open_orders_of(orders, account, count) <= u64::MAX
    }

    /// What is said of the first active order, from one on, that no row bears.
    pub open spec fn orders_refusal(&self, index: int) -> Option<Seq<char>>
        decreases self.auction.active_orders@.len() - index,
    {
        let order = self.auction.active_orders@[index];
        if index < 0 || index >= self.auction.active_orders@.len() {
            None
        } else if !self.registers(order.account_id) {
            Some(unprofiled_text(order.order_id))
        } else if !self.sums_fit(order.account_id, (index + 1) as nat) {
            Some(exposure_text(order.account_id))
        } else {
            self.orders_refusal(index + 1)
        }
    }

    /// What is said of the first row, from one on, that its orders contradict.
    pub open spec fn rows_refusal(&self, index: int) -> Option<Seq<char>>
        decreases self.rows().len() - index,
    {
        let row = self.rows()[index];
        if index < 0 || index >= self.rows().len() {
            None
        } else if !exposes(
            &self.auction,
            row.account_id,
            row.exposure,
            self.auction.active_orders@.len(),
        ) {
            Some(exposure_text(row.account_id))
        } else {
            self.rows_refusal(index + 1)
        }
    }

    /// Every row and every order is indexed in a shard.
    pub open spec fn indexed_as(
        &self,
        managed: &CallAuctionRiskManagedEngine,
        limits: CallAuctionRiskLimits,
    ) -> bool {
        &&& managed.engine.wf()
        &&& managed.engine.audited()
        &&& managed.engine.restores(&self.auction)
        &&& managed.risk.config_ok()
        &&& managed.risk.ledger_ok()
        &&& managed.mirrors()
        &&& managed.limits == limits
        &&& self.held_by(&managed.risk)
    }

    /// What is said of coupled state that cannot be indexed: the first order that
    /// no row bears, then the first row that its orders contradict, then what the
    /// audit of the indexed state meets.
    pub open spec fn ledger_refusal(&self, limits: CallAuctionRiskLimits, text: Seq<char>) -> bool {
        if let Some(found) = self.orders_refusal(0) {
            text == found
        } else if let Some(found) = self.rows_refusal(0) {
            text == found
        } else {
            exists|managed: CallAuctionRiskManagedEngine| #[trigger]
                self.indexed_as(&managed, limits) && managed.audit_fault() == Some(text)
        }
    }

    /// The error of coupled state that cannot be indexed. A repeated account comes
    /// first.
    pub open spec fn ledger_refused(
        &self,
        limits: CallAuctionRiskLimits,
        error: CallAuctionRiskCheckpointError,
    ) -> bool {
        if let Some(account) = self.repeated_account(0) {
            error == CallAuctionRiskCheckpointError::Risk(RiskError::DuplicateProfile(account))
        } else {
            error matches CallAuctionRiskCheckpointError::Invalid(detail) && self.ledger_refusal(
                limits,
                detail@,
            )
        }
    }

    /// A restoration is refused before it asks for storage.
    pub open spec fn refused_early(&self, limits: CallAuctionRiskLimits) -> bool {
        ||| self.rows().len() > limits.max_registered_accounts
        ||| self.auction.refused_early(limits.auction)
    }

    /// The error of a restoration that is refused before it asks for storage: too
    /// many rows, then what is wrong with the auction state.
    pub open spec fn early_error(
        &self,
        limits: CallAuctionRiskLimits,
        error: CallAuctionRiskCheckpointError,
    ) -> bool {
        if self.rows().len() > limits.max_registered_accounts {
            error matches CallAuctionRiskCheckpointError::Invalid(detail) && detail@
                == account_count_text(self.rows().len(), limits.max_registered_accounts as nat)
        } else {
            error matches CallAuctionRiskCheckpointError::Auction(cause)
                && self.auction.early_error(limits.auction, cause)
        }
    }

    /// An account has a row.
    pub open spec fn registers(&self, account: AccountId) -> bool {
        exists|k: int| 0 <= k < self.rows().len() && (#[trigger] self.rows()[k]).account_id == account
    }

    /// The exposure of a row is the sum over the active orders of its account,
    /// and its limits bear it.
    pub open spec fn row_ok(&self, k: int) -> bool {
        let row = self.rows()[k];
        let limits = row.profile.limits;
        &&& exposes(
            &self.auction,
            row.account_id,
            row.exposure,
            self.auction.active_orders@.len(),
        )
        &&& limits.holds(row.exposure.position_lots as int)
        &&& limits.bears(
            row.exposure.position_lots as int,
            row.exposure.open_buy_lots as int,
            row.exposure.open_sell_lots as int,
        )
    }

    /// Coupled state that can be indexed under a resource policy.
    pub open spec fn restorable(&self, limits: CallAuctionRiskLimits) -> bool {
        &&& self.rows().len() <= limits.max_registered_accounts
        &&& CallAuctionEngine::restorable_under(&self.auction, limits.auction)
        &&& self.borne()
    }

    /// Rows name distinct accounts, every active order has a row, and every row is
    /// what its orders add up to and its limits bear.
    pub open spec fn borne(&self) -> bool {
        &&& forall|i: int, j: int|
            0 <= i < j < self.rows().len() ==> (#[trigger] self.rows()[i]).account_id != (
            #[trigger] self.rows()[j]).account_id
        &&& forall|i: int|
            0 <= i < self.auction.active_orders@.len() ==> self.registers(
                (#[trigger] self.auction.active_orders@[i]).account_id,
            )
        &&& forall|k: int| 0 <= k < self.rows().len() ==> #[trigger] self.row_ok(k)
    }

    /// Returns the first physical WAL sequence occupied by the definition.
    #[must_use]
    pub fn wal_first_sequence(&self) -> (r: u64)
        ensures
            r == self.wal_first_sequence,
    {
        self.wal_first_sequence
    }

    /// Returns the completed report boundary represented by this checkpoint.
    #[must_use]
    pub fn generation(&self) -> (r: u64)
        ensures
            r == self.auction.wal_sequence,
    {
        self.auction.generation()
    }

    /// Returns canonical direct auction state and complete command lineage.
    #[must_use]
    pub fn auction(&self) -> (r: &CallAuctionCheckpoint)
        ensures
            *r == *self.auction,
    {
        &self.auction
    }

    /// Returns account-sorted immutable profiles and current exposures.
    #[must_use]
    pub fn accounts(&self) -> (r: &[RiskAccountCheckpoint])
        ensures
            r@ == self.rows(),
    {
        self.accounts.as_slice()
    }

    /// Returns whether two checkpoints share the identical immutable account image.
    #[must_use]
    pub fn shares_account_storage_with(&self, other: &Self) -> (r: bool)
        ensures
            r ==> self.rows() == other.rows(),
    {
        shares_owner(&self.accounts, &other.accounts)
    }

    /// Returns another handle on the same checkpoint.
    pub fn share(&self) -> (r: Self)
        ensures
            r == *self,
    {
        CallAuctionRiskCheckpoint {
            wal_first_sequence: self.wal_first_sequence,
            auction: share_owner(&self.auction),
            accounts: share_owner(&self.accounts),
        }
    }

    /// Assembles a checkpoint and checks its log boundaries and row order.
    fn from_captured_parts(
        wal_first_sequence: u64,
        auction: CallAuctionCheckpoint,
        accounts: Vec<RiskAccountCheckpoint>,
    ) -> (r: Result<Self, CallAuctionRiskCheckpointError>)
        ensures
            ({
                let whole = CallAuctionRiskCheckpoint {
                    wal_first_sequence,
                    auction: Arc::new(auction),
                    accounts: Arc::new(accounts),
                };
                match r {
                    Ok(checkpoint) => checkpoint == whole && whole.structured(),
                    Err(error) => {
                        &&& error is Invalid
                        &&& !whole.structured()
                        &&& whole.structure_fault() == Some(error.description())
                    },
                }
            }),
    {
        let checkpoint = CallAuctionRiskCheckpoint {
            wal_first_sequence,
            auction: Arc::new(auction),
            accounts: Arc::new(accounts),
        };
        match checkpoint.validate_structure() {
            Ok(()) => Ok(checkpoint),
            Err(error) => Err(error),
        }
    }

    /// Checks the log boundaries and the row order.
    fn validate_structure(&self) -> (r: Result<(), CallAuctionRiskCheckpointError>)
        ensures
            match r {
                Ok(_) => self.structured(),
                Err(error) => {
                    &&& error is Invalid
                    &&& !self.structured()
                    &&& self.structure_fault() == Some(error.description())
                },
            },
    {
        if self.wal_first_sequence == 0 {
            return Err(
                CallAuctionRiskCheckpointError::new(
                    "auction risk checkpoint WAL first sequence is zero",
                ),
            );
        }
        let count: usize = self.accounts.len();
        match self.wal_first_sequence.checked_add(count as u64) {
            None => {
                return Err(
                    CallAuctionRiskCheckpointError::new(
                        "auction risk checkpoint metadata boundary overflows",
                    ),
                );
            },
            Some(expected) => {
                if self.auction.wal_metadata_sequence != expected {
                    return Err(
                        CallAuctionRiskCheckpointError::new(
                            "auction risk checkpoint auction boundary does not follow profile metadata",
                        ),
                    );
                }
            },
        }
        let mut index: usize = 1;
        while index < self.accounts.len()
            invariant
                index >= 1,
                self.wal_first_sequence != 0,
                self.auction.wal_metadata_sequence == self.wal_first_sequence + self.rows().len(),
                forall|i: int, j: int|
                    0 <= i < j < index && j < self.rows().len() ==> (
                    #[trigger] self.rows()[i]).account_id.value < (
                    #[trigger] self.rows()[j]).account_id.value,
            decreases self.rows().len() - index,
        {
            if self.accounts[index - 1].account_id.value >= self.accounts[index].account_id.value {
                proof {
                    assert(self.rows()[index - 1].account_id.value
                        >= self.rows()[index as int].account_id.value);
                }
                return Err(
                    CallAuctionRiskCheckpointError::new(
                        "auction risk checkpoint accounts are not strictly canonical",
                    ),
                );
            }
            proof {
                assert forall|i: int, j: int|
                    0 <= i < j < index + 1 && j < self.rows().len() implies (
                #[trigger] self.rows()[i]).account_id.value < (
                #[trigger] self.rows()[j]).account_id.value by {
                    if j == index && i < index - 1 {
                        assert(self.rows()[i].account_id.value
                            < self.rows()[index - 1].account_id.value);
                    }
                }
            }
            index += 1;
        }
        Ok(())
    }

    /// Whether this checkpoint continues an earlier one of the same log.
    pub open spec fn succeeds(&self, previous: &Self) -> bool {
        &&& self.wal_first_sequence == previous.wal_first_sequence
        &&& self.rows().len() == previous.rows().len()
        &&& forall|k: int|
            0 <= k < self.rows().len() ==> (#[trigger] self.rows()[k]).account_id
                == previous.rows()[k].account_id && self.rows()[k].profile
                == previous.rows()[k].profile
        &&& self.auction.succeeds(&previous.auction)
    }

    /// Returns whether this checkpoint extends the same immutable profile and
    /// auction-command lineage as `previous`.
    #[must_use]
    pub fn is_successor_of(&self, previous: &Self) -> (r: bool)
        ensures
            r == self.succeeds(previous),
    {
        if self.wal_first_sequence != previous.wal_first_sequence || self.accounts.len()
            != previous.accounts.len() {
            return false;
        }
        let mut index: usize = 0;
        while index < self.accounts.len()
            invariant
                self.rows().len() == previous.rows().len(),
                index <= self.rows().len(),
                forall|k: int|
                    0 <= k < index ==> (#[trigger] self.rows()[k]).account_id
                        == previous.rows()[k].account_id && self.rows()[k].profile
                        == previous.rows()[k].profile,
            decreases self.rows().len() - index,
        {
            let current = self.accounts[index];
            let earlier = previous.accounts[index];
            if current.account_id != earlier.account_id || current.profile != earlier.profile {
                proof {
                    assert(self.rows()[index as int] == current);
                }
                return false;
            }
            index += 1;
        }
        self.auction.is_successor_of(&previous.auction)
    }

    /// Registers every row with its position and no open interest.
    fn register_rows(&self, risk: &mut CallAuctionRiskEngine) -> (r: Result<
        (),
        CallAuctionRiskCheckpointError,
    >)
        requires
            self.config_ok(),
            self.rows().len() <= old(risk).maximum_accounts,
            old(risk).wf(),
            old(risk).accounts@ == Map::<AccountId, CallAuctionRiskAccount>::empty(),
            old(risk).reservations@ == Map::<
                OrderId,
                ActiveCallAuctionReservation,
            >::empty(),
        ensures
            match r {
                Ok(_) => {
                    &&& final(risk).config_ok()
                    &&& final(risk).ledger_ok()
                    &&& final(risk).bounds_ok()
                    &&& final(risk).definition == old(risk).definition
                    &&& final(risk).maximum_accounts == old(risk).maximum_accounts
                    &&& final(risk).maximum_reservations == old(risk).maximum_reservations
                    &&& final(risk).reservations == old(risk).reservations
                    &&& self.registered_in(final(risk), self.rows().len())
                    &&& forall|i: int, j: int|
                        0 <= i < j < self.rows().len() ==> (#[trigger] self.rows()[i]).account_id
                            != (#[trigger] self.rows()[j]).account_id
                },
                Err(error) => {
                    &&& self.repeated_account(0) matches Some(account) && error
                        == CallAuctionRiskCheckpointError::Risk(
                        RiskError::DuplicateProfile(account),
                    )
                    &&& exists|i: int, j: int|
                        0 <= i < j < self.rows().len() && (#[trigger] self.rows()[i]).account_id
                            == (#[trigger] self.rows()[j]).account_id
                },
            },
            r is Ok ==> self.repeated_account(0) is None,
    {
        let ghost start = *risk;
        let mut index: usize = 0;
        proof {
            risk.accounts.lemma_view();
        }
        while index < self.accounts.len()
            invariant
                self.config_ok(),
                self.rows().len() <= start.maximum_accounts,
                index <= self.rows().len(),
                risk.config_ok(),
                risk.ledger_ok(),
                risk.bounds_ok(),
                risk.definition == start.definition,
                risk.maximum_accounts == start.maximum_accounts,
                risk.maximum_reservations == start.maximum_reservations,
                risk.reservations == start.reservations,
                risk.reservations@ == Map::<
                    OrderId,
                    ActiveCallAuctionReservation,
                >::empty(),
                risk.accounts.entries@.len() == index,
                self.repeated_account(0) == self.repeated_account(index as int),
                self.registered_in(risk, index as nat),
                forall|i: int, j: int|
                    0 <= i < j < index ==> (#[trigger] self.rows()[i]).account_id != (
                    #[trigger] self.rows()[j]).account_id,
            decreases self.rows().len() - index,
        {
            let row = self.accounts[index];
            let ghost before = *risk;
            proof {
                assert(self.rows()[index as int] == row);
            }
            if risk.accounts.contains_key(row.account_id) {
                proof {
                    let k = choose|k: int|
                        0 <= k < index && (#[trigger] self.rows()[k]).account_id == row.account_id;
                    assert(self.rows()[k].account_id == self.rows()[index as int].account_id);
                }
                return Err(
                    CallAuctionRiskCheckpointError::Risk(
                        RiskError::DuplicateProfile(row.account_id),
                    ),
                );
            }
            let account = CallAuctionRiskAccount {
                profile: row.profile,
                exposure: RiskSnapshot::from_parts(row.exposure.position_lots, 0, 0, 0, 0),
                reservation_head: None,
                reservation_tail: None,
            };
            let _ = risk.accounts.insert(row.account_id, account);
            proof {
                let none = Seq::<OrderId>::empty();
                lemma_balanced(
                    risk.reservations@,
                    row.account_id,
                    account,
                    none,
                );
                assert forall|id: AccountId| #[trigger] risk.accounts@.dom().contains(
                    id,
                ) implies exists|k: int|
                    0 <= k < index + 1 && (#[trigger] self.rows()[k]).account_id == id by {
                    if id == row.account_id {
                        assert(self.rows()[index as int].account_id == id);
                    } else {
                        assert(before.accounts@.dom().contains(id));
                        let k = choose|k: int|
                            0 <= k < index && (#[trigger] self.rows()[k]).account_id == id;
                        assert(self.rows()[k].account_id == id);
                    }
                }
                assert forall|k: int| 0 <= k < index + 1 implies self.row_registered(
                    risk,
                    #[trigger] self.rows()[k],
                ) by {
                    if k < index {
                        assert(self.row_registered(&before, self.rows()[k]));
                    }
                }
                assert forall|i: int, j: int| 0 <= i < j < index + 1 implies (
                #[trigger] self.rows()[i]).account_id != (
                #[trigger] self.rows()[j]).account_id by {
                    if j == index {
                        assert(self.row_registered(&before, self.rows()[i]));
                    }
                }
            }
            index += 1;
        }
        Ok(())
    }

    /// A row is registered with its profile and position and no open interest.
    pub open spec fn row_registered(
        &self,
        risk: &CallAuctionRiskEngine,
        row: RiskAccountCheckpoint,
    ) -> bool {
        &&& risk.accounts@.dom().contains(row.account_id)
        &&& risk.accounts@[row.account_id].profile == row.profile
        &&& risk.accounts@[row.account_id].exposure == (RiskSnapshot {
            position_lots: row.exposure.position_lots,
            open_buy_lots: 0,
            open_sell_lots: 0,
            open_notional: 0,
            open_orders: 0,
        })
    }

    /// Exactly the first `count` rows are registered.
    pub open spec fn registered_in(&self, risk: &CallAuctionRiskEngine, count: nat) -> bool {
        &&& forall|k: int|
            0 <= k < count ==> self.row_registered(risk, #[trigger] self.rows()[k])
        &&& forall|id: AccountId| #[trigger]
            risk.accounts@.dom().contains(id) ==> exists|k: int|
                0 <= k < count && (#[trigger] self.rows()[k]).account_id == id
    }

    /// The ledger holds the rows' profiles and positions, and the reservations
    /// of the first `count` active orders.
    spec fn reserved_in(&self, risk: &CallAuctionRiskEngine, count: nat) -> bool {
        &&& risk.reserved() == mirrored(
            self.auction.definition,
            orders_by_id(self.auction.active_orders@.take(count as int)),
        )
        &&& forall|k: int|
            0 <= k < self.rows().len() ==> self.row_reserved(risk, #[trigger] self.rows()[k], count)
        &&& forall|id: AccountId| #[trigger]
            risk.accounts@.dom().contains(id) ==> self.registers(id)
    }

    spec fn row_reserved(
        &self,
        risk: &CallAuctionRiskEngine,
        row: RiskAccountCheckpoint,
        count: nat,
    ) -> bool {
        let account = risk.accounts@[row.account_id];
        &&& risk.accounts@.dom().contains(row.account_id)
        &&& account.profile == row.profile
        &&& account.exposure.position_lots == row.exposure.position_lots
        &&& exposes(&self.auction, row.account_id, account.exposure, count)
    }

    /// Reserves every active order.
    fn reserve_orders(&self, risk: &mut CallAuctionRiskEngine) -> (r: Result<
        (),
        CallAuctionRiskCheckpointError,
    >)
        requires
            old(risk).config_ok(),
            old(risk).ledger_ok(),
            old(risk).bounds_ok(),
            old(risk).definition == self.auction.definition,
            old(risk).reservations.entries@.len() == 0,
            self.auction.active_orders@.len() <= old(risk).maximum_reservations,
            ids_distinct(self.auction.active_orders@),
            forall|i: int|
                0 <= i < self.auction.active_orders@.len() ==> (
                #[trigger] self.auction.active_orders@[i]).quantity.lots > 0,
            self.registered_in(old(risk), self.rows().len()),
        ensures
            match r {
                Ok(_) => {
                    &&& final(risk).config_ok()
                    &&& final(risk).ledger_ok()
                    &&& final(risk).bounds_ok()
                    &&& final(risk).definition == old(risk).definition
                    &&& final(risk).maximum_accounts == old(risk).maximum_accounts
                    &&& final(risk).maximum_reservations == old(risk).maximum_reservations
                    &&& self.reserved_in(final(risk), self.auction.active_orders@.len())
                    &&& forall|i: int|
                        0 <= i < self.auction.active_orders@.len() ==> self.registers(
                            (#[trigger] self.auction.active_orders@[i]).account_id,
                        )
                    &&& self.orders_refusal(0) is None
                },
                Err(error) => {
                    &&& error is Invalid
                    &&& self.orders_refusal(0) == Some(error.description())
                    &&& !(forall|i: int|
                        0 <= i < self.auction.active_orders@.len() ==> self.registers(
                            (#[trigger] self.auction.active_orders@[i]).account_id,
                        )) || !(forall|k: int|
                        0 <= k < self.rows().len() ==> #[trigger] self.row_ok(k))
                },
            },
    {
        let ghost start = *risk;
        let ghost orders = self.auction.active_orders@;
        let ghost total = orders.len();
        let mut index: usize = 0;
        proof {
            risk.reservations.lemma_view();
            assert(orders_by_id(orders.take(0)) =~= Map::<OrderId, CallAuctionOrderSnapshot>::empty());
            assert(risk.reservations@ =~= Map::<
                OrderId,
                ActiveCallAuctionReservation,
            >::empty());
            assert(risk.reserved() =~= mirrored(
                self.auction.definition,
                orders_by_id(orders.take(0)),
            ));
            assert forall|k: int| 0 <= k < self.rows().len() implies self.row_reserved(
                risk,
                #[trigger] self.rows()[k],
                0,
            ) by {
                assert(self.row_registered(risk, self.rows()[k]));
            }
        }
        while index < self.auction.active_orders.len()
            invariant
                orders == self.auction.active_orders@,
                total == orders.len(),
                ids_distinct(orders),
                total <= start.maximum_reservations,
                forall|i: int| 0 <= i < total ==> (#[trigger] orders[i]).quantity.lots > 0,
                index <= total,
                risk.config_ok(),
                risk.ledger_ok(),
                risk.bounds_ok(),
                risk.definition == start.definition,
                start.definition == self.auction.definition,
                risk.maximum_accounts == start.maximum_accounts,
                risk.maximum_reservations == start.maximum_reservations,
                risk.reservations.entries@.len() == index,
                self.reserved_in(risk, index as nat),
                self.orders_refusal(0) == self.orders_refusal(index as int),
                forall|i: int| 0 <= i < index ==> self.registers((#[trigger] orders[i]).account_id),
            decreases total - index,
        {
            let order = self.auction.active_orders[index];
            let ghost before = *risk;
            proof {
                assert(orders[index as int] == order);
                self.lemma_fresh(&before, index as nat);
            }
            let account = match risk.accounts.get(order.account_id) {
                Some(account) => account,
                None => {
                    proof {
                        if self.registers(orders[index as int].account_id) {
                            let k = choose|k: int|
                                0 <= k < self.rows().len() && (#[trigger] self.rows()[k]).account_id
                                    == order.account_id;
                            assert(self.row_reserved(&before, self.rows()[k], index as nat));
                        }
                    }
                    return Err(CallAuctionRiskCheckpointError::about_order(order.order_id));
                },
            };
            let valuation: u64 = conservative_price_magnitude(
                risk.definition,
                order.side,
                order.constraint,
            );
            let reservation = CallAuctionReservationSnapshot {
                account_id: order.account_id,
                side: order.side,
                constraint: order.constraint,
                valuation_per_lot: valuation,
                quantity_lots: order.quantity.lots,
                notional: reserve_notional(valuation, order.quantity.lots),
            };
            proof {
                assert(reservation == reservation_of(self.auction.definition, order));
                assert(self.registers(order.account_id));
            }
            proof {
                let k = choose|k: int|
                    0 <= k < self.rows().len() && (#[trigger] self.rows()[k]).account_id
                        == order.account_id;
                assert(self.row_reserved(&before, self.rows()[k], index as nat));
                assert(self.sums_fit(order.account_id, (index + 1) as nat) <==> exposure_fits(
                    account.exposure,
                    reservation,
                ));
            }
            if exposure_with_reservation(account.exposure, reservation).is_none() {
                proof {
                    let k = choose|k: int|
                        0 <= k < self.rows().len() && (#[trigger] self.rows()[k]).account_id
                            == order.account_id;
                    assert(self.row_reserved(&before, self.rows()[k], index as nat));
                    lemma_sums_monotone(
                        &self.auction,
                        order.account_id,
                        (index + 1) as nat,
                        total,
                    );
                    assert(!self.row_ok(k));
                }
                return Err(CallAuctionRiskCheckpointError::about_account(order.account_id));
            }
            risk.insert_reservation(order);
            proof {
                self.lemma_reserved_step(&before, risk, index as nat);
                assert forall|id: AccountId| #[trigger] risk.accounts@.dom().contains(
                    id,
                ) implies risk.accounts@[id].profile.limits.wf() by {
                    assert(before.accounts@.dom().contains(id));
                }
            }
            index += 1;
        }
        proof {
            assert(orders.take(total as int) =~= orders);
        }
        Ok(())
    }

    /// The next order is not yet reserved.
    proof fn lemma_fresh(&self, risk: &CallAuctionRiskEngine, count: nat)
        requires
            count < self.auction.active_orders@.len(),
            ids_distinct(self.auction.active_orders@),
            self.reserved_in(risk, count),
        ensures
            !risk.reserved().dom().contains(self.auction.active_orders@[count as int].order_id),
    {
        let orders = self.auction.active_orders@;
        let prefix = orders.take(count as int);
        let id = orders[count as int].order_id;
        assert(!orders_by_id(prefix).dom().contains(id)) by {
            if orders_by_id(prefix).dom().contains(id) {
                let i = choose|i: int| 0 <= i < prefix.len() && (#[trigger] prefix[i]).order_id == id;
                assert(prefix[i] == orders[i]);
                assert(orders[i].order_id != orders[count as int].order_id);
            }
        }
    }

    /// Reserving the next order keeps the correspondence.
    proof fn lemma_reserved_step(
        &self,
        before: &CallAuctionRiskEngine,
        after: &CallAuctionRiskEngine,
        count: nat,
    )
        requires
            count < self.auction.active_orders@.len(),
            ids_distinct(self.auction.active_orders@),
            self.reserved_in(before, count),
            before.definition == self.auction.definition,
            before.accounts@.dom().contains(
                self.auction.active_orders@[count as int].account_id,
            ),
            exposure_fits(
                before.accounts@[self.auction.active_orders@[count as int].account_id].exposure,
                reservation_of(before.definition, self.auction.active_orders@[count as int]),
            ),
            after.reserved() == before.reserved().insert(
                self.auction.active_orders@[count as int].order_id,
                reservation_of(before.definition, self.auction.active_orders@[count as int]),
            ),
            after.same_but_account(
                before,
                self.auction.active_orders@[count as int].account_id,
                exposure_with(
                    before.accounts@[self.auction.active_orders@[count as int].account_id].exposure,
                    reservation_of(before.definition, self.auction.active_orders@[count as int]),
                ),
            ),
        ensures
            self.reserved_in(after, count + 1),
    {
        let orders = self.auction.active_orders@;
        let order = orders[count as int];
        let prefix = orders.take(count as int);
        let longer = orders.take((count + 1) as int);
        let small = orders_by_id(prefix);
        let large = orders_by_id(longer);
        assert forall|id: OrderId| #[trigger] large.dom().contains(id) <==> small.insert(
            order.order_id,
            order,
        ).dom().contains(id) by {
            if large.dom().contains(id) {
                let i = choose|i: int| 0 <= i < longer.len() && (#[trigger] longer[i]).order_id == id;
                if i < count {
                    assert(prefix[i] == longer[i]);
                    assert(prefix[i].order_id == id);
                }
            }
            if small.dom().contains(id) {
                let i = choose|i: int| 0 <= i < prefix.len() && (#[trigger] prefix[i]).order_id == id;
                assert(longer[i].order_id == id);
            }
            if id == order.order_id {
                assert(longer[count as int].order_id == id);
            }
        }
        assert forall|id: OrderId| #[trigger] large.dom().contains(id) implies large[id]
            == small.insert(order.order_id, order)[id] by {
            let i = choose|i: int| 0 <= i < longer.len() && (#[trigger] longer[i]).order_id == id;
            assert(large[id] == longer[i]);
            assert(longer[i] == orders[i]);
            if id == order.order_id {
                if i != count {
                    assert(orders[i].order_id != orders[count as int].order_id);
                }
            } else {
                assert(small.dom().contains(id));
                let j = choose|j: int| 0 <= j < prefix.len() && (#[trigger] prefix[j]).order_id == id;
                assert(prefix[j] == orders[j]);
                if i < j {
                    assert(orders[i].order_id != orders[j].order_id);
                }
                if j < i {
                    assert(orders[j].order_id != orders[i].order_id);
                }
            }
        }
        assert(large =~= small.insert(order.order_id, order));
        assert(after.reserved() =~= mirrored(self.auction.definition, large));
        assert forall|k: int| 0 <= k < self.rows().len() implies self.row_reserved(
            after,
            #[trigger] self.rows()[k],
            count + 1,
        ) by {
            assert(self.row_reserved(before, self.rows()[k], count));
        }
    }

    /// The ledger holds exactly the rows.
    pub open spec fn held_by(&self, risk: &CallAuctionRiskEngine) -> bool {
        &&& forall|k: int|
            0 <= k < self.rows().len() ==> self.row_held(risk, #[trigger] self.rows()[k])
        &&& forall|id: AccountId| #[trigger]
            risk.accounts@.dom().contains(id) ==> self.registers(id)
    }

    /// The ledger holds one row.
    pub open spec fn row_held(&self, risk: &CallAuctionRiskEngine, row: RiskAccountCheckpoint) -> bool {
        &&& risk.accounts@.dom().contains(row.account_id)
        &&& risk.accounts@[row.account_id].profile == row.profile
        &&& risk.accounts@[row.account_id].exposure == row.exposure
    }

    /// What restoring gives.
    pub open spec fn restored_as(
        &self,
        managed: &CallAuctionRiskManagedEngine,
        limits: CallAuctionRiskLimits,
        instance_id: u64,
    ) -> bool {
        &&& managed.wf()
        &&& managed.audited()
        &&& managed.limits == limits
        &&& managed.engine.restores(&self.auction)
        &&& managed.engine.instance_id == instance_id
        &&& self.held_by(&managed.risk)
    }

    /// What a failed restoration says.
    pub open spec fn restore_fails(
        &self,
        error: CallAuctionRiskCheckpointError,
        limits: CallAuctionRiskLimits,
        instance_id: u64,
    ) -> bool {
        if self.refused_early(limits) {
            self.early_error(limits, error)
        } else {
            match error {
                CallAuctionRiskCheckpointError::Auction(
                    CallAuctionCheckpointError::Construction(error, _),
                ) => construction_error(self.auction.definition, instance_id, error),
                CallAuctionRiskCheckpointError::Auction(
                    CallAuctionCheckpointError::Preparation(..),
                ) => false,
                CallAuctionRiskCheckpointError::Auction(
                    CallAuctionCheckpointError::Contradiction(detail),
                ) => {
                    &&& !self.restorable(limits)
                    &&& self.auction.refused_for(limits.auction, detail@)
                },
                CallAuctionRiskCheckpointError::Construction(error) => ledger_failed(error),
                CallAuctionRiskCheckpointError::ResourceReservationFailed { .. } => false,
                CallAuctionRiskCheckpointError::Invalid(_) => {
                    &&& !self.restorable(limits)
                    &&& self.ledger_refused(limits, error)
                },
                CallAuctionRiskCheckpointError::Risk(_) => {
                    &&& !self.restorable(limits)
                    &&& self.ledger_refused(limits, error)
                },
            }
        }
    }

    /// Restores directly indexed coupled state under explicit limits.
    fn restore_direct_with_limits(&self, limits: CallAuctionRiskLimits, instance_id: u64) -> (r:
        Result<CallAuctionRiskManagedEngine, CallAuctionRiskCheckpointError>)
        requires
            self.config_ok(),
            limits.wf(),
        ensures
            r matches Err(CallAuctionRiskCheckpointError::Auction(cause)) ==> cause.worded(),
            self.refused_early(limits) ==> (r matches Err(error) && self.early_error(
                limits,
                error,
            )),
            match r {
                Ok(managed) => self.restorable(limits) && self.restored_as(
                    &managed,
                    limits,
                    instance_id,
                ),
                Err(error) => self.restore_fails(error, limits, instance_id),
            },
    {
        if self.accounts.len() > limits.max_registered_accounts() {
            return Err(
                CallAuctionRiskCheckpointError::about_count(
                    self.accounts.len(),
                    limits.max_registered_accounts(),
                ),
            );
        }
        let engine = CallAuctionEngine::from_checkpoint_with_limits(
            self.auction.share(),
            limits.auction(),
            instance_id,
        );
        if let Err(error) = engine {
            return Err(CallAuctionRiskCheckpointError::Auction(error));
        }
        let risk = CallAuctionRiskEngine::try_with_limits(self.auction.definition, limits);
        self.restored_in(limits, engine, risk)
    }

    /// Couples an engine that restores the auction state to an empty ledger, which
    /// takes the rows and the reservations of the active orders.
    ///
    /// Where one of the two could not be had, its error is returned, that of the
    /// engine first. Otherwise success is owed exactly to rows and orders that are
    /// borne.
    pub fn restored_in(
        &self,
        limits: CallAuctionRiskLimits,
        engine: Result<CallAuctionEngine, CallAuctionCheckpointError>,
        risk: Result<CallAuctionRiskEngine, CallAuctionRiskConstructionError>,
    ) -> (r: Result<CallAuctionRiskManagedEngine, CallAuctionRiskCheckpointError>)
        requires
            self.config_ok(),
            limits.wf(),
            self.rows().len() <= limits.max_registered_accounts,
            engine matches Ok(engine) ==> {
                &&& CallAuctionEngine::restorable_under(&self.auction, limits.auction)
                &&& engine.wf()
                &&& engine.audited()
                &&& engine.restores(&self.auction)
                &&& engine.limits == limits.auction
            },
            risk matches Ok(ledger) ==> {
                &&& ledger.wf()
                &&& ledger.definition == self.auction.definition
                &&& ledger.maximum_accounts == limits.max_registered_accounts
                &&& ledger.maximum_reservations == limits.auction.book.active_orders
                &&& ledger.accounts@ == Map::<AccountId, CallAuctionRiskAccount>::empty()
                &&& ledger.reservations@ == Map::<OrderId, ActiveCallAuctionReservation>::empty()
            },
        ensures
            r is Ok <==> engine is Ok && risk is Ok && self.borne(),
            match r {
                Ok(managed) => self.restored_as(&managed, limits, engine->Ok_0.instance_id),
                Err(error) => match (engine, risk) {
                    (Err(cause), _) => error == CallAuctionRiskCheckpointError::Auction(cause),
                    (Ok(_), Err(cause)) => error == CallAuctionRiskCheckpointError::Construction(
                        cause,
                    ),
                    (Ok(_), Ok(_)) => self.ledger_refused(limits, error),
                },
            },
    {
        let engine = match engine {
            Ok(engine) => engine,
            Err(error) => {
                return Err(CallAuctionRiskCheckpointError::Auction(error));
            },
        };
        let mut risk = match risk {
            Ok(risk) => risk,
            Err(error) => {
                return Err(CallAuctionRiskCheckpointError::Construction(error));
            },
        };
        proof {
            risk.reservations.lemma_view();
        }
        match self.register_rows(&mut risk) {
            Ok(()) => {},
            Err(error) => {
                return Err(error);
            },
        }
        match self.reserve_orders(&mut risk) {
            Ok(()) => {},
            Err(error) => {
                return Err(error);
            },
        }
        match self.compare_rows(&risk) {
            Ok(()) => {},
            Err(error) => {
                return Err(error);
            },
        }
        let ghost total = self.auction.active_orders@.len();
        let managed = CallAuctionRiskManagedEngine { engine, risk, limits };
        proof {
            assert(self.auction.active_orders@.take(total as int)
                =~= self.auction.active_orders@);
            assert(managed.mirrors());
            self.lemma_rows_bear(&managed.risk);
            assert(self.indexed_as(&managed, limits));
        }
        match managed.validate() {
            Ok(()) => Ok(managed),
            Err(error) => Err(CallAuctionRiskCheckpointError::new(error.detail())),
        }
    }

    /// Compares every row with what its active orders add up to.
    fn compare_rows(&self, risk: &CallAuctionRiskEngine) -> (r: Result<
        (),
        CallAuctionRiskCheckpointError,
    >)
        requires
            risk.config_ok(),
            risk.ledger_ok(),
            self.reserved_in(risk, self.auction.active_orders@.len()),
        ensures
            match r {
                Ok(()) => {
                    &&& self.rows_refusal(0) is None
                    &&& self.held_by(risk)
                    &&& forall|k: int|
                        0 <= k < self.rows().len() ==> exposes(
                            &self.auction,
                            (#[trigger] self.rows()[k]).account_id,
                            self.rows()[k].exposure,
                            self.auction.active_orders@.len(),
                        )
                },
                Err(error) => {
                    &&& error is Invalid
                    &&& self.rows_refusal(0) == Some(error.description())
                    &&& exists|k: int| 0 <= k < self.rows().len() && !#[trigger] self.row_ok(k)
                },
            },
    {
        let ghost total = self.auction.active_orders@.len();
        let mut index: usize = 0;
        while index < self.accounts.len()
            invariant
                risk.config_ok(),
                risk.ledger_ok(),
                total == self.auction.active_orders@.len(),
                self.reserved_in(risk, total),
                index <= self.rows().len(),
                self.rows_refusal(0) == self.rows_refusal(index as int),
                forall|k: int|
                    0 <= k < index ==> self.row_held(risk, #[trigger] self.rows()[k]) && exposes(
                        &self.auction,
                        self.rows()[k].account_id,
                        self.rows()[k].exposure,
                        total,
                    ),
            decreases self.rows().len() - index,
        {
            let row = self.accounts[index];
            proof {
                assert(self.rows()[index as int] == row);
                assert(self.row_reserved(risk, self.rows()[index as int], total));
            }
            let restored = risk.accounts.fetch(row.account_id).exposure;
            if restored != row.exposure {
                proof {
                    if exposes(&self.auction, row.account_id, row.exposure, total) {
                        assert(restored == row.exposure);
                    }
                    assert(!self.row_ok(index as int));
                }
                return Err(CallAuctionRiskCheckpointError::about_account(row.account_id));
            }
            index += 1;
        }
        Ok(())
    }

    /// The ledger lies within its limits exactly when every row does.
    proof fn lemma_rows_bear(&self, risk: &CallAuctionRiskEngine)
        requires
            self.held_by(risk),
            forall|k: int|
                0 <= k < self.rows().len() ==> exposes(
                    &self.auction,
                    (#[trigger] self.rows()[k]).account_id,
                    self.rows()[k].exposure,
                    self.auction.active_orders@.len(),
                ),
        ensures
            risk.limits_ok() <==> forall|k: int|
                0 <= k < self.rows().len() ==> #[trigger] self.row_ok(k),
    {
        if risk.limits_ok() {
            assert forall|k: int| 0 <= k < self.rows().len() implies #[trigger] self.row_ok(k) by {
                assert(self.row_held(risk, self.rows()[k]));
                assert(risk.account_bears(self.rows()[k].account_id));
            }
        }
        if forall|k: int| 0 <= k < self.rows().len() ==> #[trigger] self.row_ok(k) {
            assert forall|id: AccountId| #[trigger] risk.accounts@.dom().contains(
                id,
            ) implies risk.account_bears(id) by {
                assert(self.registers(id));
                let k = choose|k: int|
                    0 <= k < self.rows().len() && (#[trigger] self.rows()[k]).account_id == id;
                assert(self.row_held(risk, self.rows()[k]));
                assert(self.row_ok(k));
            }
        }
    }
}

/// Account rows of a live ledger by ascending identity.
pub open spec fn ledger_rows(risk: &CallAuctionRiskEngine) -> Seq<RiskAccountCheckpoint> {
    Seq::new(
        risk.accounts.entries@.len(),
        |k: int|
            RiskAccountCheckpoint {
                account_id: risk.accounts.entries@[k].0,
                profile: risk.accounts.entries@[k].1.profile,
                exposure: risk.accounts.entries@[k].1.exposure,
            },
    )
}

/// The error of account rows for which there is no storage.
pub open spec fn rows_unreserved(count: nat) -> CallAuctionRiskCheckpointError {
    CallAuctionRiskCheckpointError::ResourceReservationFailed {
        resource: CallAuctionRiskCheckpointResource::CaptureAccounts,
        maximum: count as usize,
    }
}

/// Copies the account rows of a live ledger.
fn checkpoint_accounts(risk: &CallAuctionRiskEngine) -> (r: Result<
    Vec<RiskAccountCheckpoint>,
    CallAuctionRiskCheckpointError,
>)
    ensures
        match r {
            Ok(rows) => rows@ == ledger_rows(risk),
            Err(error) => error == rows_unreserved(risk.accounts.entries@.len()),
        },
{
    let mut accounts: Vec<RiskAccountCheckpoint> = match reserve_call_auction_risk_checkpoint_vec(
        risk.accounts.len(),
        CallAuctionRiskCheckpointResource::CaptureAccounts,
    ) {
        Ok(accounts) => accounts,
        Err(error) => {
            return Err(error);
        },
    };
    let mut index: usize = 0;
    while index < risk.accounts.len()
        invariant
            index <= risk.accounts.entries@.len(),
            accounts@ =~= ledger_rows(risk).take(index as int),
        decreases risk.accounts.entries@.len() - index,
    {
        let account = risk.accounts.value_at(index);
        accounts.push(
            RiskAccountCheckpoint::from_parts(
                risk.accounts.key_at(index),
                account.profile,
                account.exposure,
            ),
        );
        index += 1;
    }
    proof {
        assert(accounts@ =~= ledger_rows(risk));
    }
    Ok(accounts)
}

/// An immutable coupled capture whose history has not been replayed yet.
#[derive(Debug)]
pub struct CallAuctionRiskCheckpointCapture {
    /// Captured state.
    pub checkpoint: CallAuctionRiskCheckpoint,
    /// Resource policy used during verification.
    pub limits: CallAuctionRiskLimits,
}

impl CallAuctionRiskCheckpointCapture {
    /// Returns the first physical WAL sequence occupied by the definition.
    #[must_use]
    pub fn wal_first_sequence(&self) -> (r: u64)
        ensures
            r == self.checkpoint.wal_first_sequence,
    {
        self.checkpoint.wal_first_sequence()
    }

    /// Returns the final immutable definition/profile metadata sequence.
    #[must_use]
    pub fn wal_metadata_sequence(&self) -> (r: u64)
        ensures
            r == self.checkpoint.auction.wal_metadata_sequence,
    {
        self.checkpoint.auction().wal_metadata_sequence()
    }

    /// Returns the completed report boundary represented here.
    #[must_use]
    pub fn generation(&self) -> (r: u64)
        ensures
            r == self.checkpoint.auction.wal_sequence,
    {
        self.checkpoint.generation()
    }

    /// Returns the finite coupled resource policy used during verification.
    #[must_use]
    pub fn limits(&self) -> (r: CallAuctionRiskLimits)
        ensures
            r == self.limits,
    {
        self.limits
    }

    /// Returns the retained command/report cardinality.
    #[must_use]
    pub fn command_count(&self) -> (r: usize)
        ensures
            r == self.checkpoint.auction.history@.len(),
    {
        self.checkpoint.auction().command_count()
    }

    /// Returns the active order/reservation cardinality.
    #[must_use]
    pub fn active_order_count(&self) -> (r: usize)
        ensures
            r == self.checkpoint.auction.active_orders@.len(),
    {
        self.checkpoint.auction().active_orders().len()
    }

    /// Returns the canonical immutable account/profile cardinality.
    #[must_use]
    pub fn account_count(&self) -> (r: usize)
        ensures
            r == self.checkpoint.rows().len(),
    {
        self.checkpoint.accounts().len()
    }

    /// Returns whether two captures share every immutable checkpoint row image.
    #[must_use]
    pub fn shares_checkpoint_storage_with(&self, other: &Self) -> (r: bool)
        ensures
            r ==> self.checkpoint.rows() == other.checkpoint.rows() && *self.checkpoint.auction
                == *other.checkpoint.auction,
    {
        self.checkpoint.shares_account_storage_with(&other.checkpoint) && shares_owner(
            &self.checkpoint.auction,
            &other.checkpoint.auction,
        )
    }

    /// Returns another handle on the same capture.
    pub fn share(&self) -> (r: Self)
        ensures
            r == *self,
    {
        CallAuctionRiskCheckpointCapture { checkpoint: self.checkpoint.share(), limits: self.limits }
    }

    /// Consumes this capture and proves deterministic coupled auction/risk replay.
    ///
    /// Verification restores the direct state, registers the captured profiles
    /// in a fresh shard, requires that it reproduces every report, and compares
    /// the resulting auction and account state. A capture that contradicts
    /// itself or its history is refused.
    pub fn verify(self, restore_instance_id: u64, replay_instance_id: u64) -> (r: Result<
        CallAuctionRiskCheckpoint,
        CallAuctionRiskCheckpointError,
    >)
        requires
            self.checkpoint.config_ok(),
            self.limits.wf(),
        ensures
            r matches Err(CallAuctionRiskCheckpointError::Auction(cause)) ==> cause.worded(),
            self.checkpoint.unverified_early(self.limits) ==> (r matches Err(error)
                && self.checkpoint.unverified_error(self.limits, error)),
            match r {
                Ok(checkpoint) => checkpoint == self.checkpoint && checkpoint.verifiable(
                    self.limits,
                ),
                Err(error) => self.checkpoint.verify_fails(
                    error,
                    self.limits,
                    restore_instance_id,
                    replay_instance_id,
                ),
            },
    {
        let checkpoint = self.checkpoint;
        match checkpoint.verify_replay_with_limits(
            self.limits,
            restore_instance_id,
            replay_instance_id,
        ) {
            Ok(()) => Ok(checkpoint),
            Err(error) => Err(error),
        }
    }
}

impl CallAuctionRiskCheckpoint {
    /// Profiles of the rows.
    pub open spec fn profiles(&self) -> Map<AccountId, RiskProfile> {
        Map::new(
            |id: AccountId| self.registers(id),
            |id: AccountId|
                self.rows()[choose|k: int|
                    0 <= k < self.rows().len() && (#[trigger] self.rows()[k]).account_id
                        == id].profile,
        )
    }

    /// Every position is the initial one, moved by the retained trades.
    pub open spec fn positions_ok(&self) -> bool {
        forall|k: int|
            0 <= k < self.rows().len() ==> {
                let row = #[trigger] self.rows()[k];
                row.exposure.position_lots == row.profile.initial_position_lots + net_executed(
                    self.auction.history@,
                    self.auction.history@.len(),
                    row.account_id,
                )
            }
    }

    /// Replaying the history against the profiles reproduces every report and
    /// every position.
    pub open spec fn reproducible(&self, limits: CallAuctionRiskLimits) -> bool {
        &&& CallAuctionRiskManagedEngine::reproducible(
            self.auction.definition,
            limits,
            self.profiles(),
            self.auction.history@,
        )
        &&& self.positions_ok()
    }

    /// The checkpoint is canonical, restores, and is what its history leads to.
    pub open spec fn verifiable(&self, limits: CallAuctionRiskLimits) -> bool {
        &&& self.structured()
        &&& self.restorable(limits)
        &&& self.reproducible(limits)
    }

    /// A verification is refused before it asks for storage.
    pub open spec fn unverified_early(&self, limits: CallAuctionRiskLimits) -> bool {
        self.structure_fault() is Some || self.refused_early(limits)
    }

    /// The error of a verification that is refused before it asks for storage: the
    /// first structural contradiction, then what keeps the state from being
    /// restored.
    pub open spec fn unverified_error(
        &self,
        limits: CallAuctionRiskLimits,
        error: CallAuctionRiskCheckpointError,
    ) -> bool {
        if let Some(text) = self.structure_fault() {
            error matches CallAuctionRiskCheckpointError::Invalid(detail) && detail@ == text
        } else {
            self.early_error(limits, error)
        }
    }

    /// What is said of a restorable checkpoint that its history does not lead to:
    /// what refuses the first pair that is not reproduced, or, where every pair is,
    /// that positions differ.
    pub open spec fn replay_refusal(&self, limits: CallAuctionRiskLimits, text: Seq<char>) -> bool {
        ||| CallAuctionRiskManagedEngine::history_refused(
            self.auction.definition,
            limits,
            self.profiles(),
            self.auction.history@,
            text,
        )
        ||| {
            &&& CallAuctionRiskManagedEngine::reproducible(
                self.auction.definition,
                limits,
                self.profiles(),
                self.auction.history@,
            )
            &&& !self.positions_ok()
            &&& text
                == "auction risk checkpoint direct state differs from coupled history replay"@
        }
    }

    /// What a failed verification says.
    pub open spec fn verify_fails(
        &self,
        error: CallAuctionRiskCheckpointError,
        limits: CallAuctionRiskLimits,
        restore_instance_id: u64,
        replay_instance_id: u64,
    ) -> bool {
        if self.unverified_early(limits) {
            self.unverified_error(limits, error)
        } else {
            ||| self.restore_fails(error, limits, restore_instance_id)
            ||| self.restorable(limits) && self.replay_fails(error, limits, replay_instance_id)
        }
    }

    /// What a failed replay of a restorable checkpoint says.
    pub open spec fn replay_fails(
        &self,
        error: CallAuctionRiskCheckpointError,
        limits: CallAuctionRiskLimits,
        replay_instance_id: u64,
    ) -> bool {
        match error {
            CallAuctionRiskCheckpointError::Construction(
                CallAuctionRiskConstructionError::Auction(error),
            ) => construction_error(self.auction.definition, replay_instance_id, error),
            CallAuctionRiskCheckpointError::Construction(error) => ledger_failed(error),
            _ => self.replay_differs(error, limits),
        }
    }

    /// What a replay in a fresh shard that does not lead to a restorable checkpoint
    /// says.
    pub open spec fn replay_differs(
        &self,
        error: CallAuctionRiskCheckpointError,
        limits: CallAuctionRiskLimits,
    ) -> bool {
        match error {
            CallAuctionRiskCheckpointError::Invalid(detail) => {
                &&& !self.reproducible(limits) || detail@ == starved_text()
                &&& self.replay_refusal(limits, detail@)
            },
            _ => error == rows_unreserved(self.rows().len()),
        }
    }

    /// A ledger holds the profiles of the first rows, and nothing has moved.
    spec fn enrolled(&self, risk: &CallAuctionRiskEngine, count: nat) -> bool {
        &&& risk.accounts.entries@.len() == count
        &&& forall|k: int|
            0 <= k < count ==> {
                let row = #[trigger] self.rows()[k];
                &&& risk.accounts@.dom().contains(row.account_id)
                &&& risk.accounts@[row.account_id].profile == row.profile
                &&& risk.accounts@[row.account_id].exposure.position_lots
                    == row.profile.initial_position_lots
            }
        &&& forall|id: AccountId| #[trigger]
            risk.accounts@.dom().contains(id) ==> exists|k: int|
                0 <= k < count && (#[trigger] self.rows()[k]).account_id == id
    }

    /// A fully enrolled ledger holds the profiles of the rows.
    proof fn lemma_enrolled(&self, risk: &CallAuctionRiskEngine)
        requires
            self.structured(),
            self.enrolled(risk, self.rows().len()),
        ensures
            risk.profiles() == self.profiles(),
            forall|id: AccountId| #[trigger]
                risk.accounts@.dom().contains(id) ==> risk.accounts@[id].exposure.position_lots
                    == risk.accounts@[id].profile.initial_position_lots,
    {
        assert forall|id: AccountId| #[trigger] risk.profiles().dom().contains(id)
            <==> self.profiles().dom().contains(id) by {
            if self.registers(id) {
                let k = choose|k: int|
                    0 <= k < self.rows().len() && (#[trigger] self.rows()[k]).account_id == id;
                assert(risk.accounts@.dom().contains(self.rows()[k].account_id));
            }
            if risk.accounts@.dom().contains(id) {
                let k = choose|k: int|
                    0 <= k < self.rows().len() && (#[trigger] self.rows()[k]).account_id == id;
                assert(self.registers(id));
            }
        }
        assert forall|id: AccountId| #[trigger]
            risk.accounts@.dom().contains(id) implies risk.profiles()[id] == self.profiles()[id]
            && risk.accounts@[id].exposure.position_lots
            == risk.accounts@[id].profile.initial_position_lots by {
            let k = choose|k: int|
                0 <= k < self.rows().len() && (#[trigger] self.rows()[k]).account_id == id;
            assert(self.registers(id));
            assert(risk.accounts@[self.rows()[k].account_id].profile == self.rows()[k].profile);
        }
        assert(risk.profiles() =~= self.profiles());
    }

    /// An empty shard in which the history can be replayed.
    pub open spec fn replayed_in(
        &self,
        shard: &CallAuctionRiskManagedEngine,
        limits: CallAuctionRiskLimits,
    ) -> bool {
        &&& shard.wf()
        &&& shard.is_new(self.auction.definition)
        &&& shard.limits == limits
        &&& shard.engine.reports.reserved >= limits.auction.retained_commands
        &&& shard.engine.free_buffers() == limits.auction.book.prepared_uncrosses
    }

    /// Registers every profile in an empty shard.
    fn enroll(&self, limits: CallAuctionRiskLimits, shard: CallAuctionRiskManagedEngine) -> (r:
        Result<CallAuctionRiskManagedEngine, CallAuctionRiskCheckpointError>)
        requires
            self.config_ok(),
            self.structured(),
            self.rows().len() <= limits.max_registered_accounts,
            limits.wf(),
            self.replayed_in(&shard, limits),
        ensures
            r matches Ok(replay) && {
                &&& replay.consistent()
                &&& replay.engine.free_buffers() > 0
                &&& replay.engine.history@.len() == 0
                &&& replay.engine.book.definition == self.auction.definition
                &&& replay.limits == limits
                &&& replay.risk.profiles() == self.profiles()
            },
    {
        let mut replay = shard;
        proof {
            replay.risk.accounts.lemma_view();
        }
        let mut account: usize = 0;
        while account < self.accounts.len()
            invariant
                self.config_ok(),
                self.structured(),
                self.rows().len() <= limits.max_registered_accounts,
                limits.wf(),
                account <= self.rows().len(),
                replay.wf(),
                replay.engine.is_new(),
                replay.engine.reports.reserved >= limits.auction.retained_commands,
                replay.engine.free_buffers() == limits.auction.book.prepared_uncrosses,
                replay.engine.book.definition == self.auction.definition,
                replay.limits == limits,
                self.enrolled(&replay.risk, account as nat),
            decreases self.rows().len() - account,
        {
            let row = self.accounts[account];
            let ghost before = replay;
            proof {
                assert(self.rows()[account as int] == row);
                if replay.risk.accounts@.dom().contains(row.account_id) {
                    let k = choose|k: int|
                        0 <= k < account && (#[trigger] self.rows()[k]).account_id
                            == row.account_id;
                    assert(self.rows()[k].account_id.value
                        < self.rows()[account as int].account_id.value);
                }
            }
            match replay.register_account(row.account_id, row.profile) {
                Ok(()) => {},
                Err(error) => {
                    return Err(CallAuctionRiskCheckpointError::Risk(error));
                },
            }
            proof {
                self.lemma_enrolled_step(&before.risk, &replay.risk, account as nat);
            }
            account += 1;
        }
        proof {
            self.lemma_enrolled(&replay.risk);
            replay.law_registered_shard_is_consistent();
        }
        Ok(replay)
    }

    proof fn lemma_enrolled_step(
        &self,
        before: &CallAuctionRiskEngine,
        after: &CallAuctionRiskEngine,
        count: nat,
    )
        requires
            self.structured(),
            count < self.rows().len(),
            before.accounts.wf(),
            after.accounts.wf(),
            self.enrolled(before, count),
            !before.accounts@.dom().contains(self.rows()[count as int].account_id),
            after.accounts@.dom() == before.accounts@.dom().insert(
                self.rows()[count as int].account_id,
            ),
            after.accounts@[self.rows()[count as int].account_id].profile
                == self.rows()[count as int].profile,
            after.accounts@[self.rows()[count as int].account_id].exposure.position_lots
                == self.rows()[count as int].profile.initial_position_lots,
            forall|other: AccountId|
                other != self.rows()[count as int].account_id ==> #[trigger] after.accounts@[other]
                    == before.accounts@[other],
        ensures
            self.enrolled(after, count + 1),
    {
        let id = self.rows()[count as int].account_id;
        before.accounts.lemma_view();
        after.accounts.lemma_view();
        assert forall|k: int| 0 <= k < count + 1 implies {
            let row = #[trigger] self.rows()[k];
            &&& after.accounts@.dom().contains(row.account_id)
            &&& after.accounts@[row.account_id].profile == row.profile
            &&& after.accounts@[row.account_id].exposure.position_lots
                == row.profile.initial_position_lots
        } by {
            if k < count {
                assert(before.accounts@.dom().contains(self.rows()[k].account_id));
            }
        }
        assert forall|other: AccountId| #[trigger]
            after.accounts@.dom().contains(other) implies exists|k: int|
            0 <= k < count + 1 && (#[trigger] self.rows()[k]).account_id == other by {
            if other == id {
                assert(self.rows()[count as int].account_id == other);
            } else {
                assert(before.accounts@.dom().contains(other));
                let k = choose|k: int|
                    0 <= k < count && (#[trigger] self.rows()[k]).account_id == other;
                assert(self.rows()[k].account_id == other);
            }
        }
    }

    /// Sequences the whole history again in a shard with the captured profiles.
    fn replay_commands(&self, replay: &mut CallAuctionRiskManagedEngine) -> (r: Result<
        (),
        CallAuctionRiskCheckpointError,
    >)
        requires
            old(replay).consistent(),
            old(replay).engine.free_buffers() > 0,
            old(replay).engine.history@.len() == 0,
            old(replay).engine.book.definition == self.auction.definition,
            old(replay).risk.profiles() == self.profiles(),
        ensures
            ({
                let reproducible = CallAuctionRiskManagedEngine::reproducible(
                    self.auction.definition,
                    old(replay).limits,
                    self.profiles(),
                    self.auction.history@,
                );
                match r {
                    Ok(()) => {
                        &&& reproducible
                        &&& final(replay).consistent()
                        &&& final(replay).engine.book.definition == self.auction.definition
                        &&& final(replay).limits == old(replay).limits
                        &&& final(replay).risk.profiles() == self.profiles()
                        &&& same_histories(final(replay).engine.history@, self.auction.history@)
                    },
                    Err(error) => {
                        &&& error is Invalid
                        &&& !reproducible || error.description() == starved_text()
                        &&& CallAuctionRiskManagedEngine::history_refused(
                            self.auction.definition,
                            old(replay).limits,
                            self.profiles(),
                            self.auction.history@,
                            error.description(),
                        )
                    },
                }
            }),
    {
        let ghost history = self.auction.history@;
        let ghost definition = self.auction.definition;
        let ghost limits = replay.limits;
        let ghost profiles = self.profiles();
        let mut index: usize = 0;
        while index < self.auction.history.len()
            invariant
                history == self.auction.history@,
                definition == self.auction.definition,
                limits == old(replay).limits,
                profiles == self.profiles(),
                index <= history.len(),
                replay.consistent(),
                replay.engine.free_buffers() > 0,
                replay.engine.book.definition == definition,
                replay.limits == limits,
                replay.risk.profiles() == profiles,
                same_histories(replay.engine.history@, history.take(index as int)),
                forall|i: int|
                    0 <= i < index
                        ==> #[trigger] CallAuctionRiskManagedEngine::entry_reproducible(
                        definition,
                        limits,
                        profiles,
                        history,
                        i,
                    ),
            decreases history.len() - index,
        {
            let entry = &self.auction.history[index];
            let ghost before = *replay;
            proof {
                if CallAuctionRiskManagedEngine::reproducible(
                    definition,
                    limits,
                    profiles,
                    history,
                ) {
                    assert(CallAuctionRiskManagedEngine::entry_reproducible(
                        definition,
                        limits,
                        profiles,
                        history,
                        index as int,
                    ));
                    replay.lemma_replay_succeeds(history, index as int);
                }
            }
            let reproduced = match replay.submit(entry.command) {
                Ok(report) => report,
                Err(error) => {
                    proof {
                        assert(before.refuses_at(
                            definition,
                            limits,
                            profiles,
                            history,
                            index as int,
                            replay_text(error),
                        ));
                    }
                    return Err(CallAuctionRiskCheckpointError::about_replay(error));
                },
            };
            if reproduced.replayed || !reproduced.matches(&entry.report) {
                proof {
                    assert(before.refuses_at(
                        definition,
                        limits,
                        profiles,
                        history,
                        index as int,
                        "auction risk checkpoint history diverges under coupled replay"@,
                    ));
                }
                return Err(
                    CallAuctionRiskCheckpointError::new(
                        "auction risk checkpoint history diverges under coupled replay",
                    ),
                );
            }
            proof {
                before.lemma_entry_replayed(replay, history, index as int, reproduced);
            }
            index += 1;
        }
        proof {
            assert(history.take(index as int) =~= history);
        }
        Ok(())
    }

    /// A ledger that holds exactly the rows lists them.
    proof fn lemma_held_rows(&self, risk: &CallAuctionRiskEngine)
        requires
            self.structured(),
            risk.accounts.wf(),
            self.held_by(risk),
        ensures
            ledger_rows(risk) == self.rows(),
    {
        let entries = risk.accounts.entries@;
        let rows = self.rows();
        risk.accounts.lemma_view();
        let ids = rows.map_values(|row: RiskAccountCheckpoint| row.account_id);
        self.lemma_row_position(risk, rows.len() as int);
        if entries.len() > rows.len() {
            let id = entries[rows.len() as int].0;
            assert(risk.accounts@.dom().contains(id));
            let k = choose|k: int| 0 <= k < rows.len() && (#[trigger] rows[k]).account_id == id;
            assert(entries[k].0 == rows[k].account_id);
            assert(entries[k].0.rank() < entries[rows.len() as int].0.rank());
        }
        assert forall|k: int| 0 <= k < rows.len() implies ledger_rows(risk)[k] == rows[k] by {
            assert(self.row_held(risk, rows[k]));
            assert(entries[k].0 == rows[k].account_id);
        }
        assert(ledger_rows(risk) =~= rows);
    }

    /// The first rows and the first ledger entries name the same accounts.
    proof fn lemma_row_position(&self, risk: &CallAuctionRiskEngine, count: int)
        requires
            self.structured(),
            risk.accounts.wf(),
            self.held_by(risk),
            0 <= count <= self.rows().len(),
        ensures
            count <= risk.accounts.entries@.len(),
            forall|k: int|
                0 <= k < count ==> (#[trigger] risk.accounts.entries@[k]).0
                    == self.rows()[k].account_id,
        decreases count,
    {
        if count > 0 {
            let entries = risk.accounts.entries@;
            let rows = self.rows();
            let last = count - 1;
            self.lemma_row_position(risk, last);
            risk.accounts.lemma_view();
            assert(self.row_held(risk, rows[last]));
            let e = choose|e: int|
                0 <= e < entries.len() && (#[trigger] entries[e]).0 == rows[last].account_id;
            if e < last {
                assert(entries[e].0 == rows[e].account_id);
                assert(rows[e].account_id.value < rows[last].account_id.value);
            }
            assert(risk.accounts@.dom().contains(entries[last].0));
            let k = choose|k: int|
                0 <= k < rows.len() && (#[trigger] rows[k]).account_id == entries[last].0;
            if k < last {
                assert(entries[k].0 == rows[k].account_id);
                assert(entries[k].0.rank() < entries[last].0.rank());
            } else if k > last {
                assert(rows[last].account_id.value < rows[k].account_id.value);
                if e > last {
                    assert(entries[last].0.rank() < entries[e].0.rank());
                }
            }
        }
    }

    /// A ledger that holds exactly the rows has their profiles.
    proof fn lemma_held_profiles(&self, risk: &CallAuctionRiskEngine)
        requires
            self.held_by(risk),
        ensures
            risk.profiles() == self.profiles(),
    {
        assert forall|id: AccountId| #[trigger] risk.profiles().dom().contains(id)
            <==> self.profiles().dom().contains(id) by {
            if self.registers(id) {
                let k = choose|k: int|
                    0 <= k < self.rows().len() && (#[trigger] self.rows()[k]).account_id == id;
                assert(self.row_held(risk, self.rows()[k]));
            }
        }
        assert forall|id: AccountId| #[trigger]
            risk.profiles().dom().contains(id) implies risk.profiles()[id]
            == self.profiles()[id] by {
            assert(self.registers(id));
            let k = choose|k: int|
                0 <= k < self.rows().len() && (#[trigger] self.rows()[k]).account_id == id;
            assert(self.row_held(risk, self.rows()[k]));
        }
        assert(risk.profiles() =~= self.profiles());
    }

    /// Direct and replayed state agree with the checkpoint, the positions of the
    /// rows aside.
    proof fn lemma_replays_agree(
        &self,
        direct: &CallAuctionRiskManagedEngine,
        replay: &CallAuctionRiskManagedEngine,
        limits: CallAuctionRiskLimits,
        instance_id: u64,
    )
        requires
            self.structured(),
            self.restorable(limits),
            self.restored_as(direct, limits, instance_id),
            replay.consistent(),
            replay.engine.book.definition == self.auction.definition,
            replay.limits == limits,
            replay.risk.profiles() == self.profiles(),
            same_histories(replay.engine.history@, self.auction.history@),
        ensures
            direct.engine.consistent(),
            direct.engine.captured_by(&self.auction),
            replay.engine.phase_state() == self.auction.phase,
            replay.engine.book.state_revision == self.auction.book_revision,
            replay.engine.book.next_priority_sequence == self.auction.next_priority_sequence,
            replay.engine.book.next_trade_id == self.auction.next_trade_id,
            replay.engine.book.accepted_list() == self.auction.accepted_order_ids@,
            replay.engine.book.active_list() == self.auction.active_orders@,
            same_histories(self.auction.history@, replay.engine.history@),
            boundary_ok(
                self.auction.wal_metadata_sequence,
                self.auction.wal_sequence,
                replay.engine.history@.len(),
            ),
            ledger_rows(&direct.risk) == self.rows(),
            replay.risk.accounts.entries@.len() == self.rows().len(),
            self.positions_ok() <==> ledger_rows(&replay.risk) == self.rows(),
    {
        direct.engine.law_restored_engine_is_consistent(&self.auction);
        replay.engine.law_past_determines_state(&direct.engine);
        replay.engine.lemma_same_lists(&direct.engine);
        assert forall|i: int| 0 <= i < self.auction.history@.len() implies (
        #[trigger] self.auction.history@[i]).same(&replay.engine.history@[i]) by {
            assert(replay.engine.history@[i].same(&self.auction.history@[i]));
        }
        self.lemma_held_rows(&direct.risk);
        self.lemma_held_profiles(&direct.risk);
        replay.risk.accounts.lemma_view();
        direct.risk.accounts.lemma_view();
        assert(replay.risk.accounts@.dom() =~= replay.risk.profiles().dom());
        assert(direct.risk.accounts@.dom() =~= direct.risk.profiles().dom());
        assert(ledger_rows(&direct.risk).len() == direct.risk.accounts.entries@.len());
        if self.positions_ok() {
            assert forall|id: AccountId| #[trigger]
                direct.risk.accounts@.dom().contains(id) implies {
                let account = direct.risk.accounts@[id];
                account.exposure.position_lots == account.profile.initial_position_lots
                    + net_executed(direct.engine.history@, direct.engine.history@.len(), id)
            } by {
                assert(self.registers(id));
                let k = choose|k: int|
                    0 <= k < self.rows().len() && (#[trigger] self.rows()[k]).account_id == id;
                assert(self.row_held(&direct.risk, self.rows()[k]));
            }
            assert(direct.consistent());
            replay.law_past_determines_ledger(direct);
            let left = replay.risk.accounts.entries@;
            let right = direct.risk.accounts.entries@;
            replay.risk.accounts.lemma_view();
            direct.risk.accounts.lemma_view();
            lemma_same_keys(&replay.risk.accounts, &direct.risk.accounts, left.len() as int);
            assert forall|k: int| 0 <= k < left.len() implies ledger_rows(&replay.risk)[k]
                == ledger_rows(&direct.risk)[k] by {
                assert(left[k].0 == right[k].0);
                assert(replay.risk.accounts@.dom().contains(left[k].0));
            }
            assert(ledger_rows(&replay.risk) =~= ledger_rows(&direct.risk));
        }
        if ledger_rows(&replay.risk) == self.rows() {
            replay.risk.accounts.lemma_view();
            assert forall|k: int| 0 <= k < self.rows().len() implies {
                let row = #[trigger] self.rows()[k];
                row.exposure.position_lots == row.profile.initial_position_lots + net_executed(
                    self.auction.history@,
                    self.auction.history@.len(),
                    row.account_id,
                )
            } by {
                let entry = replay.risk.accounts.entries@[k];
                assert(ledger_rows(&replay.risk)[k] == self.rows()[k]);
                assert(replay.risk.accounts@.dom().contains(entry.0));
                lemma_same_net(
                    replay.engine.history@,
                    self.auction.history@,
                    self.auction.history@.len(),
                    entry.0,
                );
            }
        }
    }

    /// Restores, replays and compares.
    fn verify_replay_with_limits(
        &self,
        limits: CallAuctionRiskLimits,
        restore_instance_id: u64,
        replay_instance_id: u64,
    ) -> (r: Result<(), CallAuctionRiskCheckpointError>)
        requires
            self.config_ok(),
            limits.wf(),
        ensures
            r matches Err(CallAuctionRiskCheckpointError::Auction(cause)) ==> cause.worded(),
            self.unverified_early(limits) ==> (r matches Err(error) && self.unverified_error(
                limits,
                error,
            )),
            match r {
                Ok(()) => self.verifiable(limits),
                Err(error) => self.verify_fails(
                    error,
                    limits,
                    restore_instance_id,
                    replay_instance_id,
                ),
            },
    {
        match self.validate_structure() {
            Ok(()) => {},
            Err(error) => {
                return Err(error);
            },
        }
        let direct = match self.restore_direct_with_limits(limits, restore_instance_id) {
            Ok(direct) => direct,
            Err(error) => {
                return Err(error);
            },
        };
        let replay = CallAuctionRiskManagedEngine::try_with_limits(
            self.auction.definition,
            limits,
            replay_instance_id,
        );
        self.replayed_against(limits, direct, replay)
    }

    /// Replays the history in a fresh shard and compares what it leads to with the
    /// checkpoint and with the shard that was restored from it.
    ///
    /// Where the fresh shard could not be constructed, its error is returned.
    /// Otherwise success is owed to every reproducible checkpoint, unless storage
    /// for a report or for rows is refused.
    pub fn replayed_against(
        &self,
        limits: CallAuctionRiskLimits,
        direct: CallAuctionRiskManagedEngine,
        replay: Result<CallAuctionRiskManagedEngine, CallAuctionRiskConstructionError>,
    ) -> (r: Result<(), CallAuctionRiskCheckpointError>)
        requires
            self.config_ok(),
            limits.wf(),
            self.structured(),
            self.restorable(limits),
            self.restored_as(&direct, limits, direct.engine.instance_id),
            replay matches Ok(shard) ==> self.replayed_in(&shard, limits),
        ensures
            match replay {
                Err(cause) => r == Err::<(), _>(
                    CallAuctionRiskCheckpointError::Construction(cause),
                ),
                Ok(_) => match r {
                    Ok(()) => self.reproducible(limits),
                    Err(error) => self.replay_differs(error, limits),
                },
            },
    {
        let shard = match replay {
            Ok(shard) => shard,
            Err(error) => {
                return Err(CallAuctionRiskCheckpointError::Construction(error));
            },
        };
        let mut replay = match self.enroll(limits, shard) {
            Ok(replay) => replay,
            Err(error) => {
                return Err(error);
            },
        };
        match self.replay_commands(&mut replay) {
            Ok(()) => {},
            Err(error) => {
                return Err(error);
            },
        }
        proof {
            self.lemma_replays_agree(&direct, &replay, limits, direct.engine.instance_id);
        }
        let replayed_auction = match replay.engine.checkpoint_state(
            self.auction.wal_metadata_sequence(),
            self.auction.generation(),
        ) {
            Ok(auction) => auction,
            Err(error) => {
                return Err(CallAuctionRiskCheckpointError::Auction(error));
            },
        };
        let replayed_accounts = match checkpoint_accounts(&replay.risk) {
            Ok(rows) => rows,
            Err(error) => {
                return Err(error);
            },
        };
        let direct_auction = match direct.engine.checkpoint_state(
            self.auction.wal_metadata_sequence(),
            self.auction.generation(),
        ) {
            Ok(auction) => auction,
            Err(error) => {
                return Err(CallAuctionRiskCheckpointError::Auction(error));
            },
        };
        let direct_accounts = match checkpoint_accounts(&direct.risk) {
            Ok(rows) => rows,
            Err(error) => {
                return Err(error);
            },
        };
        if !same_checkpoint(&replayed_auction, &self.auction) || !same_checkpoint(
            &direct_auction,
            &self.auction,
        ) || !same_rows(replayed_accounts.as_slice(), self.accounts.as_slice()) || !same_rows(
            direct_accounts.as_slice(),
            self.accounts.as_slice(),
        ) {
            return Err(
                CallAuctionRiskCheckpointError::new(
                    "auction risk checkpoint direct state differs from coupled history replay",
                ),
            );
        }
        Ok(())
    }
}

/// Compares two lists of rows.
fn same_rows(left: &[RiskAccountCheckpoint], right: &[RiskAccountCheckpoint]) -> (r: bool)
    ensures
        r == (left@ == right@),
{
    if left.len() != right.len() {
        return false;
    }
    let mut index: usize = 0;
    while index < left.len()
        invariant
            left@.len() == right@.len(),
            index <= left@.len(),
            forall|k: int| 0 <= k < index ==> left@[k] == right@[k],
        decreases left@.len() - index,
    {
        if left[index] != right[index] {
            return false;
        }
        index += 1;
    }
    assert(left@ =~= right@);
    true
}

impl CallAuctionRiskManagedEngine {
    /// A checkpoint holds the live coupled state.
    pub open spec fn captured_by(&self, checkpoint: &CallAuctionRiskCheckpoint) -> bool {
        self.engine.captured_by(&checkpoint.auction) && checkpoint.rows() == ledger_rows(&self.risk)
    }

    /// What this shard, which retains the pairs before it, says when it refuses to
    /// reproduce one pair: a repeated identity, then what keeps its command from
    /// being sequenced, then another report. Storage for the report may be refused
    /// before that.
    pub open spec fn refuses_entry(
        &self,
        entry: CallAuctionCommandReportCheckpoint,
        text: Seq<char>,
    ) -> bool {
        let command = entry.command;
        let diverges = "auction risk checkpoint history diverges under coupled replay"@;
        if self.engine.retains(command.key()) {
            if self.engine.retained(command.key()).command == command {
                text == diverges
            } else {
                text == replay_text(CallAuctionEngineError::CommandIdCollision(command.key()))
            }
        } else if let Some(cause) = self.engine.prepare_fault(command) {
            text == replay_text(cause)
        } else {
            text == starved_text() || text == diverges
        }
    }

    /// This shard retains the reproducible pairs before one pair of a history and
    /// refuses that pair.
    pub open spec fn refuses_at(
        &self,
        definition: InstrumentDefinition,
        limits: CallAuctionRiskLimits,
        profiles: Map<AccountId, RiskProfile>,
        history: Seq<CallAuctionCommandReportCheckpoint>,
        index: int,
        text: Seq<char>,
    ) -> bool {
        &&& 0 <= index < history.len()
        &&& self.consistent()
        &&& self.engine.book.definition == definition
        &&& self.limits == limits
        &&& self.risk.profiles() == profiles
        &&& same_histories(self.engine.history@, history.take(index))
        &&& forall|i: int|
            0 <= i < index ==> #[trigger] Self::entry_reproducible(
                definition,
                limits,
                profiles,
                history,
                i,
            )
        &&& self.refuses_entry(history[index], text)
    }

    /// What is said of a history that is not reproduced against these profiles: the
    /// text of its first refused pair. The pairs before it determine the shard that
    /// refuses it.
    pub open spec fn history_refused(
        definition: InstrumentDefinition,
        limits: CallAuctionRiskLimits,
        profiles: Map<AccountId, RiskProfile>,
        history: Seq<CallAuctionCommandReportCheckpoint>,
        text: Seq<char>,
    ) -> bool {
        exists|shard: CallAuctionRiskManagedEngine, index: int| #[trigger]
            shard.refuses_at(definition, limits, profiles, history, index, text)
    }

    /// The first reason why a capture cannot start at a log sequence.
    pub open spec fn boundary_fault(
        &self,
        wal_first_sequence: u64,
        wal_metadata_sequence: u64,
    ) -> Option<Seq<char>> {
        let count = self.risk.accounts.entries@.len();
        if wal_first_sequence == 0 {
            Some("auction risk checkpoint WAL first sequence is zero"@)
        } else if wal_first_sequence + count > u64::MAX {
            Some("auction risk checkpoint metadata boundary overflows"@)
        } else if wal_metadata_sequence != wal_first_sequence + count {
            Some("auction risk checkpoint auction boundary does not follow profile metadata"@)
        } else {
            None
        }
    }

    /// A checkpoint holds the live coupled state at a log boundary.
    pub open spec fn captured_at(
        &self,
        checkpoint: &CallAuctionRiskCheckpoint,
        wal_first_sequence: u64,
        wal_metadata_sequence: u64,
        wal_sequence: u64,
    ) -> bool {
        &&& self.captured_by(checkpoint)
        &&& checkpoint.wal_first_sequence == wal_first_sequence
        &&& checkpoint.auction.wal_metadata_sequence == wal_metadata_sequence
        &&& checkpoint.auction.wal_sequence == wal_sequence
        &&& checkpoint.config_ok()
        &&& checkpoint.structured()
    }

    /// A capture is refused before it asks for storage: the live state fails its
    /// audit, or the auction state cannot be captured at the boundary.
    pub open spec fn uncaptured_early(&self, wal_metadata_sequence: u64, wal_sequence: u64) -> bool {
        !self.audited() || self.engine.capture_fault(wal_metadata_sequence, wal_sequence) is Some
    }

    /// The error of a capture that is refused before it asks for storage.
    pub open spec fn uncaptured_error(
        &self,
        wal_metadata_sequence: u64,
        wal_sequence: u64,
        error: CallAuctionRiskCheckpointError,
    ) -> bool {
        if !self.audited() {
            error matches CallAuctionRiskCheckpointError::Invalid(detail) && self.audit_fault()
                == Some(detail@)
        } else {
            self.engine.capture_fault(wal_metadata_sequence, wal_sequence) matches Some(text) && (
            error matches CallAuctionRiskCheckpointError::Auction(cause) && cause.contradicts(text))
        }
    }

    /// What a failed capture says: why it is refused at once, then that rows cannot
    /// be copied, then why it cannot start at the log sequence, then why it does
    /// not restore.
    pub open spec fn capture_fails(
        &self,
        wal_first_sequence: u64,
        wal_metadata_sequence: u64,
        wal_sequence: u64,
        restore_instance_id: u64,
        error: CallAuctionRiskCheckpointError,
    ) -> bool {
        if self.uncaptured_early(wal_metadata_sequence, wal_sequence) {
            self.uncaptured_error(wal_metadata_sequence, wal_sequence, error)
        } else {
            ||| error == rows_unreserved(self.risk.accounts.entries@.len())
            ||| match self.boundary_fault(wal_first_sequence, wal_metadata_sequence) {
                Some(text) => error matches CallAuctionRiskCheckpointError::Invalid(detail)
                    && detail@ == text,
                None => exists|checkpoint: CallAuctionRiskCheckpoint| #[trigger]
                    self.captured_at(
                        &checkpoint,
                        wal_first_sequence,
                        wal_metadata_sequence,
                        wal_sequence,
                    ) && checkpoint.restore_fails(error, self.limits, restore_instance_id),
            }
        }
    }

    /// Whether a capture at a log boundary is owed.
    pub open spec fn owes_capture(
        &self,
        wal_first_sequence: u64,
        wal_metadata_sequence: u64,
        wal_sequence: u64,
    ) -> bool {
        &&& self.consistent()
        &&& self.replayable()
        &&& wal_first_sequence != 0
        &&& wal_metadata_sequence == wal_first_sequence + self.risk.accounts.entries@.len()
        &&& boundary_ok(wal_metadata_sequence, wal_sequence, self.engine.history@.len())
    }

    /// Captures immutable coupled state without executing retained history.
    ///
    /// The live state must pass its audit, be what its history adds up to, and
    /// end at the boundary; and the capture must restore under the live limits,
    /// which is tried before the capture is handed out. A capture that is owed
    /// fails only for want of storage or identities.
    pub fn capture_checkpoint_candidate(
        &self,
        wal_first_sequence: u64,
        wal_metadata_sequence: u64,
        wal_sequence: u64,
        restore_instance_id: u64,
    ) -> (r: Result<CallAuctionRiskCheckpointCapture, CallAuctionRiskCheckpointError>)
        requires
            self.wf(),
            forall|id: AccountId| #[trigger]
                self.risk.accounts@.dom().contains(id) ==> self.risk.accounts@[id].profile.wf(),
        ensures
            r matches Err(CallAuctionRiskCheckpointError::Auction(cause)) ==> cause.worded(),
            self.uncaptured_early(wal_metadata_sequence, wal_sequence) ==> (r matches Err(error)
                && self.uncaptured_error(wal_metadata_sequence, wal_sequence, error)),
            self.boundary_fault(wal_first_sequence, wal_metadata_sequence) is Some ==> r is Err,
            match r {
                Ok(capture) => {
                    let checkpoint = capture.checkpoint;
                    &&& self.audited()
                    &&& self.engine.projection_ok()
                    &&& boundary_ok(
                        wal_metadata_sequence,
                        wal_sequence,
                        self.engine.history@.len(),
                    )
                    &&& capture.limits == self.limits
                    &&& checkpoint.restorable(self.limits)
                    &&& self.captured_at(
                        &checkpoint,
                        wal_first_sequence,
                        wal_metadata_sequence,
                        wal_sequence,
                    )
                },
                Err(error) => self.capture_fails(
                    wal_first_sequence,
                    wal_metadata_sequence,
                    wal_sequence,
                    restore_instance_id,
                    error,
                ),
            },
            self.owes_capture(wal_first_sequence, wal_metadata_sequence, wal_sequence) ==> (
            r matches Err(error) ==> error.operational()),
    {
        if let Err(error) = self.validate() {
            return Err(CallAuctionRiskCheckpointError::new(error.detail()));
        }
        let auction = match self.engine.checkpoint_state(wal_metadata_sequence, wal_sequence) {
            Ok(auction) => auction,
            Err(error) => {
                return Err(CallAuctionRiskCheckpointError::Auction(error));
            },
        };
        let accounts = checkpoint_accounts(&self.risk);
        let checkpoint = match self.captured_checkpoint(wal_first_sequence, auction, accounts) {
            Ok(checkpoint) => checkpoint,
            Err(error) => {
                return Err(error);
            },
        };
        proof {
            assert(self.captured_at(
                &checkpoint,
                wal_first_sequence,
                wal_metadata_sequence,
                wal_sequence,
            ));
            if self.consistent() && self.replayable() {
                self.law_capture_is_verifiable(&checkpoint);
            }
        }
        match checkpoint.restore_direct_with_limits(self.limits, restore_instance_id) {
            Ok(_) => {},
            Err(error) => {
                return Err(error);
            },
        }
        Ok(CallAuctionRiskCheckpointCapture { checkpoint, limits: self.limits })
    }

    /// Joins captured auction state and copied account rows.
    ///
    /// Where the rows could not be copied, that error is returned. Otherwise success
    /// is owed exactly where the profiles follow the first log sequence.
    pub fn captured_checkpoint(
        &self,
        wal_first_sequence: u64,
        auction: CallAuctionCheckpoint,
        accounts: Result<Vec<RiskAccountCheckpoint>, CallAuctionRiskCheckpointError>,
    ) -> (r: Result<CallAuctionRiskCheckpoint, CallAuctionRiskCheckpointError>)
        requires
            self.wf(),
            forall|id: AccountId| #[trigger]
                self.risk.accounts@.dom().contains(id) ==> self.risk.accounts@[id].profile.wf(),
            self.engine.captured_by(&auction),
            accounts matches Ok(rows) ==> rows@ == ledger_rows(&self.risk),
        ensures
            match accounts {
                Err(error) => r == Err::<CallAuctionRiskCheckpoint, _>(error),
                Ok(_) => match self.boundary_fault(
                    wal_first_sequence,
                    auction.wal_metadata_sequence,
                ) {
                    Some(text) => r matches Err(CallAuctionRiskCheckpointError::Invalid(detail))
                        && detail@ == text,
                    None => r matches Ok(checkpoint) && *checkpoint.auction == auction
                        && self.captured_at(
                        &checkpoint,
                        wal_first_sequence,
                        auction.wal_metadata_sequence,
                        auction.wal_sequence,
                    ),
                },
            },
    {
        let accounts = match accounts {
            Ok(accounts) => accounts,
            Err(error) => {
                return Err(error);
            },
        };
        proof {
            self.risk.accounts.lemma_view();
            let rows = ledger_rows(&self.risk);
            assert forall|i: int, j: int| 0 <= i < j < rows.len() implies (
            #[trigger] rows[i]).account_id.value < (#[trigger] rows[j]).account_id.value by {
                assert(self.risk.accounts.entries@[i].0.rank()
                    < self.risk.accounts.entries@[j].0.rank());
            }
            assert forall|k: int| 0 <= k < rows.len() implies (
            #[trigger] rows[k]).profile.wf() by {
                assert(self.risk.accounts@.dom().contains(self.risk.accounts.entries@[k].0));
            }
        }
        CallAuctionRiskCheckpoint::from_captured_parts(wal_first_sequence, auction, accounts)
    }

    /// Captures a coupled checkpoint and proves its deterministic replay.
    ///
    /// Success is owed to every shard that is consistent with its own past and
    /// ends at the boundary, unless storage or identities run out.
    pub fn checkpoint(
        &self,
        wal_first_sequence: u64,
        wal_metadata_sequence: u64,
        wal_sequence: u64,
        restore_instance_id: u64,
        replay_instance_id: u64,
    ) -> (r: Result<CallAuctionRiskCheckpoint, CallAuctionRiskCheckpointError>)
        requires
            self.wf(),
            forall|id: AccountId| #[trigger]
                self.risk.accounts@.dom().contains(id) ==> self.risk.accounts@[id].profile.wf(),
        ensures
            r matches Err(CallAuctionRiskCheckpointError::Auction(cause)) ==> cause.worded(),
            self.uncaptured_early(wal_metadata_sequence, wal_sequence) ==> (r matches Err(error)
                && self.uncaptured_error(wal_metadata_sequence, wal_sequence, error)),
            r matches Err(error) ==> {
                ||| self.capture_fails(
                    wal_first_sequence,
                    wal_metadata_sequence,
                    wal_sequence,
                    restore_instance_id,
                    error,
                )
                ||| exists|checkpoint: CallAuctionRiskCheckpoint| #[trigger]
                    self.captured_at(
                        &checkpoint,
                        wal_first_sequence,
                        wal_metadata_sequence,
                        wal_sequence,
                    ) && checkpoint.verify_fails(
                        error,
                        self.limits,
                        restore_instance_id,
                        replay_instance_id,
                    )
            },
            ({
                let owed = self.owes_capture(
                    wal_first_sequence,
                    wal_metadata_sequence,
                    wal_sequence,
                );
                match r {
                    Ok(checkpoint) => {
                        &&& owed
                        &&& checkpoint.wal_first_sequence == wal_first_sequence
                        &&& checkpoint.auction.wal_metadata_sequence == wal_metadata_sequence
                        &&& checkpoint.auction.wal_sequence == wal_sequence
                        &&& checkpoint.verifiable(self.limits)
                        &&& self.captured_by(&checkpoint)
                    },
                    Err(CallAuctionRiskCheckpointError::Invalid(detail)) => !owed || detail@
                        == starved_text(),
                    Err(error) => !owed || error.operational(),
                }
            }),
    {
        match self.capture_checkpoint_candidate(
            wal_first_sequence,
            wal_metadata_sequence,
            wal_sequence,
            restore_instance_id,
        ) {
            Ok(capture) => {
                proof {
                    if self.consistent() && self.replayable() {
                        self.law_capture_is_verifiable(&capture.checkpoint);
                    }
                    if capture.checkpoint.verifiable(self.limits) {
                        self.law_verified_capture_is_consistent(&capture.checkpoint);
                    }
                }
                capture.verify(restore_instance_id, replay_instance_id)
            },
            Err(error) => Err(error),
        }
    }

    /// Restores directly indexed coupled state under default finite limits.
    pub fn from_checkpoint(checkpoint: &CallAuctionRiskCheckpoint, instance_id: u64) -> (r: Result<
        Self,
        CallAuctionRiskCheckpointError,
    >)
        requires
            checkpoint.config_ok(),
        ensures
            r matches Err(CallAuctionRiskCheckpointError::Auction(cause)) ==> cause.worded(),
            checkpoint.refused_early(CallAuctionRiskLimits::standard()) ==> (r matches Err(error)
                && checkpoint.early_error(CallAuctionRiskLimits::standard(), error)),
            match r {
                Ok(managed) => checkpoint.restorable(CallAuctionRiskLimits::standard())
                    && checkpoint.restored_as(
                    &managed,
                    CallAuctionRiskLimits::standard(),
                    instance_id,
                ),
                Err(error) => checkpoint.restore_fails(
                    error,
                    CallAuctionRiskLimits::standard(),
                    instance_id,
                ),
            },
    {
        let limits = CallAuctionRiskLimits::default();
        Self::from_checkpoint_with_limits(checkpoint, limits, instance_id)
    }

    /// Restores directly indexed coupled state under explicit current limits.
    ///
    /// Success is owed for every consistent checkpoint that the limits allow,
    /// unless an empty shard cannot be constructed.
    pub fn from_checkpoint_with_limits(
        checkpoint: &CallAuctionRiskCheckpoint,
        limits: CallAuctionRiskLimits,
        instance_id: u64,
    ) -> (r: Result<Self, CallAuctionRiskCheckpointError>)
        requires
            checkpoint.config_ok(),
            limits.wf(),
        ensures
            r matches Err(CallAuctionRiskCheckpointError::Auction(cause)) ==> cause.worded(),
            checkpoint.refused_early(limits) ==> (r matches Err(error) && checkpoint.early_error(
                limits,
                error,
            )),
            match r {
                Ok(managed) => checkpoint.restorable(limits) && checkpoint.restored_as(
                    &managed,
                    limits,
                    instance_id,
                ),
                Err(error) => checkpoint.restore_fails(error, limits, instance_id),
            },
    {
        checkpoint.restore_direct_with_limits(limits, instance_id)
    }
}

/// Admission commands among the first `count` retained ones.
pub open spec fn admissions_in(
    history: Seq<CallAuctionCommandReportCheckpoint>,
    count: nat,
) -> int
    decreases count,
{
    if count == 0 {
        0
    } else {
        admissions_in(history, (count - 1) as nat) + if history[count - 1].command is Submit
            || history[count - 1].command is Replace {
            1int
        } else {
            0
        }
    }
}

fn larger(left: usize, right: usize) -> (r: usize)
    ensures
        r == (if left >= right {
            left
        } else {
            right
        }),
{
    if left >= right {
        left
    } else {
        right
    }
}

impl CallAuctionRiskCheckpoint {
    /// Most orders that replaying the history can hold at once.
    pub open spec fn order_bound(&self) -> int {
        let accepted = self.auction.accepted_order_ids@.len() as int;
        let active = self.auction.active_orders@.len() as int;
        let submitted = admissions_in(self.auction.history@, self.auction.history@.len());
        let most = if accepted >= active {
            accepted
        } else {
            active
        };
        let bound = if most >= submitted {
            most
        } else {
            submitted
        };
        if bound >= 1 {
            bound
        } else {
            1
        }
    }

    /// The first bound derived from the content that is not representable.
    pub open spec fn bounds_fault(&self) -> Option<Seq<char>> {
        if self.order_bound() + 2 > usize::MAX {
            Some("auction risk checkpoint terminal command bound overflows"@)
        } else if self.auction.history@.len() + self.order_bound() + 3 > usize::MAX {
            Some("auction risk checkpoint history capacity overflows"@)
        } else if self.order_bound() * 2 + 1 > usize::MAX {
            Some("auction risk checkpoint event capacity overflows"@)
        } else {
            None
        }
    }

    /// The bounds derived from the content are representable.
    pub open spec fn bounds_derivable(&self) -> bool {
        self.bounds_fault() is None
    }

    /// The smallest limits under which the content can be verified.
    pub open spec fn validation_limits(&self) -> CallAuctionRiskLimits {
        let bound = self.order_bound();
        CallAuctionRiskLimits {
            auction: CallAuctionEngineLimits {
                book: CallAuctionBookLimits {
                    active_orders: bound as usize,
                    price_levels_per_side: bound as usize,
                    accepted_order_ids: bound as usize,
                    prepared_uncrosses: CallAuctionBookLimits::DEFAULT_MAX_PREPARED_UNCROSSES,
                },
                retained_commands: (self.auction.history@.len() + bound + 3) as usize,
                terminal_command_reserve: (bound + 2) as usize,
                report_events: (bound * 2 + 1) as usize,
            },
            max_registered_accounts: if self.rows().len() >= 1 {
                self.rows().len() as usize
            } else {
                1
            },
        }
    }

    /// Derives the smallest limits under which the content can be verified.
    fn checkpoint_validation_limits(&self) -> (r: Result<
        CallAuctionRiskLimits,
        CallAuctionRiskCheckpointError,
    >)
        ensures
            match r {
                Ok(limits) => {
                    &&& self.bounds_derivable()
                    &&& limits.wf()
                    &&& limits == self.validation_limits()
                },
                Err(error) => error is Invalid && self.bounds_fault() == Some(
                    error.description(),
                ),
            },
    {
        let ghost history = self.auction.history@;
        let mut submitted: usize = 0;
        let mut index: usize = 0;
        while index < self.auction.history.len()
            invariant
                history == self.auction.history@,
                index <= history.len(),
                submitted <= index,
                submitted == admissions_in(history, index as nat),
            decreases history.len() - index,
        {
            let admits: bool = match self.auction.history[index].command {
                CallAuctionCommand::Submit(_) => true,
                CallAuctionCommand::Replace(_) => true,
                _ => false,
            };
            if admits {
                submitted = submitted + 1;
            }
            index += 1;
        }
        let order_bound: usize = larger(
            larger(
                larger(self.auction.accepted_order_ids.len(), self.auction.active_orders.len()),
                submitted,
            ),
            1,
        );
        let terminal_command_reserve: usize = match order_bound.checked_add(2) {
            Some(value) => value,
            None => {
                return Err(
                    CallAuctionRiskCheckpointError::new(
                        "auction risk checkpoint terminal command bound overflows",
                    ),
                );
            },
        };
        let count: usize = self.auction.history.len();
        let max_retained_commands: usize = match count.checked_add(terminal_command_reserve) {
            Some(value) if value < usize::MAX => value + 1,
            _ => {
                return Err(
                    CallAuctionRiskCheckpointError::new(
                        "auction risk checkpoint history capacity overflows",
                    ),
                );
            },
        };
        let max_report_events: usize = match order_bound.checked_mul(2) {
            Some(value) if value < usize::MAX => value + 1,
            _ => {
                return Err(
                    CallAuctionRiskCheckpointError::new(
                        "auction risk checkpoint event capacity overflows",
                    ),
                );
            },
        };
        Ok(
            CallAuctionRiskLimits {
                auction: CallAuctionEngineLimits {
                    book: CallAuctionBookLimits {
                        active_orders: order_bound,
                        price_levels_per_side: order_bound,
                        accepted_order_ids: order_bound,
                        prepared_uncrosses: CallAuctionBookLimits::DEFAULT_MAX_PREPARED_UNCROSSES,
                    },
                    retained_commands: max_retained_commands,
                    terminal_command_reserve,
                    report_events: max_report_events,
                },
                max_registered_accounts: larger(self.accounts.len(), 1),
            },
        )
    }

    /// Assembles a checkpoint from decoded parts and proves its replay under
    /// limits derived from its content.
    pub fn from_parts(
        wal_first_sequence: u64,
        auction: CallAuctionCheckpoint,
        accounts: Vec<RiskAccountCheckpoint>,
        restore_instance_id: u64,
        replay_instance_id: u64,
    ) -> (r: Result<Self, CallAuctionRiskCheckpointError>)
        requires
            auction.definition.wf(),
            forall|k: int| 0 <= k < accounts@.len() ==> (#[trigger] accounts@[k]).profile.wf(),
        ensures
            r matches Err(CallAuctionRiskCheckpointError::Auction(cause)) ==> cause.worded(),
            ({
                let checkpoint = CallAuctionRiskCheckpoint {
                    wal_first_sequence,
                    auction: Arc::new(auction),
                    accounts: Arc::new(accounts),
                };
                let limits = checkpoint.validation_limits();
                checkpoint.bounds_derivable() && checkpoint.unverified_early(limits) ==> (
                r matches Err(error) && checkpoint.unverified_error(limits, error))
            }),
            match r {
                Ok(checkpoint) => {
                    &&& checkpoint == (CallAuctionRiskCheckpoint {
                        wal_first_sequence,
                        auction: Arc::new(auction),
                        accounts: Arc::new(accounts),
                    })
                    &&& checkpoint.bounds_derivable()
                    &&& checkpoint.verifiable(checkpoint.validation_limits())
                },
                Err(error) => {
                    let checkpoint = CallAuctionRiskCheckpoint {
                        wal_first_sequence,
                        auction: Arc::new(auction),
                        accounts: Arc::new(accounts),
                    };
                    if !checkpoint.structured() {
                        error is Invalid && checkpoint.structure_fault() == Some(
                            error.description(),
                        )
                    } else if !checkpoint.bounds_derivable() {
                        error is Invalid && checkpoint.bounds_fault() == Some(error.description())
                    } else {
                        checkpoint.verify_fails(
                            error,
                            checkpoint.validation_limits(),
                            restore_instance_id,
                            replay_instance_id,
                        )
                    }
                },
            },
    {
        let checkpoint = match Self::from_captured_parts(wal_first_sequence, auction, accounts) {
            Ok(checkpoint) => checkpoint,
            Err(error) => {
                return Err(error);
            },
        };
        let limits = match checkpoint.checkpoint_validation_limits() {
            Ok(limits) => limits,
            Err(error) => {
                return Err(error);
            },
        };
        match checkpoint.verify_replay_with_limits(limits, restore_instance_id, replay_instance_id) {
            Ok(()) => Ok(checkpoint),
            Err(error) => Err(error),
        }
    }
}

} // verus!
