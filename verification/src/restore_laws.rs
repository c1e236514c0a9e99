//! What a restored book, engine or shard takes over from captured state.

use vstd::prelude::*;

use crate::auction::{AuctionError, AuctionOrderConstraint};
use crate::auction_book::price_configuration_fault;
use crate::auction_engine::CallAuctionEngine;
use crate::auction_risk::CallAuctionRiskLimits;
use crate::book_restore::{ids_distinct, orders_by_id, restorable};
use crate::book_types::{CallAuctionBookLimits, CallAuctionOrderSnapshot};
use crate::domain::{AccountId, OrderId};
use crate::engine_checkpoint::{checkpoint_fits, CallAuctionCheckpoint, CallAuctionCheckpointError};
use crate::engine_types::{CallAuctionEngineConstructionError, CallAuctionEngineLimits};
use crate::instrument::InstrumentDefinition;
use crate::risk_checkpoint::{CallAuctionRiskCheckpoint, CallAuctionRiskCheckpointError};
use crate::risk_managed::CallAuctionRiskManagedEngine;

verus! {

/// A definition can be auctioned exactly when its tick is a positive price step
/// and its collar is ordered with both ends on the tick grid.
pub proof fn law_auctionable_definitions(definition: InstrumentDefinition)
    ensures
        ({
            let rules = definition.price;
            let fault = price_configuration_fault(definition);
            let stepped = 0 < rules.tick_size <= i64::MAX;
            &&& fault is None <==> {
                &&& stepped
                &&& rules.minimum.raw <= rules.maximum.raw
                &&& rules.minimum.raw as int % rules.tick_size as int == 0
                &&& rules.maximum.raw as int % rules.tick_size as int == 0
            }
            &&& !stepped ==> fault == Some(AuctionError::InvalidTickSize(rules.tick_size))
            &&& stepped && rules.minimum.raw > rules.maximum.raw ==> fault == Some(
                AuctionError::PriceBandInverted,
            )
        }),
{
}

/// Captured state describes a book only if identities are distinct, every active
/// order was accepted, is on the quantity and price rules and was sequenced, no
/// two orders of one queue share a sequence, and everything is within the limits.
pub proof fn law_restorable_orders(
    definition: InstrumentDefinition,
    limits: CallAuctionBookLimits,
    orders: Seq<CallAuctionOrderSnapshot>,
    accepted: Seq<OrderId>,
    next_priority_sequence: u64,
    next_trade_id: u64,
    i: int,
    j: int,
)
    requires
        restorable(definition, limits, orders, accepted, next_priority_sequence, next_trade_id),
    ensures
        next_priority_sequence > 0,
        next_trade_id > 0,
        orders.len() <= limits.active_orders,
        accepted.len() <= limits.accepted_order_ids,
        0 <= i < j < accepted.len() ==> accepted[i] != accepted[j],
        0 <= i < orders.len() ==> {
            let order = orders[i];
            &&& exists|k: int| 0 <= k < accepted.len() && #[trigger] accepted[k] == order.order_id
            &&& 0 < order.quantity.lots <= definition.quantity.maximum
            &&& order.quantity.lots as int % definition.quantity.increment as int == 0
            &&& 0 < order.priority_sequence < next_priority_sequence
            &&& match order.constraint {
                AuctionOrderConstraint::Market => true,
                AuctionOrderConstraint::Limit(limit) => {
                    &&& limit.raw as int % definition.price.tick_size as int == 0
                    &&& definition.price.minimum.raw <= limit.raw
                    &&& limit.raw <= definition.price.maximum.raw
                },
            }
        },
        0 <= i < j < orders.len() ==> {
            &&& orders[i].order_id != orders[j].order_id
            &&& orders[i].side == orders[j].side && orders[i].constraint == orders[j].constraint
                ==> orders[i].priority_sequence != orders[j].priority_sequence
        },
{
    if 0 <= i < orders.len() {
        let id = orders[i].order_id;
        assert(accepted.contains(id));
        let k = choose|k: int| 0 <= k < accepted.len() && accepted[k] == id;
        assert(accepted[k] == id);
    }
}

impl CallAuctionEngine {
    /// A restored engine holds exactly the captured active orders, accepted
    /// identities, counters, phase, cycle and history.
    pub proof fn law_restored_engine_holds_checkpoint(
        &self,
        checkpoint: &CallAuctionCheckpoint,
        limits: CallAuctionEngineLimits,
        id: OrderId,
        i: int,
    )
        requires
            Self::restorable_under(checkpoint, limits),
            self.restores(checkpoint),
        ensures
            ({
                let orders = checkpoint.active_orders@;
                &&& self.book.active().dom().contains(id) <==> exists|k: int|
                    0 <= k < orders.len() && (#[trigger] orders[k]).order_id == id
                &&& 0 <= i < orders.len() ==> self.book.active().dom().contains(orders[i].order_id)
                    && self.book.active()[orders[i].order_id] == orders[i]
                &&& self.book.accepted().contains(id) <==> exists|k: int|
                    0 <= k < checkpoint.accepted_order_ids@.len()
                        && #[trigger] checkpoint.accepted_order_ids@[k] == id
            }),
            self.book.definition == checkpoint.definition,
            self.book.next_priority_sequence == checkpoint.next_priority_sequence,
            self.book.next_trade_id == checkpoint.next_trade_id,
            self.book.state_revision == checkpoint.book_revision,
            self.phase == checkpoint.phase.phase,
            self.phase_revision == checkpoint.phase.revision,
            self.active_auction_id == checkpoint.phase.active_auction_id,
            self.last_auction_id == checkpoint.phase.last_auction_id,
            self.history@ == checkpoint.history@,
    {
        let orders = checkpoint.active_orders@;
        let accepted = checkpoint.accepted_order_ids@;
        assert(ids_distinct(orders));
        if 0 <= i < orders.len() {
            let found = orders[i].order_id;
            assert(orders_by_id(orders).dom().contains(found));
            let k = choose|k: int|
                0 <= k < orders.len() && (#[trigger] orders[k]).order_id == found;
            assert(k == i) by {
                if k < i {
                    assert(orders[k].order_id != orders[i].order_id);
                } else if i < k {
                    assert(orders[i].order_id != orders[k].order_id);
                }
            }
        }
        assert(accepted.to_set().contains(id) <==> accepted.contains(id));
        if exists|k: int| 0 <= k < accepted.len() && #[trigger] accepted[k] == id {
            let k = choose|k: int| 0 <= k < accepted.len() && #[trigger] accepted[k] == id;
            assert(accepted.contains(accepted[k]));
        }
    }

    /// A checkpoint that can be restored under a policy is within its bounds.
    pub proof fn law_restored_state_fits(
        checkpoint: &CallAuctionCheckpoint,
        limits: CallAuctionEngineLimits,
        i: int,
    )
        requires
            checkpoint_fits(checkpoint, limits),
        ensures
            checkpoint.history@.len() <= limits.retained_commands,
            checkpoint.active_orders@.len() <= limits.book.active_orders,
            checkpoint.accepted_order_ids@.len() <= limits.book.accepted_order_ids,
            0 <= i < checkpoint.history@.len() ==> checkpoint.history@[i].report.events@.len()
                <= limits.report_events,
    {
    }
}

impl CallAuctionCheckpointError {
    /// A contradiction never passes with other resources; a failed construction
    /// may; and what could not be reserved always may.
    pub proof fn law_contradictions_are_final(self)
        ensures
            self is Contradiction ==> !self.operational() && !self.exhausted(),
            self is Construction ==> self.operational(),
            self.exhausted() ==> self.operational(),
            match self {
                CallAuctionCheckpointError::Construction(
                    CallAuctionEngineConstructionError::EngineInstanceIdExhausted,
                    _,
                ) => !self.exhausted(),
                CallAuctionCheckpointError::Construction(
                    CallAuctionEngineConstructionError::CommandHistoryReservationFailed,
                    _,
                ) => self.exhausted(),
                CallAuctionCheckpointError::Preparation(cause, _) => self.operational() <==> cause
                    is CapacityReservationFailed,
                _ => true,
            },
    {
    }
}

impl CallAuctionRiskCheckpoint {
    /// A restored shard has exactly the captured accounts, each with its profile,
    /// position and open exposure, and its engine takes over the captured auction.
    pub proof fn law_restored_shard_holds_rows(
        &self,
        managed: &CallAuctionRiskManagedEngine,
        limits: CallAuctionRiskLimits,
        instance_id: u64,
        k: int,
    )
        requires
            self.restored_as(managed, limits, instance_id),
        ensures
            managed.engine.restores(&self.auction),
            0 <= k < self.rows().len() ==> {
                let row = self.rows()[k];
                &&& managed.risk.accounts@.dom().contains(row.account_id)
                &&& managed.risk.accounts@[row.account_id].profile == row.profile
                &&& managed.risk.accounts@[row.account_id].exposure == row.exposure
            },
            forall|id: AccountId| #[trigger]
                managed.risk.accounts@.dom().contains(id) ==> exists|i: int|
                    0 <= i < self.rows().len() && (#[trigger] self.rows()[i]).account_id == id,
    {
        if 0 <= k < self.rows().len() {
            assert(self.row_held(&managed.risk, self.rows()[k]));
        }
        assert forall|id: AccountId| #[trigger]
            managed.risk.accounts@.dom().contains(id) implies exists|i: int|
            0 <= i < self.rows().len() && (#[trigger] self.rows()[i]).account_id == id by {
            assert(self.registers(id));
        }
    }

    /// A captured shard can be restored only if each account's row is within its
    /// position limits, whatever part of its open interest executes, and every
    /// active order belongs to a row.
    pub proof fn law_restorable_rows_are_borne(
        &self,
        limits: CallAuctionRiskLimits,
        k: int,
        bought: int,
        sold: int,
        i: int,
    )
        requires
            self.restorable(limits),
        ensures
            self.rows().len() <= limits.max_registered_accounts,
            0 <= k < self.rows().len() ==> {
                let row = self.rows()[k];
                let position = row.exposure.position_lots as int;
                &&& 0 <= bought <= row.exposure.open_buy_lots && 0 <= sold
                    <= row.exposure.open_sell_lots ==> position + bought - sold
                    <= row.profile.limits.max_long_position_lots && -(
                row.profile.limits.max_short_position_lots as int) <= position + bought - sold
            },
            0 <= i < self.auction.active_orders@.len() ==> exists|r: int|
                0 <= r < self.rows().len() && (#[trigger] self.rows()[r]).account_id
                    == self.auction.active_orders@[i].account_id,
    {
        if 0 <= k < self.rows().len() {
            assert(self.row_ok(k));
        }
        if 0 <= i < self.auction.active_orders@.len() {
            assert(self.registers(self.auction.active_orders@[i].account_id));
        }
    }

    /// A successor keeps the log, the accounts and their profiles, and its auction
    /// continues that of its predecessor.
    pub proof fn law_successor_keeps_profiles(&self, previous: &Self, k: int)
        requires
            self.succeeds(previous),
        ensures
            self.wal_first_sequence == previous.wal_first_sequence,
            self.rows().len() == previous.rows().len(),
            0 <= k < self.rows().len() ==> self.rows()[k].account_id
                == previous.rows()[k].account_id && self.rows()[k].profile
                == previous.rows()[k].profile,
            self.auction.history@.len() >= previous.auction.history@.len(),
            0 <= k < previous.auction.history@.len() ==> self.auction.history@[k].command
                == previous.auction.history@[k].command,
    {
        if 0 <= k < previous.auction.history@.len() {
            assert(self.auction.history@[k].same(&previous.auction.history@[k]));
        }
    }
}

impl CallAuctionRiskCheckpointError {
    /// What could not be reserved may pass with other resources, and an error of
    /// the auction is classed as the auction classes it.
    pub proof fn law_exhaustion_is_operational(self)
        ensures
            self.exhausted() ==> self.operational(),
            self is ResourceReservationFailed ==> self.exhausted(),
            self is Construction ==> self.operational() && !self.exhausted(),
            match self {
                CallAuctionRiskCheckpointError::Auction(
                    CallAuctionCheckpointError::Contradiction(_),
                ) => !self.operational(),
                _ => true,
            },
    {
    }
}

} // verus!
