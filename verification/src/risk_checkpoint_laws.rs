//! What a coupled checkpoint gives back: whatever a consistent shard captures
//! can be verified and restored.

use vstd::prelude::*;

use crate::auction_engine::{CallAuctionEngine, PreparedCallAuctionAction};
use crate::auction_risk::{
    account_balanced, account_list, mirrored, notionals, reservation_of, reserved_by, side_lots,
    ReservationTable,
};
use crate::book_agreement::lemma_sum_permuted;
use crate::book_types::CallAuctionOrderSnapshot;
use crate::chain::{lemma_sum_push, member_sum};
use crate::domain::{AccountId, OrderId, Side};
use crate::engine_checkpoint::CallAuctionCheckpoint;
use crate::engine_types::{CallAuctionCommandReportCheckpoint, CallAuctionExecutionReport};
use crate::risk_checkpoint::{
    exposes, ledger_rows, open_lots_of, open_notional_of, open_orders_of, CallAuctionRiskCheckpoint,
};
use crate::risk_managed::CallAuctionRiskManagedEngine;

verus! {

/// Identities of the orders of one account among the first `count` orders.
pub open spec fn owned_ids(
    orders: Seq<CallAuctionOrderSnapshot>,
    account: AccountId,
    count: nat,
) -> Seq<OrderId>
    decreases count,
{
    if count == 0 {
        Seq::empty()
    } else {
        let shorter = owned_ids(orders, account, (count - 1) as nat);
        if orders[count - 1].account_id == account {
            shorter.push(orders[count - 1].order_id)
        } else {
            shorter
        }
    }
}

/// The listed identities are those of the account, each once, in list order.
proof fn lemma_owned_ids(
    orders: Seq<CallAuctionOrderSnapshot>,
    account: AccountId,
    count: nat,
)
    requires
        count <= orders.len(),
        forall|i: int, j: int|
            0 <= i < j < orders.len() ==> (#[trigger] orders[i]).order_id != (
            #[trigger] orders[j]).order_id,
    ensures
        forall|i: int, j: int|
            0 <= i < j < owned_ids(orders, account, count).len() ==> #[trigger] owned_ids(
                orders,
                account,
                count,
            )[i] != #[trigger] owned_ids(orders, account, count)[j],
        forall|id: OrderId| #[trigger]
            owned_ids(orders, account, count).contains(id) <==> exists|i: int|
                0 <= i < count && (#[trigger] orders[i]).order_id == id && orders[i].account_id
                    == account,
    decreases count,
{
    if count > 0 {
        let last = count - 1;
        let shorter = owned_ids(orders, account, last as nat);
        let list = owned_ids(orders, account, count);
        lemma_owned_ids(orders, account, last as nat);
        assert forall|id: OrderId| #[trigger] list.contains(id) <==> exists|i: int|
            0 <= i < count && (#[trigger] orders[i]).order_id == id && orders[i].account_id
                == account by {
            if list.contains(id) {
                let k = choose|k: int| 0 <= k < list.len() && list[k] == id;
                if k < shorter.len() {
                    assert(shorter[k] == id);
                    assert(shorter.contains(id));
                    let i = choose|i: int|
                        0 <= i < last && (#[trigger] orders[i]).order_id == id
                            && orders[i].account_id == account;
                    assert(orders[i].order_id == id);
                } else {
                    assert(orders[last].order_id == id);
                }
            }
            if exists|i: int|
                0 <= i < count && (#[trigger] orders[i]).order_id == id && orders[i].account_id
                    == account {
                let i = choose|i: int|
                    0 <= i < count && (#[trigger] orders[i]).order_id == id && orders[i].account_id
                        == account;
                if i < last {
                    assert(shorter.contains(id));
                    let k = choose|k: int| 0 <= k < shorter.len() && shorter[k] == id;
                    assert(list[k] == id);
                } else {
                    assert(list[list.len() - 1] == id);
                }
            }
        }
        assert forall|i: int, j: int| 0 <= i < j < list.len() implies #[trigger] list[i]
            != #[trigger] list[j] by {
            if j < shorter.len() {
                assert(shorter[i] != shorter[j]);
            } else {
                assert(shorter[i] == list[i]);
                assert(shorter.contains(list[i]));
                let k = choose|k: int|
                    0 <= k < last && (#[trigger] orders[k]).order_id == list[i]
                        && orders[k].account_id == account;
                assert(orders[k].order_id != orders[last].order_id);
            }
        }
    }
}

/// The sums over a list of active orders are the sums over their reservations.
proof fn lemma_owned_sums(
    checkpoint: &CallAuctionCheckpoint,
    table: ReservationTable,
    account: AccountId,
    count: nat,
)
    requires
        count <= checkpoint.active_orders@.len(),
        forall|i: int|
            0 <= i < checkpoint.active_orders@.len() ==> {
                let order = #[trigger] checkpoint.active_orders@[i];
                &&& table.dom().contains(order.order_id)
                &&& table[order.order_id].snapshot == reservation_of(checkpoint.definition, order)
            },
    ensures
        ({
            let orders = checkpoint.active_orders@;
            let ids = owned_ids(orders, account, count);
            &&& ids.len() == open_orders_of(orders, account, count)
            &&& member_sum(side_lots(table, Side::Buy), ids) == open_lots_of(
                orders,
                account,
                Side::Buy,
                count,
            )
            &&& member_sum(side_lots(table, Side::Sell), ids) == open_lots_of(
                orders,
                account,
                Side::Sell,
                count,
            )
            &&& member_sum(notionals(table), ids) == open_notional_of(checkpoint, account, count)
        }),
    decreases count,
{
    if count > 0 {
        let orders = checkpoint.active_orders@;
        let shorter = owned_ids(orders, account, (count - 1) as nat);
        let id = orders[count - 1].order_id;
        lemma_owned_sums(checkpoint, table, account, (count - 1) as nat);
        lemma_sum_push(side_lots(table, Side::Buy), shorter, id);
        lemma_sum_push(side_lots(table, Side::Sell), shorter, id);
        lemma_sum_push(notionals(table), shorter, id);
    }
}

impl CallAuctionEngine {
    /// What the auction itself rejects is no risk rejection.
    proof fn lemma_own_rejection(&self, command: crate::engine_types::CallAuctionCommand)
        ensures
            self.decide(command) matches Ok(Some(reason)) ==> !reason.is_risk(),
    {
    }
}

impl CallAuctionRiskManagedEngine {
    /// A pair that a shard makes is one that its engine makes behind a gate.
    proof fn lemma_engine_makes(
        &self,
        after: &Self,
        history: Seq<CallAuctionCommandReportCheckpoint>,
        index: int,
    )
        requires
            self.makes_entry(after, history, index),
        ensures
            self.engine.makes_entry(&after.engine, history, index),
    {
        let entry = history[index];
        let command = entry.command;
        let refusal = self.risk.refusal(command);
        let report = choose|report: CallAuctionExecutionReport|
            {
                &&& #[trigger] after.engine.submits_gated(&self.engine, command, refusal, report)
                &&& report.same(&entry.report)
            };
        let action = choose|action: PreparedCallAuctionAction| #[trigger]
            self.engine.action_matches(command, action) && after.engine.settles_from(
                &self.engine,
                command,
                CallAuctionEngine::gated(
                    action,
                    if action is Rejected {
                        None
                    } else {
                        refusal
                    },
                ),
                report,
            );
        self.engine.lemma_own_rejection(command);
        let gate = if action is Rejected {
            None
        } else {
            refusal
        };
        assert(CallAuctionEngine::gated(action, entry.report.outcome.external())
            == CallAuctionEngine::gated(action, gate));
        assert(after.engine.reproduces(&self.engine, entry));
    }

    /// What a shard can replay, its engine can replay behind a gate.
    pub proof fn law_replayable_engine(&self)
        requires
            self.wf(),
            self.replayable(),
        ensures
            CallAuctionEngine::reproducible(
                self.engine.book.definition,
                self.engine.limits,
                self.engine.history@,
            ),
    {
        let definition = self.engine.book.definition;
        let history = self.engine.history@;
        assert forall|i: int|
            0 <= i < history.len() implies #[trigger] CallAuctionEngine::entry_reproducible(
            definition,
            self.engine.limits,
            history,
            i,
        ) by {
            assert(Self::entry_reproducible(
                definition,
                self.limits,
                self.risk.profiles(),
                history,
                i,
            ));
            let (b, a) = choose|b: CallAuctionRiskManagedEngine, a: CallAuctionRiskManagedEngine|
                {
                    &&& b.engine.book.definition == definition
                    &&& b.limits == self.limits
                    &&& b.risk.profiles() == self.risk.profiles()
                    &&& #[trigger] b.makes_entry(&a, history, i)
                };
            b.lemma_engine_makes(&a, history, i);
        }
    }

    /// The captured exposure of an account is the sum over its active orders.
    proof fn lemma_row_exposes(&self, checkpoint: &CallAuctionCheckpoint, id: AccountId)
        requires
            self.wf(),
            self.engine.captured_by(checkpoint),
            self.risk.accounts@.dom().contains(id),
        ensures
            exposes(
                checkpoint,
                id,
                self.risk.accounts@[id].exposure,
                checkpoint.active_orders@.len(),
            ),
    {
        let orders = checkpoint.active_orders@;
        let active = self.engine.book.active();
        let table = self.risk.reservations@;
        let account = self.risk.accounts@[id];
        self.engine.book.lemma_listed();
        assert(mirrored(self.risk.definition, active).dom() =~= active.dom());
        assert(self.risk.reserved().dom() =~= table.dom());
        assert forall|i: int| 0 <= i < orders.len() implies {
            let order = #[trigger] orders[i];
            &&& table.dom().contains(order.order_id)
            &&& table[order.order_id].snapshot == reservation_of(checkpoint.definition, order)
        } by {
            let order = orders[i];
            assert(active.dom().contains(order.order_id));
            assert(self.risk.reserved().dom().contains(order.order_id));
            assert(self.risk.reserved()[order.order_id] == table[order.order_id].snapshot);
        }
        assert forall|i: int, j: int| 0 <= i < j < orders.len() implies (
        #[trigger] orders[i]).order_id != (#[trigger] orders[j]).order_id by {
            assert(orders[i].order_id.value < orders[j].order_id.value);
        }
        lemma_owned_sums(checkpoint, table, id, orders.len());
        lemma_owned_ids(orders, id, orders.len());
        assert(account_balanced(table, id, account));
        reveal(account_balanced);
        let left = account_list(table, account);
        let right = owned_ids(orders, id, orders.len());
        assert forall|order: OrderId| left.contains(order) <==> right.contains(order) by {
            if left.contains(order) {
                let k = choose|k: int| 0 <= k < left.len() && left[k] == order;
                assert(reserved_by(table, id).contains(left[k]));
                assert(self.risk.reserved().dom().contains(order));
                assert(active.dom().contains(order));
                let i = choose|i: int| 0 <= i < orders.len() && (#[trigger] orders[i]).order_id
                    == order;
                assert(orders[i].account_id == id);
            }
            if right.contains(order) {
                let i = choose|i: int|
                    0 <= i < orders.len() && (#[trigger] orders[i]).order_id == order
                        && orders[i].account_id == id;
                assert(table.dom().contains(orders[i].order_id));
                assert(reserved_by(table, id).contains(order));
            }
        }
        lemma_sum_permuted(side_lots(table, Side::Buy), side_lots(table, Side::Buy), left, right);
        lemma_sum_permuted(side_lots(table, Side::Sell), side_lots(table, Side::Sell), left, right);
        lemma_sum_permuted(notionals(table), notionals(table), left, right);
    }

    /// Whatever a consistent shard captures can be verified under its own
    /// limits: it restores, and its history reproduces it.
    pub proof fn law_capture_is_verifiable(&self, checkpoint: &CallAuctionRiskCheckpoint)
        requires
            self.consistent(),
            self.replayable(),
            checkpoint.auction.valid(),
            checkpoint.structured(),
            self.captured_by(checkpoint),
        ensures
            checkpoint.verifiable(self.limits),
    {
        let rows = checkpoint.rows();
        let entries = self.risk.accounts.entries@;
        let orders = checkpoint.auction.active_orders@;
        self.law_replayable_engine();
        self.engine.law_capture_is_restorable(&checkpoint.auction);
        self.engine.book.lemma_listed();
        self.risk.accounts.lemma_view();
        assert forall|k: int| 0 <= k < rows.len() implies {
            let row = #[trigger] rows[k];
            &&& self.risk.accounts@.dom().contains(row.account_id)
            &&& row.profile == self.risk.accounts@[row.account_id].profile
            &&& row.exposure == self.risk.accounts@[row.account_id].exposure
        } by {
            assert(rows[k] == ledger_rows(&self.risk)[k]);
            assert(self.risk.accounts@.dom().contains(entries[k].0));
        }
        assert forall|id: AccountId| #[trigger]
            self.risk.accounts@.dom().contains(id) implies checkpoint.registers(id) by {
            let k = choose|k: int| 0 <= k < entries.len() && (#[trigger] entries[k]).0 == id;
            assert(rows[k] == ledger_rows(&self.risk)[k]);
            assert(rows[k].account_id == id);
        }
        assert forall|i: int, j: int| 0 <= i < j < rows.len() implies (
        #[trigger] rows[i]).account_id != (#[trigger] rows[j]).account_id by {
            assert(rows[i].account_id.value < rows[j].account_id.value);
        }
        assert forall|i: int| 0 <= i < orders.len() implies checkpoint.registers(
            (#[trigger] orders[i]).account_id,
        ) by {
            let id = orders[i].order_id;
            let active = self.engine.book.active();
            assert(active.dom().contains(id));
            assert(mirrored(self.risk.definition, active).dom().contains(id));
            assert(self.risk.reserved().dom().contains(id));
            assert(self.risk.reservations@.dom().contains(id));
            assert(self.risk.reserved()[id] == self.risk.reservations@[id].snapshot);
            assert(self.risk.reservation_ok(id));
            assert(self.risk.accounts@.dom().contains(orders[i].account_id));
        }
        assert forall|k: int| 0 <= k < rows.len() implies #[trigger] checkpoint.row_ok(k) by {
            let id = rows[k].account_id;
            assert(self.risk.accounts@.dom().contains(id));
            self.lemma_row_exposes(&checkpoint.auction, id);
            assert(self.risk.account_bears(id));
        }
        assert(checkpoint.restorable(self.limits));
        assert forall|id: AccountId| #[trigger] checkpoint.profiles().dom().contains(id)
            <==> self.risk.profiles().dom().contains(id) by {
            if checkpoint.registers(id) {
                let k = choose|k: int| 0 <= k < rows.len() && (#[trigger] rows[k]).account_id == id;
                assert(self.risk.accounts@.dom().contains(rows[k].account_id));
            }
        }
        assert forall|id: AccountId| #[trigger]
            checkpoint.profiles().dom().contains(id) implies checkpoint.profiles()[id]
            == self.risk.profiles()[id] by {
            let k = choose|k: int| 0 <= k < rows.len() && (#[trigger] rows[k]).account_id == id;
            assert(self.risk.accounts@.dom().contains(rows[k].account_id));
        }
        assert(checkpoint.profiles() =~= self.risk.profiles());
        assert forall|k: int| 0 <= k < rows.len() implies {
            let row = #[trigger] rows[k];
            row.exposure.position_lots == row.profile.initial_position_lots
                + crate::risk_replay::net_executed(
                checkpoint.auction.history@,
                checkpoint.auction.history@.len(),
                row.account_id,
            )
        } by {
            assert(self.risk.accounts@.dom().contains(rows[k].account_id));
        }
    }

    /// A shard whose capture was verified is consistent with its own past.
    pub proof fn law_verified_capture_is_consistent(&self, checkpoint: &CallAuctionRiskCheckpoint)
        requires
            self.wf(),
            self.audited(),
            self.engine.projection_ok(),
            self.captured_by(checkpoint),
            checkpoint.verifiable(self.limits),
        ensures
            self.consistent(),
            self.replayable(),
    {
        let rows = checkpoint.rows();
        let entries = self.risk.accounts.entries@;
        self.risk.accounts.lemma_view();
        assert forall|k: int| 0 <= k < rows.len() implies {
            let row = #[trigger] rows[k];
            &&& row.account_id == entries[k].0
            &&& row.profile == entries[k].1.profile
            &&& row.exposure == entries[k].1.exposure
        } by {
            assert(rows[k] == ledger_rows(&self.risk)[k]);
        }
        assert forall|id: AccountId| #[trigger]
            self.risk.accounts@.dom().contains(id) implies checkpoint.registers(id) && {
            let account = self.risk.accounts@[id];
            account.exposure.position_lots == account.profile.initial_position_lots
                + crate::risk_replay::net_executed(
                self.engine.history@,
                self.engine.history@.len(),
                id,
            )
        } by {
            let k = choose|k: int| 0 <= k < entries.len() && (#[trigger] entries[k]).0 == id;
            assert(rows[k].account_id == id);
        }
        assert forall|id: AccountId| #[trigger] checkpoint.profiles().dom().contains(id)
            <==> self.risk.profiles().dom().contains(id) by {
            if checkpoint.registers(id) {
                let k = choose|k: int| 0 <= k < rows.len() && (#[trigger] rows[k]).account_id == id;
                assert(self.risk.accounts@.dom().contains(entries[k].0));
            }
        }
        assert forall|id: AccountId| #[trigger]
            checkpoint.profiles().dom().contains(id) implies checkpoint.profiles()[id]
            == self.risk.profiles()[id] by {
            let k = choose|k: int| 0 <= k < rows.len() && (#[trigger] rows[k]).account_id == id;
            assert(self.risk.accounts@.dom().contains(entries[k].0));
        }
        assert(checkpoint.profiles() =~= self.risk.profiles());
    }
}

} // verus!
