//! Books with equal interest decide alike, however their indexes are laid out.

use vstd::prelude::*;

use crate::auction::AuctionOrderConstraint;
use crate::book_lemmas::{lemma_account_spells, lemma_queue_spells};
use crate::book_queries::level_snapshot;
use crate::book_state::{
    account_ids, account_ok, in_account, in_queue, leaves, queue_ids, queue_ok, CallAuctionBook,
};
use crate::book_types::CallAuctionOrder;
use crate::chain::{lemma_sum_remove, member_sum};
use crate::domain::{AccountId, MassCancelScope, OrderId, Price, Side};
use crate::ordered_map::{MapKey, OrderedMap};

verus! {

/// Lists of the same members with the same amounts add up alike.
pub proof fn lemma_sum_permuted(
    left_amounts: Map<OrderId, int>,
    right_amounts: Map<OrderId, int>,
    left: Seq<OrderId>,
    right: Seq<OrderId>,
)
    requires
        forall|i: int, j: int| 0 <= i < j < left.len() ==> #[trigger] left[i] != #[trigger] left[j],
        forall|i: int, j: int|
            0 <= i < j < right.len() ==> #[trigger] right[i] != #[trigger] right[j],
        forall|id: OrderId| left.contains(id) <==> right.contains(id),
        forall|i: int|
            0 <= i < left.len() ==> left_amounts[#[trigger] left[i]] == right_amounts[left[i]],
    ensures
        left.len() == right.len(),
        member_sum(left_amounts, left) == member_sum(right_amounts, right),
    decreases left.len(),
{
    if left.len() == 0 {
        if right.len() > 0 {
            assert(right.contains(right[0]));
            assert(left.contains(right[0]));
        }
    } else {
        let last = left.last();
        assert(left[left.len() - 1] == last);
        assert(left.contains(last));
        let index = choose|i: int| 0 <= i < right.len() && right[i] == last;
        let fewer = left.drop_last();
        let rest = right.remove(index);
        assert forall|i: int, j: int| 0 <= i < j < fewer.len() implies #[trigger] fewer[i]
            != #[trigger] fewer[j] by {
            assert(left[i] != left[j]);
        }
        assert forall|i: int, j: int| 0 <= i < j < rest.len() implies #[trigger] rest[i]
            != #[trigger] rest[j] by {
            let a = if i < index {
                i
            } else {
                i + 1
            };
            let b = if j < index {
                j
            } else {
                j + 1
            };
            assert(right[a] != right[b]);
        }
        assert forall|id: OrderId| fewer.contains(id) <==> rest.contains(id) by {
            if fewer.contains(id) {
                let i = choose|i: int| 0 <= i < fewer.len() && fewer[i] == id;
                assert(left[i] == id);
                assert(left[i] != left[left.len() - 1]);
                assert(left.contains(id));
                let k = choose|k: int| 0 <= k < right.len() && right[k] == id;
                if k < index {
                    assert(rest[k] == id);
                } else {
                    assert(rest[k - 1] == id);
                }
            }
            if rest.contains(id) {
                let k = choose|k: int| 0 <= k < rest.len() && rest[k] == id;
                let a = if k < index {
                    k
                } else {
                    k + 1
                };
                assert(right[a] == id);
                if a < index {
                    assert(right[a] != right[index]);
                } else {
                    assert(right[index] != right[a]);
                }
                assert(right.contains(id));
                let i = choose|i: int| 0 <= i < left.len() && left[i] == id;
                assert(fewer[i] == id);
            }
        }
        assert forall|i: int| 0 <= i < fewer.len() implies left_amounts[#[trigger] fewer[i]]
            == right_amounts[fewer[i]] by {
            assert(left[i] == fewer[i]);
        }
        lemma_sum_permuted(left_amounts, right_amounts, fewer, rest);
        lemma_sum_remove(right_amounts, right, index);
    }
}

/// Sorted maps with equal domains list their keys alike.
pub proof fn lemma_same_keys<K: MapKey, V: Copy, W: Copy>(
    left: &OrderedMap<K, V>,
    right: &OrderedMap<K, W>,
    count: int,
)
    requires
        left.wf(),
        right.wf(),
        left@.dom() == right@.dom(),
        0 <= count <= left.entries@.len(),
    ensures
        left.entries@.len() == right.entries@.len(),
        forall|i: int|
            0 <= i < count ==> (#[trigger] left.entries@[i]).0 == right.entries@[i].0,
    decreases count,
{
    left.lemma_view();
    right.lemma_view();
    let l = left.entries@;
    let r = right.entries@;
    assert(l.len() == left@.dom().len());
    assert(r.len() == right@.dom().len());
    if count > 0 {
        let last = count - 1;
        lemma_same_keys(left, right, last);
        assert(right@.dom().contains(l[last].0));
        let j = choose|j: int| 0 <= j < r.len() && (#[trigger] r[j]).0 == l[last].0;
        if j < last {
            assert(l[j].0 == r[j].0);
            assert(l[j].0.rank() < l[last].0.rank());
        }
        assert(left@.dom().contains(r[last].0));
        let k = choose|k: int| 0 <= k < l.len() && (#[trigger] l[k]).0 == r[last].0;
        if k < last {
            assert(l[k].0 == r[k].0);
            assert(r[k].0.rank() < r[last].0.rank());
        } else if k > last {
            assert(l[last].0.rank() < l[k].0.rank());
            if j > last {
                assert(r[last].0.rank() < r[j].0.rank());
            }
        }
    }
}

impl CallAuctionBook {
    /// Two books of one definition and policy hold equal interest.
    pub open spec fn agrees(&self, other: &Self) -> bool {
        &&& self.definition == other.definition
        &&& self.limits == other.limits
        &&& self.active() == other.active()
        &&& self.accepted() == other.accepted()
        &&& self.next_priority_sequence == other.next_priority_sequence
        &&& self.next_trade_id == other.next_trade_id
        &&& self.state_revision == other.state_revision
    }

    proof fn lemma_same_visible(&self, other: &Self, id: OrderId)
        requires
            self.agrees(other),
        ensures
            self.orders@.dom().contains(id) <==> other.orders@.dom().contains(id),
            self.orders@.dom().contains(id) ==> self.orders@[id].visible()
                == other.orders@[id].visible(),
    {
        assert(self.active().dom().contains(id) <==> self.orders@.dom().contains(id));
        assert(other.active().dom().contains(id) <==> other.orders@.dom().contains(id));
        if self.orders@.dom().contains(id) {
            assert(self.active()[id] == self.orders@[id].visible());
            assert(other.active()[id] == other.orders@[id].visible());
        }
    }

    /// Queues of equal interest carry equal aggregates.
    pub proof fn lemma_same_queue(
        &self,
        other: &Self,
        side: Side,
        constraint: AuctionOrderConstraint,
    )
        requires
            self.wf(),
            other.wf(),
            self.agrees(other),
        ensures
            self.queue_of(side, constraint).total_quantity == other.queue_of(
                side,
                constraint,
            ).total_quantity,
            self.queue_of(side, constraint).order_count == other.queue_of(
                side,
                constraint,
            ).order_count,
    {
        let queue = self.queue_of(side, constraint);
        let twin = other.queue_of(side, constraint);
        assert(queue_ok(self.orders@, queue, side, constraint));
        assert(queue_ok(other.orders@, twin, side, constraint));
        lemma_queue_spells(self.orders@, queue, side, constraint);
        lemma_queue_spells(other.orders@, twin, side, constraint);
        let left = queue_ids(self.orders@, queue);
        let right = queue_ids(other.orders@, twin);
        assert forall|id: OrderId| left.contains(id) <==> right.contains(id) by {
            self.lemma_same_visible(other, id);
            if left.contains(id) {
                let i = choose|i: int| 0 <= i < left.len() && left[i] == id;
                assert(in_queue(self.orders@, left[i], side, constraint));
                assert(in_queue(other.orders@, id, side, constraint));
            }
            if right.contains(id) {
                let i = choose|i: int| 0 <= i < right.len() && right[i] == id;
                assert(in_queue(other.orders@, right[i], side, constraint));
                assert(in_queue(self.orders@, id, side, constraint));
            }
        }
        assert forall|i: int| 0 <= i < left.len() implies leaves(self.orders@)[#[trigger] left[i]]
            == leaves(other.orders@)[left[i]] by {
            assert(in_queue(self.orders@, left[i], side, constraint));
            self.lemma_same_visible(other, left[i]);
        }
        lemma_sum_permuted(leaves(self.orders@), leaves(other.orders@), left, right);
    }

    /// Account lists of equal interest carry equal aggregates.
    pub proof fn lemma_same_account(&self, other: &Self, account: AccountId, side: Side)
        requires
            self.wf(),
            other.wf(),
            self.agrees(other),
        ensures
            self.account_side(account, side).total_quantity == other.account_side(
                account,
                side,
            ).total_quantity,
            self.account_side(account, side).order_count == other.account_side(
                account,
                side,
            ).order_count,
    {
        let index = self.account_side(account, side);
        let twin = other.account_side(account, side);
        assert(account_ok(self.orders@, index, account, side));
        assert(account_ok(other.orders@, twin, account, side));
        lemma_account_spells(self.orders@, index, account, side);
        lemma_account_spells(other.orders@, twin, account, side);
        let left = account_ids(self.orders@, index);
        let right = account_ids(other.orders@, twin);
        assert forall|id: OrderId| left.contains(id) <==> right.contains(id) by {
            self.lemma_same_visible(other, id);
            if left.contains(id) {
                let i = choose|i: int| 0 <= i < left.len() && left[i] == id;
                assert(in_account(self.orders@, left[i], account, side));
                assert(in_account(other.orders@, id, account, side));
            }
            if right.contains(id) {
                let i = choose|i: int| 0 <= i < right.len() && right[i] == id;
                assert(in_account(other.orders@, right[i], account, side));
                assert(in_account(self.orders@, id, account, side));
            }
        }
        assert forall|i: int| 0 <= i < left.len() implies leaves(self.orders@)[#[trigger] left[i]]
            == leaves(other.orders@)[left[i]] by {
            assert(in_account(self.orders@, left[i], account, side));
            self.lemma_same_visible(other, left[i]);
        }
        lemma_sum_permuted(leaves(self.orders@), leaves(other.orders@), left, right);
    }

    /// Equal interest occupies equal prices.
    pub proof fn lemma_same_prices(&self, other: &Self, side: Side)
        requires
            self.wf(),
            other.wf(),
            self.agrees(other),
        ensures
            self.level_map(side).dom() == other.level_map(side).dom(),
    {
        assert forall|price: Price| self.level_map(side).dom().contains(price)
            <==> other.level_map(side).dom().contains(price) by {
            self.law_levels_are_occupied(side, price);
            other.law_levels_are_occupied(side, price);
        }
        assert(self.level_map(side).dom() =~= other.level_map(side).dom());
    }

    /// Equal interest has equal aggregate levels.
    pub proof fn lemma_same_levels(&self, other: &Self, side: Side)
        requires
            self.wf(),
            other.wf(),
            self.agrees(other),
        ensures
            self.best_depth(side) == other.best_depth(side),
            self.level_list(side) == other.level_list(side),
    {
        self.lemma_same_prices(other, side);
        let left = self.level_entries(side);
        let right = other.level_entries(side);
        match side {
            Side::Buy => {
                self.bids.lemma_view();
                other.bids.lemma_view();
                lemma_same_keys(&self.bids, &other.bids, left.len() as int);
            },
            Side::Sell => {
                self.asks.lemma_view();
                other.asks.lemma_view();
                lemma_same_keys(&self.asks, &other.asks, left.len() as int);
            },
        }
        assert forall|i: int| 0 <= i < left.len() implies level_snapshot(
            side,
            #[trigger] left[i],
        ) == level_snapshot(side, right[i]) by {
            let price = left[i].0;
            let constraint = AuctionOrderConstraint::Limit(price);
            self.lemma_same_queue(other, side, constraint);
            assert(self.level_map(side).dom().contains(price));
            assert(other.level_map(side).dom().contains(right[i].0));
            assert(self.queue_of(side, constraint) == left[i].1);
            assert(other.queue_of(side, constraint) == right[i].1);
        }
        assert(self.ascending_depth(side) =~= other.ascending_depth(side));
        assert(self.best_depth(side) =~= other.best_depth(side));
        assert(self.level_list(side) =~= other.level_list(side));
    }

    /// Equal interest clears alike.
    pub proof fn lemma_same_clearing(&self, other: &Self)
        requires
            self.wf(),
            other.wf(),
            self.agrees(other),
        ensures
            self.grid == other.grid,
            self.market_interest() == other.market_interest(),
            self.level_list(Side::Buy) == other.level_list(Side::Buy),
            self.level_list(Side::Sell) == other.level_list(Side::Sell),
    {
        self.lemma_same_levels(other, Side::Buy);
        self.lemma_same_levels(other, Side::Sell);
        self.lemma_same_queue(other, Side::Buy, AuctionOrderConstraint::Market);
        self.lemma_same_queue(other, Side::Sell, AuctionOrderConstraint::Market);
    }

    /// Equal interest admits the same orders.
    pub proof fn lemma_same_admission(&self, other: &Self, order: CallAuctionOrder)
        requires
            self.wf(),
            other.wf(),
            self.agrees(other),
        ensures
            self.admission_fault(order) == other.admission_fault(order),
    {
        self.lemma_same_queue(other, order.side, order.constraint);
        self.lemma_same_account(other, order.account_id, order.side);
        self.lemma_same_prices(other, order.side);
    }

    /// Equal interest accepts the same replacements.
    pub proof fn lemma_same_replacement(
        &self,
        other: &Self,
        account: AccountId,
        target: OrderId,
        order: CallAuctionOrder,
    )
        requires
            self.wf(),
            other.wf(),
            self.agrees(other),
        ensures
            self.replace_fault(account, target, order) == other.replace_fault(
                account,
                target,
                order,
            ),
    {
        self.lemma_same_visible(other, target);
        self.lemma_same_queue(other, order.side, order.constraint);
        self.lemma_same_account(other, account, order.side);
        self.lemma_same_prices(other, order.side);
        if self.orders@.dom().contains(target) {
            self.lemma_same_queue(other, order.side, self.orders@[target].constraint);
        }
    }

    /// Equal interest selects the same orders.
    pub proof fn lemma_same_selection(
        &self,
        other: &Self,
        account: AccountId,
        scope: MassCancelScope,
    )
        requires
            self.wf(),
            other.wf(),
            self.agrees(other),
        ensures
            self.selected(account, scope) == other.selected(account, scope),
            self.selected_count(account, scope) == other.selected_count(account, scope),
            self.mass_cancel_result(account, scope) == other.mass_cancel_result(account, scope),
            self.selected_orders(account, scope) == other.selected_orders(account, scope),
    {
        assert(self.selected(account, scope) =~= other.selected(account, scope));
        self.lemma_same_account(other, account, Side::Buy);
        self.lemma_same_account(other, account, Side::Sell);
    }
}

} // verus!
