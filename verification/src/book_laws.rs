//! Laws that relate several operations of the collection book.

use vstd::prelude::*;

use crate::book_agreement::lemma_sum_permuted;
use crate::book_queries::lists_orders;
use crate::book_state::{
    account_ids, account_ok, in_account, leaves, CallAuctionBook, RestingAuctionOrder,
    RestingOrders,
};
use crate::book_types::CallAuctionOrderSnapshot;
use crate::chain::member_sum;
use crate::domain::{AccountId, MassCancelScope, OrderId, Side};
use crate::ordered_map::MapKey;

verus! {

/// Lots of the first `count` listed orders.
pub open spec fn listed_lots(list: Seq<CallAuctionOrderSnapshot>, count: nat) -> int
    decreases count,
{
    if count == 0 {
        0
    } else {
        listed_lots(list, (count - 1) as nat) + list[count - 1].quantity.lots
    }
}

/// The sum of two lists is the sum of their concatenation.
pub(crate) proof fn lemma_sum_joined(
    amounts: Map<OrderId, int>,
    left: Seq<OrderId>,
    right: Seq<OrderId>,
)
    ensures
        member_sum(amounts, left + right) == member_sum(amounts, left) + member_sum(amounts, right),
    decreases right.len(),
{
    if right.len() == 0 {
        assert(left + right =~= left);
    } else {
        lemma_sum_joined(amounts, left, right.drop_last());
        assert((left + right).drop_last() =~= left + right.drop_last());
    }
}

/// Lots of listed active orders as a sum over their identities.
proof fn lemma_listed_sum(
    orders: RestingOrders,
    list: Seq<CallAuctionOrderSnapshot>,
    ids: Seq<OrderId>,
    count: nat,
)
    requires
        count <= list.len(),
        ids.len() == list.len(),
        forall|i: int|
            0 <= i < list.len() ==> (#[trigger] list[i]).order_id == ids[i]
                && orders.dom().contains(ids[i]) && list[i].quantity == orders[ids[i]].quantity,
    ensures
        listed_lots(list, count) == member_sum(leaves(orders), ids.take(count as int)),
    decreases count,
{
    if count > 0 {
        lemma_listed_sum(orders, list, ids, (count - 1) as nat);
        assert(ids.take(count as int).drop_last() =~= ids.take(count - 1));
        assert(list[count - 1].order_id == ids[count - 1]);
    }
}

impl CallAuctionBook {
    /// Members of one account list, when its side is selected.
    spec fn scope_ids(&self, account: AccountId, scope: MassCancelScope, side: Side) -> Seq<OrderId> {
        if scope.selects(side) {
            account_ids(self.orders@, self.account_side(account, side))
        } else {
            Seq::empty()
        }
    }

    /// What one account list holds.
    proof fn lemma_scope_ids(&self, account: AccountId, scope: MassCancelScope, side: Side)
        requires
            self.wf(),
        ensures
            self.scope_ids(account, scope, side).no_duplicates(),
            forall|id: OrderId|
                self.scope_ids(account, scope, side).contains(id) <==> scope.selects(side)
                    && #[trigger] in_account(self.orders@, id, account, side),
            scope.selects(side) ==> member_sum(
                leaves(self.orders@),
                self.scope_ids(account, scope, side),
            ) == self.account_side(account, side).total_quantity && self.scope_ids(
                account,
                scope,
                side,
            ).len() == self.account_side(account, side).order_count,
    {
        let index = self.account_side(account, side);
        assert(account_ok(self.orders@, index, account, side));
        reveal(account_ok);
        let ids = account_ids(self.orders@, index);
        assert forall|id: OrderId| ids.contains(id) implies #[trigger] in_account(
            self.orders@,
            id,
            account,
            side,
        ) by {
            let i = choose|i: int| 0 <= i < ids.len() && ids[i] == id;
            assert(in_account(self.orders@, ids[i], account, side));
        }
    }

    /// A mass cancel counts and sums exactly the orders that it lists.
    pub proof fn law_selection_totals(
        &self,
        account: AccountId,
        scope: MassCancelScope,
        list: Seq<CallAuctionOrderSnapshot>,
    )
        requires
            self.wf(),
            lists_orders(list, self.active(), self.selected(account, scope)),
        ensures
            list.len() == self.selected_count(account, scope),
            listed_lots(list, list.len()) == self.selected_lots(account, scope),
    {
        let orders = self.orders@;
        let buys = self.scope_ids(account, scope, Side::Buy);
        let sells = self.scope_ids(account, scope, Side::Sell);
        self.lemma_scope_ids(account, scope, Side::Buy);
        self.lemma_scope_ids(account, scope, Side::Sell);
        let both = buys + sells;
        let ids = list.map_values(|order: CallAuctionOrderSnapshot| order.order_id);
        let picked = self.selected(account, scope);
        assert forall|i: int| 0 <= i < list.len() implies (#[trigger] list[i]).order_id == ids[i]
            && orders.dom().contains(ids[i]) && list[i].quantity == orders[ids[i]].quantity by {
            assert(picked.contains(list[i].order_id));
            assert(self.active().dom().contains(list[i].order_id));
        }
        lemma_listed_sum(orders, list, ids, list.len());
        assert(ids.take(list.len() as int) =~= ids);
        assert forall|i: int, j: int|
            0 <= i < ids.len() && 0 <= j < ids.len() && i != j implies ids[i] != ids[j] by {
            assert(ids[i] == list[i].order_id && ids[j] == list[j].order_id);
            if i < j {
                assert(list[i].order_id.value < list[j].order_id.value);
            } else {
                assert(list[j].order_id.value < list[i].order_id.value);
            }
        }
        assert forall|i: int, j: int|
            0 <= i < both.len() && 0 <= j < both.len() && i != j implies both[i] != both[j] by {
            if i < buys.len() && j >= buys.len() {
                assert(buys.contains(both[i]));
                assert(sells.contains(both[j])) by {
                    assert(sells[j - buys.len()] == both[j]);
                }
                assert(in_account(orders, both[i], account, Side::Buy));
                assert(in_account(orders, both[j], account, Side::Sell));
            } else if j < buys.len() && i >= buys.len() {
                assert(buys.contains(both[j]));
                assert(sells.contains(both[i])) by {
                    assert(sells[i - buys.len()] == both[i]);
                }
                assert(in_account(orders, both[j], account, Side::Buy));
                assert(in_account(orders, both[i], account, Side::Sell));
            } else if i < buys.len() {
                assert(both[i] == buys[i] && both[j] == buys[j]);
            } else {
                assert(both[i] == sells[i - buys.len()] && both[j] == sells[j - buys.len()]);
            }
        }
        assert forall|id: OrderId| ids.contains(id) <==> both.contains(id) by {
            if ids.contains(id) {
                let i = choose|i: int| 0 <= i < ids.len() && ids[i] == id;
                assert(picked.contains(list[i].order_id));
                let side = orders[id].side;
                assert(in_account(orders, id, account, side));
                if side == Side::Buy {
                    assert(buys.contains(id));
                    let k = choose|k: int| 0 <= k < buys.len() && buys[k] == id;
                    assert(both[k] == id);
                } else {
                    assert(sells.contains(id));
                    let k = choose|k: int| 0 <= k < sells.len() && sells[k] == id;
                    assert(both[k + buys.len()] == id);
                }
            }
            if both.contains(id) {
                let k = choose|k: int| 0 <= k < both.len() && both[k] == id;
                if k < buys.len() {
                    assert(buys.contains(id)) by {
                        assert(buys[k] == id);
                    }
                    assert(in_account(orders, id, account, Side::Buy));
                } else {
                    assert(sells.contains(id)) by {
                        assert(sells[k - buys.len()] == id);
                    }
                    assert(in_account(orders, id, account, Side::Sell));
                }
                assert(picked.contains(id));
                let i = choose|i: int| 0 <= i < list.len() && (#[trigger] list[i]).order_id == id;
                assert(ids[i] == id);
            }
        }
        lemma_sum_permuted(leaves(orders), leaves(orders), ids, both);
        lemma_sum_joined(leaves(orders), buys, sells);
    }
}

/// The visible orders among the first `count` entries that a set picks.
spec fn picked_prefix(
    entries: Seq<(OrderId, RestingAuctionOrder)>,
    picked: Set<OrderId>,
    count: nat,
) -> Seq<CallAuctionOrderSnapshot>
    decreases count,
{
    if count == 0 {
        Seq::empty()
    } else {
        let rest = picked_prefix(entries, picked, (count - 1) as nat);
        if picked.contains(entries[count - 1].0) {
            rest.push(entries[count - 1].1.visible())
        } else {
            rest
        }
    }
}

impl CallAuctionBook {
    proof fn lemma_picked_prefix(&self, picked: Set<OrderId>, count: nat)
        requires
            self.wf(),
            count <= self.orders.entries@.len(),
        ensures
            ({
                let entries = self.orders.entries@;
                let list = picked_prefix(entries, picked, count);
                &&& forall|i: int|
                    0 <= i < list.len() ==> picked.contains((#[trigger] list[i]).order_id)
                        && self.active().dom().contains(list[i].order_id) && list[i]
                        == self.active()[list[i].order_id] && (count < entries.len()
                        ==> list[i].order_id.value < entries[count as int].0.value)
                &&& forall|i: int, j: int|
                    0 <= i < j < list.len() ==> (#[trigger] list[i]).order_id.value < (
                    #[trigger] list[j]).order_id.value
                &&& forall|e: int|
                    0 <= e < count && picked.contains((#[trigger] entries[e]).0) ==> exists|i: int|
                        0 <= i < list.len() && (#[trigger] list[i]).order_id == entries[e].0
            }),
        decreases count,
    {
        let entries = self.orders.entries@;
        self.orders.lemma_view();
        if count > 0 {
            let before = (count - 1) as nat;
            self.lemma_picked_prefix(picked, before);
            let rest = picked_prefix(entries, picked, before);
            let list = picked_prefix(entries, picked, count);
            let entry = entries[count - 1];
            assert(self.orders@.dom().contains(entries[count - 1].0));
            assert(self.order_ok(entry.0));
            if count < entries.len() {
                assert(entries[count - 1].0.rank() < entries[count as int].0.rank());
            }
            assert forall|i: int| 0 <= i < list.len() implies picked.contains(
                (#[trigger] list[i]).order_id,
            ) && self.active().dom().contains(list[i].order_id) && list[i]
                == self.active()[list[i].order_id] && (count < entries.len()
                ==> list[i].order_id.value < entries[count as int].0.value) by {
                if i < rest.len() {
                    assert(list[i] == rest[i]);
                }
            }
            assert forall|i: int, j: int| 0 <= i < j < list.len() implies (
            #[trigger] list[i]).order_id.value < (#[trigger] list[j]).order_id.value by {
                assert(list[i] == rest[i]);
                if j < rest.len() {
                    assert(list[j] == rest[j]);
                }
            }
            assert forall|e: int|
                0 <= e < count && picked.contains((#[trigger] entries[e]).0) implies exists|i: int|
                0 <= i < list.len() && (#[trigger] list[i]).order_id == entries[e].0 by {
                if e < before {
                    let i = choose|i: int|
                        0 <= i < rest.len() && (#[trigger] rest[i]).order_id == entries[e].0;
                    assert(list[i].order_id == entries[e].0);
                } else {
                    assert(list[rest.len() as int].order_id == entries[e].0);
                }
            }
        }
    }

    /// The selected orders of an account can be listed by identity.
    pub proof fn lemma_selected_listed(&self, account: AccountId, scope: MassCancelScope)
        requires
            self.wf(),
        ensures
            lists_orders(
                self.selected_orders(account, scope),
                self.active(),
                self.selected(account, scope),
            ),
    {
        let picked = self.selected(account, scope);
        let entries = self.orders.entries@;
        let list = picked_prefix(entries, picked, entries.len());
        self.lemma_picked_prefix(picked, entries.len());
        self.orders.lemma_view();
        assert forall|id: OrderId| #[trigger] picked.contains(id) implies exists|i: int|
            0 <= i < list.len() && (#[trigger] list[i]).order_id == id by {
            assert(self.orders@.dom().contains(id));
            let e = choose|e: int| 0 <= e < entries.len() && (#[trigger] entries[e]).0 == id;
            assert(picked.contains(entries[e].0));
        }
        assert(lists_orders(list, self.active(), picked));
    }
}

} // verus!
