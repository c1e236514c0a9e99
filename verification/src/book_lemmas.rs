//! How the queues and account lists of the book follow a change of one order.

use vstd::prelude::*;

use crate::auction::AuctionOrderConstraint;
use crate::book_state::{
    account_ids, account_links, account_ok, account_spells, ascending, empty_queue, empty_side,
    in_account, in_queue, leaves, lemma_account_ok, lemma_queue_ok, queue_ids, queue_links,
    queue_ok, queue_spells, AuctionAccountSideIndex, AuctionQueue, RestingAuctionOrder,
    RestingOrders,
};
use crate::chain::{
    lemma_list_facts, lemma_list_frame, lemma_list_push, lemma_list_remove, lemma_member_facts,
    lemma_sum_bounds, lemma_sum_frame, lemma_sum_push, lemma_sum_remove, lemma_sum_update,
    list_spells, member_sum, Link,
};
use crate::domain::{AccountId, OrderId, Side};

verus! {

/// Two states of one order that its queue cannot tell apart.
pub open spec fn same_in_queue(left: RestingAuctionOrder, right: RestingAuctionOrder) -> bool {
    &&& left.previous == right.previous
    &&& left.next == right.next
    &&& left.side == right.side
    &&& left.constraint == right.constraint
    &&& left.priority_sequence == right.priority_sequence
    &&& left.quantity == right.quantity
}

/// Two states of one order that its account list cannot tell apart.
pub open spec fn same_in_account(left: RestingAuctionOrder, right: RestingAuctionOrder) -> bool {
    &&& left.account_previous == right.account_previous
    &&& left.account_next == right.account_next
    &&& left.side == right.side
    &&& left.account_id == right.account_id
    &&& left.quantity == right.quantity
}

/// Active orders of one side and constraint.
pub open spec fn queue_members(
    orders: RestingOrders,
    side: Side,
    constraint: AuctionOrderConstraint,
) -> Set<OrderId> {
    Set::new(|id: OrderId| in_queue(orders, id, side, constraint))
}

/// Active orders of one account and side.
pub open spec fn account_members(orders: RestingOrders, account: AccountId, side: Side) -> Set<
    OrderId,
> {
    Set::new(|id: OrderId| in_account(orders, id, account, side))
}

/// An agreeing queue lists its members.
pub proof fn lemma_queue_spells(
    orders: RestingOrders,
    queue: AuctionQueue,
    side: Side,
    constraint: AuctionOrderConstraint,
)
    requires
        queue_ok(orders, queue, side, constraint),
    ensures
        queue_spells(orders, queue, side, constraint, queue_ids(orders, queue)),
        list_spells(
            queue_links(orders),
            queue_members(orders, side, constraint),
            queue.head,
            queue.tail,
            queue_ids(orders, queue),
        ),
{
    reveal(queue_ok);
    let ids = queue_ids(orders, queue);
    let members = queue_members(orders, side, constraint);
    assert forall|i: int| 0 <= i < ids.len() implies members.contains(#[trigger] ids[i]) by {
        assert(in_queue(orders, ids[i], side, constraint));
    }
    assert forall|id: OrderId| #[trigger] members.contains(id) implies ids.contains(id) by {
        assert(in_queue(orders, id, side, constraint));
    }
}

/// An agreeing account list holds its members.
pub proof fn lemma_account_spells(
    orders: RestingOrders,
    index: AuctionAccountSideIndex,
    account: AccountId,
    side: Side,
)
    requires
        account_ok(orders, index, account, side),
    ensures
        account_spells(orders, index, account, side, account_ids(orders, index)),
        list_spells(
            account_links(orders),
            account_members(orders, account, side),
            index.head,
            index.tail,
            account_ids(orders, index),
        ),
{
    reveal(account_ok);
    let ids = account_ids(orders, index);
    let members = account_members(orders, account, side);
    assert forall|i: int| 0 <= i < ids.len() implies members.contains(#[trigger] ids[i]) by {
        assert(in_account(orders, ids[i], account, side));
    }
    assert forall|id: OrderId| #[trigger] members.contains(id) implies ids.contains(id) by {
        assert(in_account(orders, id, account, side));
    }
}

/// Ends of an agreeing queue.
pub proof fn lemma_queue_ends(
    orders: RestingOrders,
    queue: AuctionQueue,
    side: Side,
    constraint: AuctionOrderConstraint,
)
    requires
        queue_ok(orders, queue, side, constraint),
    ensures
        queue.tail matches Some(last) ==> in_queue(orders, last, side, constraint)
            && orders[last].next is None,
        queue.head matches Some(first) ==> in_queue(orders, first, side, constraint),
        queue.tail is Some <==> queue.order_count > 0,
        queue.head is Some <==> queue.order_count > 0,
{
    lemma_queue_spells(orders, queue, side, constraint);
    lemma_list_facts(
        queue_links(orders),
        queue_members(orders, side, constraint),
        queue.head,
        queue.tail,
        queue_ids(orders, queue),
    );
}

/// Ends of an agreeing account list.
pub proof fn lemma_account_ends(
    orders: RestingOrders,
    index: AuctionAccountSideIndex,
    account: AccountId,
    side: Side,
)
    requires
        account_ok(orders, index, account, side),
    ensures
        index.tail matches Some(last) ==> in_account(orders, last, account, side)
            && orders[last].account_next is None,
        index.head matches Some(first) ==> in_account(orders, first, account, side),
        index.tail is Some <==> index.order_count > 0,
        index.head is Some <==> index.order_count > 0,
{
    lemma_account_spells(orders, index, account, side);
    lemma_list_facts(
        account_links(orders),
        account_members(orders, account, side),
        index.head,
        index.tail,
        account_ids(orders, index),
    );
}

/// Neighbours and aggregates around one queued order.
pub proof fn lemma_queue_member(
    orders: RestingOrders,
    queue: AuctionQueue,
    side: Side,
    constraint: AuctionOrderConstraint,
    id: OrderId,
)
    requires
        queue_ok(orders, queue, side, constraint),
        in_queue(orders, id, side, constraint),
    ensures
        queue.order_count > 0,
        queue.total_quantity >= orders[id].quantity.lots,
        orders[id].previous matches Some(other) ==> in_queue(orders, other, side, constraint)
            && other != id && orders[other].next == Some(id),
        orders[id].next matches Some(other) ==> in_queue(orders, other, side, constraint) && other
            != id && orders[other].previous == Some(id),
        orders[id].previous is None <==> queue.head == Some(id),
        orders[id].next is None <==> queue.tail == Some(id),
        orders[id].previous is Some ==> orders[id].previous != orders[id].next,
{
    lemma_queue_spells(orders, queue, side, constraint);
    let ids = queue_ids(orders, queue);
    let members = queue_members(orders, side, constraint);
    assert(members.contains(id));
    let index = lemma_member_facts(
        queue_links(orders),
        members,
        queue.head,
        queue.tail,
        ids,
        id,
    );
    assert forall|i: int| 0 <= i < ids.len() implies 0 <= leaves(orders)[#[trigger] ids[i]] by {
        assert(in_queue(orders, ids[i], side, constraint));
    }
    lemma_sum_bounds(leaves(orders), ids, index);
    match orders[id].previous {
        Some(other) => {
            assert(members.contains(other));
        },
        None => {},
    }
    match orders[id].next {
        Some(other) => {
            assert(members.contains(other));
        },
        None => {},
    }
}

/// Neighbours and aggregates around one order of an account.
pub proof fn lemma_account_member(
    orders: RestingOrders,
    index: AuctionAccountSideIndex,
    account: AccountId,
    side: Side,
    id: OrderId,
)
    requires
        account_ok(orders, index, account, side),
        in_account(orders, id, account, side),
    ensures
        index.order_count > 0,
        index.total_quantity >= orders[id].quantity.lots,
        orders[id].account_previous matches Some(other) ==> in_account(
            orders,
            other,
            account,
            side,
        ) && other != id && orders[other].account_next == Some(id),
        orders[id].account_next matches Some(other) ==> in_account(orders, other, account, side)
            && other != id && orders[other].account_previous == Some(id),
        orders[id].account_previous is None <==> index.head == Some(id),
        orders[id].account_next is None <==> index.tail == Some(id),
        orders[id].account_previous is Some ==> orders[id].account_previous
            != orders[id].account_next,
{
    lemma_account_spells(orders, index, account, side);
    let ids = account_ids(orders, index);
    let members = account_members(orders, account, side);
    assert(members.contains(id));
    let position = lemma_member_facts(
        account_links(orders),
        members,
        index.head,
        index.tail,
        ids,
        id,
    );
    assert forall|i: int| 0 <= i < ids.len() implies 0 <= leaves(orders)[#[trigger] ids[i]] by {
        assert(in_account(orders, ids[i], account, side));
    }
    lemma_sum_bounds(leaves(orders), ids, position);
    match orders[id].account_previous {
        Some(other) => {
            assert(members.contains(other));
        },
        None => {},
    }
    match orders[id].account_next {
        Some(other) => {
            assert(members.contains(other));
        },
        None => {},
    }
}

/// Unchanged sequences keep rising.
pub proof fn lemma_ascending_frame(before: RestingOrders, after: RestingOrders, ids: Seq<OrderId>)
    requires
        ascending(before, ids),
        forall|i: int|
            0 <= i < ids.len() ==> after[#[trigger] ids[i]].priority_sequence
                == before[ids[i]].priority_sequence,
    ensures
        ascending(after, ids),
{
    reveal(ascending);
}

/// A list that ends with the highest sequence keeps rising.
pub proof fn lemma_ascending_push(orders: RestingOrders, ids: Seq<OrderId>, id: OrderId)
    requires
        ascending(orders, ids),
        forall|i: int|
            0 <= i < ids.len() ==> orders[#[trigger] ids[i]].priority_sequence
                < orders[id].priority_sequence,
    ensures
        ascending(orders, ids.push(id)),
{
    reveal(ascending);
    let grown = ids.push(id);
    assert forall|i: int, j: int| 0 <= i < j < grown.len() implies orders[
        #[trigger] grown[i]].priority_sequence < orders[#[trigger] grown[j]].priority_sequence by {
        assert(grown[i] == ids[i]);
        if j < ids.len() {
            assert(grown[j] == ids[j]);
        }
    }
}

/// A list that loses a member keeps rising.
pub proof fn lemma_ascending_remove(orders: RestingOrders, ids: Seq<OrderId>, index: int)
    requires
        ascending(orders, ids),
        0 <= index < ids.len(),
    ensures
        ascending(orders, ids.remove(index)),
{
    reveal(ascending);
    let rest = ids.remove(index);
    assert forall|i: int, j: int| 0 <= i < j < rest.len() implies orders[
        #[trigger] rest[i]].priority_sequence < orders[#[trigger] rest[j]].priority_sequence by {
        let a = if i < index {
            i
        } else {
            i + 1
        };
        let b = if j < index {
            j
        } else {
            j + 1
        };
        assert(rest[i] == ids[a] && rest[j] == ids[b]);
    }
}

/// A queue whose members do not change keeps agreeing.
pub proof fn lemma_queue_frame(
    before: RestingOrders,
    after: RestingOrders,
    queue: AuctionQueue,
    side: Side,
    constraint: AuctionOrderConstraint,
)
    requires
        queue_ok(before, queue, side, constraint),
        forall|id: OrderId| #[trigger]
            in_queue(after, id, side, constraint) ==> in_queue(before, id, side, constraint),
        forall|id: OrderId| #[trigger]
            in_queue(before, id, side, constraint) ==> after.dom().contains(id) && same_in_queue(
                before[id],
                after[id],
            ),
    ensures
        queue_ok(after, queue, side, constraint),
{
    lemma_queue_spells(before, queue, side, constraint);
    let ids = queue_ids(before, queue);
    let members = queue_members(before, side, constraint);
    assert(members =~= queue_members(after, side, constraint)) by {
        assert forall|id: OrderId| members.contains(id) == queue_members(
            after,
            side,
            constraint,
        ).contains(id) by {
            assert(in_queue(before, id, side, constraint) == in_queue(after, id, side, constraint));
        }
    }
    assert forall|id: OrderId| #[trigger] members.contains(id) implies queue_links(
        after,
    ).dom().contains(id) && queue_links(after)[id] == queue_links(before)[id] by {
        assert(in_queue(before, id, side, constraint));
    }
    lemma_list_frame(
        queue_links(before),
        queue_links(after),
        members,
        queue.head,
        queue.tail,
        ids,
    );
    assert forall|i: int| 0 <= i < ids.len() implies leaves(after)[#[trigger] ids[i]] == leaves(
        before,
    )[ids[i]] && in_queue(after, ids[i], side, constraint) by {
        assert(in_queue(before, ids[i], side, constraint));
    }
    lemma_sum_frame(leaves(before), leaves(after), ids);
    assert forall|i: int| 0 <= i < ids.len() implies after[#[trigger] ids[i]].priority_sequence
        == before[ids[i]].priority_sequence by {
        assert(in_queue(before, ids[i], side, constraint));
    }
    lemma_ascending_frame(before, after, ids);
    assert forall|id: OrderId| #[trigger] in_queue(
        after,
        id,
        side,
        constraint,
    ) implies ids.contains(id) by {
        assert(members.contains(id));
    }
    lemma_queue_ok(after, queue, side, constraint, ids);
}

/// An account list whose members do not change keeps agreeing.
pub proof fn lemma_account_frame(
    before: RestingOrders,
    after: RestingOrders,
    index: AuctionAccountSideIndex,
    account: AccountId,
    side: Side,
)
    requires
        account_ok(before, index, account, side),
        forall|id: OrderId| #[trigger]
            in_account(after, id, account, side) ==> in_account(before, id, account, side),
        forall|id: OrderId| #[trigger]
            in_account(before, id, account, side) ==> after.dom().contains(id) && same_in_account(
                before[id],
                after[id],
            ),
    ensures
        account_ok(after, index, account, side),
{
    lemma_account_spells(before, index, account, side);
    let ids = account_ids(before, index);
    let members = account_members(before, account, side);
    assert(members =~= account_members(after, account, side)) by {
        assert forall|id: OrderId| members.contains(id) == account_members(
            after,
            account,
            side,
        ).contains(id) by {
            assert(in_account(before, id, account, side) == in_account(after, id, account, side));
        }
    }
    assert forall|id: OrderId| #[trigger] members.contains(id) implies account_links(
        after,
    ).dom().contains(id) && account_links(after)[id] == account_links(before)[id] by {
        assert(in_account(before, id, account, side));
    }
    lemma_list_frame(
        account_links(before),
        account_links(after),
        members,
        index.head,
        index.tail,
        ids,
    );
    assert forall|i: int| 0 <= i < ids.len() implies leaves(after)[#[trigger] ids[i]] == leaves(
        before,
    )[ids[i]] && in_account(after, ids[i], account, side) by {
        assert(in_account(before, ids[i], account, side));
    }
    lemma_sum_frame(leaves(before), leaves(after), ids);
    assert forall|id: OrderId| #[trigger] in_account(
        after,
        id,
        account,
        side,
    ) implies ids.contains(id) by {
        assert(members.contains(id));
    }
    lemma_account_ok(after, index, account, side, ids);
}

/// Appending an order with the highest sequence extends its queue.
pub proof fn lemma_queue_push(
    before: RestingOrders,
    after: RestingOrders,
    queue: AuctionQueue,
    side: Side,
    constraint: AuctionOrderConstraint,
    id: OrderId,
    extended: AuctionQueue,
)
    requires
        queue_ok(before, queue, side, constraint),
        !before.dom().contains(id),
        in_queue(after, id, side, constraint),
        after[id].previous == queue.tail,
        after[id].next is None,
        forall|other: OrderId| #[trigger]
            in_queue(after, other, side, constraint) && other != id ==> in_queue(
                before,
                other,
                side,
                constraint,
            ),
        forall|other: OrderId| #[trigger]
            in_queue(before, other, side, constraint) ==> {
                &&& after.dom().contains(other)
                &&& same_in_queue(
                    after[other],
                    RestingAuctionOrder {
                        next: if queue.tail == Some(other) {
                            Some(id)
                        } else {
                            before[other].next
                        },
                        ..before[other]
                    },
                )
                &&& before[other].priority_sequence < after[id].priority_sequence
            },
        extended == (AuctionQueue {
            head: if queue.head is None {
                Some(id)
            } else {
                queue.head
            },
            tail: Some(id),
            total_quantity: (queue.total_quantity + after[id].quantity.lots) as u128,
            order_count: (queue.order_count + 1) as u64,
        }),
        queue.total_quantity + after[id].quantity.lots <= u128::MAX,
        queue.order_count + 1 <= u64::MAX,
    ensures
        queue_ok(after, extended, side, constraint),
{
    lemma_queue_spells(before, queue, side, constraint);
    let ids = queue_ids(before, queue);
    let members = queue_members(before, side, constraint);
    assert(!members.contains(id));
    assert forall|other: OrderId| #[trigger] members.contains(other) implies queue_links(
        after,
    ).dom().contains(other) && queue_links(after)[other] == (Link {
        previous: queue_links(before)[other].previous,
        next: if queue.tail == Some(other) {
            Some(id)
        } else {
            queue_links(before)[other].next
        },
    }) by {
        assert(in_queue(before, other, side, constraint));
    }
    lemma_list_push(
        queue_links(before),
        queue_links(after),
        members,
        queue.head,
        queue.tail,
        ids,
        id,
    );
    let grown = ids.push(id);
    assert forall|i: int| 0 <= i < ids.len() implies leaves(after)[#[trigger] ids[i]] == leaves(
        before,
    )[ids[i]] by {
        assert(in_queue(before, ids[i], side, constraint));
    }
    lemma_sum_frame(leaves(before), leaves(after), ids);
    lemma_sum_push(leaves(after), ids, id);
    assert forall|i: int| 0 <= i < grown.len() implies in_queue(
        after,
        #[trigger] grown[i],
        side,
        constraint,
    ) by {
        if i < ids.len() {
            assert(in_queue(before, ids[i], side, constraint));
        }
    }
    assert forall|i: int| 0 <= i < ids.len() implies after[#[trigger] ids[i]].priority_sequence
        == before[ids[i]].priority_sequence && before[ids[i]].priority_sequence
        < after[id].priority_sequence by {
        assert(in_queue(before, ids[i], side, constraint));
    }
    lemma_ascending_frame(before, after, ids);
    lemma_ascending_push(after, ids, id);
    assert forall|other: OrderId| #[trigger] in_queue(
        after,
        other,
        side,
        constraint,
    ) implies grown.contains(other) by {
        if other == id {
            assert(grown[ids.len() as int] == id);
        } else {
            assert(members.contains(other));
            let i = choose|i: int| 0 <= i < ids.len() && ids[i] == other;
            assert(grown[i] == other);
        }
    }
    lemma_queue_ok(after, extended, side, constraint, grown);
}

/// Appending an order extends the list of its account.
pub proof fn lemma_account_push(
    before: RestingOrders,
    after: RestingOrders,
    index: AuctionAccountSideIndex,
    account: AccountId,
    side: Side,
    id: OrderId,
    extended: AuctionAccountSideIndex,
)
    requires
        account_ok(before, index, account, side),
        !before.dom().contains(id),
        in_account(after, id, account, side),
        after[id].account_previous == index.tail,
        after[id].account_next is None,
        forall|other: OrderId| #[trigger]
            in_account(after, other, account, side) && other != id ==> in_account(
                before,
                other,
                account,
                side,
            ),
        forall|other: OrderId| #[trigger]
            in_account(before, other, account, side) ==> after.dom().contains(other)
                && same_in_account(
                after[other],
                RestingAuctionOrder {
                    account_next: if index.tail == Some(other) {
                        Some(id)
                    } else {
                        before[other].account_next
                    },
                    ..before[other]
                },
            ),
        extended == (AuctionAccountSideIndex {
            head: if index.head is None {
                Some(id)
            } else {
                index.head
            },
            tail: Some(id),
            total_quantity: (index.total_quantity + after[id].quantity.lots) as u128,
            order_count: (index.order_count + 1) as usize,
        }),
        index.total_quantity + after[id].quantity.lots <= u128::MAX,
        index.order_count + 1 <= usize::MAX,
    ensures
        account_ok(after, extended, account, side),
{
    lemma_account_spells(before, index, account, side);
    let ids = account_ids(before, index);
    let members = account_members(before, account, side);
    assert(!members.contains(id));
    assert forall|other: OrderId| #[trigger] members.contains(other) implies account_links(
        after,
    ).dom().contains(other) && account_links(after)[other] == (Link {
        previous: account_links(before)[other].previous,
        next: if index.tail == Some(other) {
            Some(id)
        } else {
            account_links(before)[other].next
        },
    }) by {
        assert(in_account(before, other, account, side));
    }
    lemma_list_push(
        account_links(before),
        account_links(after),
        members,
        index.head,
        index.tail,
        ids,
        id,
    );
    let grown = ids.push(id);
    assert forall|i: int| 0 <= i < ids.len() implies leaves(after)[#[trigger] ids[i]] == leaves(
        before,
    )[ids[i]] by {
        assert(in_account(before, ids[i], account, side));
    }
    lemma_sum_frame(leaves(before), leaves(after), ids);
    lemma_sum_push(leaves(after), ids, id);
    assert forall|i: int| 0 <= i < grown.len() implies in_account(
        after,
        #[trigger] grown[i],
        account,
        side,
    ) by {
        if i < ids.len() {
            assert(in_account(before, ids[i], account, side));
        }
    }
    assert forall|other: OrderId| #[trigger] in_account(
        after,
        other,
        account,
        side,
    ) implies grown.contains(other) by {
        if other == id {
            assert(grown[ids.len() as int] == id);
        } else {
            assert(members.contains(other));
            let i = choose|i: int| 0 <= i < ids.len() && ids[i] == other;
            assert(grown[i] == other);
        }
    }
    lemma_account_ok(after, extended, account, side, grown);
}

/// The queue that is left when one order leaves it.
pub open spec fn queue_without(queue: AuctionQueue, order: RestingAuctionOrder) -> AuctionQueue {
    AuctionQueue {
        head: if queue.head == Some(order.order_id) {
            order.next
        } else {
            queue.head
        },
        tail: if queue.tail == Some(order.order_id) {
            order.previous
        } else {
            queue.tail
        },
        total_quantity: (queue.total_quantity - order.quantity.lots) as u128,
        order_count: (queue.order_count - 1) as u64,
    }
}

/// The account list that is left when one order leaves it.
pub open spec fn side_without(
    index: AuctionAccountSideIndex,
    order: RestingAuctionOrder,
) -> AuctionAccountSideIndex {
    AuctionAccountSideIndex {
        head: if index.head == Some(order.order_id) {
            order.account_next
        } else {
            index.head
        },
        tail: if index.tail == Some(order.order_id) {
            order.account_previous
        } else {
            index.tail
        },
        total_quantity: (index.total_quantity - order.quantity.lots) as u128,
        order_count: (index.order_count - 1) as usize,
    }
}

/// Unlinking an order shortens its queue.
pub proof fn lemma_queue_remove(
    before: RestingOrders,
    after: RestingOrders,
    queue: AuctionQueue,
    side: Side,
    constraint: AuctionOrderConstraint,
    id: OrderId,
)
    requires
        queue_ok(before, queue, side, constraint),
        in_queue(before, id, side, constraint),
        before[id].order_id == id,
        !after.dom().contains(id),
        forall|other: OrderId| #[trigger]
            in_queue(after, other, side, constraint) ==> in_queue(before, other, side, constraint),
        forall|other: OrderId| #[trigger]
            in_queue(before, other, side, constraint) && other != id ==> after.dom().contains(other)
                && same_in_queue(
                after[other],
                RestingAuctionOrder {
                    previous: if before[id].next == Some(other) {
                        before[id].previous
                    } else {
                        before[other].previous
                    },
                    next: if before[id].previous == Some(other) {
                        before[id].next
                    } else {
                        before[other].next
                    },
                    ..before[other]
                },
            ),
    ensures
        queue_ok(after, queue_without(queue, before[id]), side, constraint),
        queue.order_count == 1 ==> queue_without(queue, before[id])
            == empty_queue(),
{
    lemma_queue_member(before, queue, side, constraint, id);
    lemma_queue_spells(before, queue, side, constraint);
    let ids = queue_ids(before, queue);
    let members = queue_members(before, side, constraint);
    let left = queue_without(queue, before[id]);
    assert(members.contains(id));
    assert forall|other: OrderId| #[trigger] members.contains(other) && other
        != id implies queue_links(after).dom().contains(other) && queue_links(after)[other] == (
    Link {
        previous: if queue_links(before)[id].next == Some(other) {
            queue_links(before)[id].previous
        } else {
            queue_links(before)[other].previous
        },
        next: if queue_links(before)[id].previous == Some(other) {
            queue_links(before)[id].next
        } else {
            queue_links(before)[other].next
        },
    }) by {
        assert(in_queue(before, other, side, constraint));
    }
    let index = lemma_list_remove(
        queue_links(before),
        queue_links(after),
        members,
        queue.head,
        queue.tail,
        ids,
        id,
    );
    let rest = ids.remove(index);
    assert forall|i: int| 0 <= i < rest.len() implies leaves(after)[#[trigger] rest[i]] == leaves(
        before,
    )[rest[i]] && in_queue(after, rest[i], side, constraint) by {
        assert(members.remove(id).contains(rest[i]));
        assert(in_queue(before, rest[i], side, constraint));
    }
    lemma_sum_frame(leaves(before), leaves(after), rest);
    lemma_sum_remove(leaves(before), ids, index);
    lemma_ascending_remove(before, ids, index);
    assert forall|i: int| 0 <= i < rest.len() implies after[#[trigger] rest[i]].priority_sequence
        == before[rest[i]].priority_sequence by {
        assert(members.remove(id).contains(rest[i]));
        assert(in_queue(before, rest[i], side, constraint));
    }
    lemma_ascending_frame(before, after, rest);
    assert forall|other: OrderId| #[trigger] in_queue(
        after,
        other,
        side,
        constraint,
    ) implies rest.contains(other) by {
        assert(in_queue(before, other, side, constraint));
        assert(members.remove(id).contains(other));
    }
    lemma_queue_ok(after, left, side, constraint, rest);
    if queue.order_count == 1 {
        assert(rest.len() == 0);
        assert(member_sum(leaves(after), rest) == 0);
    }
}

/// Unlinking an order shortens the list of its account.
pub proof fn lemma_account_remove(
    before: RestingOrders,
    after: RestingOrders,
    index: AuctionAccountSideIndex,
    account: AccountId,
    side: Side,
    id: OrderId,
)
    requires
        account_ok(before, index, account, side),
        in_account(before, id, account, side),
        before[id].order_id == id,
        !after.dom().contains(id),
        forall|other: OrderId| #[trigger]
            in_account(after, other, account, side) ==> in_account(before, other, account, side),
        forall|other: OrderId| #[trigger]
            in_account(before, other, account, side) && other != id ==> after.dom().contains(other)
                && same_in_account(
                after[other],
                RestingAuctionOrder {
                    account_previous: if before[id].account_next == Some(other) {
                        before[id].account_previous
                    } else {
                        before[other].account_previous
                    },
                    account_next: if before[id].account_previous == Some(other) {
                        before[id].account_next
                    } else {
                        before[other].account_next
                    },
                    ..before[other]
                },
            ),
    ensures
        account_ok(after, side_without(index, before[id]), account, side),
        index.order_count == 1 ==> side_without(index, before[id])
            == empty_side(),
{
    lemma_account_member(before, index, account, side, id);
    lemma_account_spells(before, index, account, side);
    let ids = account_ids(before, index);
    let members = account_members(before, account, side);
    let left = side_without(index, before[id]);
    assert(members.contains(id));
    assert forall|other: OrderId| #[trigger] members.contains(other) && other
        != id implies account_links(after).dom().contains(other) && account_links(after)[other] == (
    Link {
        previous: if account_links(before)[id].next == Some(other) {
            account_links(before)[id].previous
        } else {
            account_links(before)[other].previous
        },
        next: if account_links(before)[id].previous == Some(other) {
            account_links(before)[id].next
        } else {
            account_links(before)[other].next
        },
    }) by {
        assert(in_account(before, other, account, side));
    }
    let position = lemma_list_remove(
        account_links(before),
        account_links(after),
        members,
        index.head,
        index.tail,
        ids,
        id,
    );
    let rest = ids.remove(position);
    assert forall|i: int| 0 <= i < rest.len() implies leaves(after)[#[trigger] rest[i]] == leaves(
        before,
    )[rest[i]] && in_account(after, rest[i], account, side) by {
        assert(members.remove(id).contains(rest[i]));
        assert(in_account(before, rest[i], account, side));
    }
    lemma_sum_frame(leaves(before), leaves(after), rest);
    lemma_sum_remove(leaves(before), ids, position);
    assert forall|other: OrderId| #[trigger] in_account(
        after,
        other,
        account,
        side,
    ) implies rest.contains(other) by {
        assert(in_account(before, other, account, side));
        assert(members.remove(id).contains(other));
    }
    lemma_account_ok(after, left, account, side, rest);
    if index.order_count == 1 {
        assert(rest.len() == 0);
        assert(member_sum(leaves(after), rest) == 0);
    }
}

/// Changing the leaves of one order changes the total of its queue.
pub proof fn lemma_queue_resize(
    before: RestingOrders,
    after: RestingOrders,
    queue: AuctionQueue,
    side: Side,
    constraint: AuctionOrderConstraint,
    id: OrderId,
    resized: AuctionQueue,
)
    requires
        queue_ok(before, queue, side, constraint),
        in_queue(before, id, side, constraint),
        after == before.insert(
            id,
            RestingAuctionOrder { quantity: after[id].quantity, ..before[id] },
        ),
        resized == (AuctionQueue {
            total_quantity: (queue.total_quantity - before[id].quantity.lots
                + after[id].quantity.lots) as u128,
            ..queue
        }),
        0 <= queue.total_quantity - before[id].quantity.lots + after[id].quantity.lots <= u128::MAX,
    ensures
        queue_ok(after, resized, side, constraint),
{
    lemma_queue_spells(before, queue, side, constraint);
    let ids = queue_ids(before, queue);
    let members = queue_members(before, side, constraint);
    assert(members.contains(id));
    assert(members =~= queue_members(after, side, constraint));
    assert(queue_links(after) =~= queue_links(before));
    let index = lemma_member_facts(
        queue_links(before),
        members,
        queue.head,
        queue.tail,
        ids,
        id,
    );
    assert forall|i: int| 0 <= i < ids.len() && i != index implies leaves(after)[
        #[trigger] ids[i]] == leaves(before)[ids[i]] by {
        assert(in_queue(before, ids[i], side, constraint));
        if i < index {
            assert(ids[i] != ids[index]);
        } else {
            assert(ids[index] != ids[i]);
        }
    }
    lemma_sum_update(leaves(before), leaves(after), ids, index);
    assert forall|i: int| 0 <= i < ids.len() implies after[#[trigger] ids[i]].priority_sequence
        == before[ids[i]].priority_sequence by {
        assert(in_queue(before, ids[i], side, constraint));
    }
    lemma_ascending_frame(before, after, ids);
    assert forall|i: int| 0 <= i < ids.len() implies in_queue(
        after,
        #[trigger] ids[i],
        side,
        constraint,
    ) by {
        assert(in_queue(before, ids[i], side, constraint));
    }
    assert forall|other: OrderId| #[trigger] in_queue(
        after,
        other,
        side,
        constraint,
    ) implies ids.contains(other) by {
        assert(members.contains(other));
    }
    lemma_queue_ok(after, resized, side, constraint, ids);
}

/// Changing the leaves of one order changes the total of its account list.
pub proof fn lemma_account_resize(
    before: RestingOrders,
    after: RestingOrders,
    index: AuctionAccountSideIndex,
    account: AccountId,
    side: Side,
    id: OrderId,
    resized: AuctionAccountSideIndex,
)
    requires
        account_ok(before, index, account, side),
        in_account(before, id, account, side),
        after == before.insert(
            id,
            RestingAuctionOrder { quantity: after[id].quantity, ..before[id] },
        ),
        resized == (AuctionAccountSideIndex {
            total_quantity: (index.total_quantity - before[id].quantity.lots
                + after[id].quantity.lots) as u128,
            ..index
        }),
        0 <= index.total_quantity - before[id].quantity.lots + after[id].quantity.lots <= u128::MAX,
    ensures
        account_ok(after, resized, account, side),
{
    lemma_account_spells(before, index, account, side);
    let ids = account_ids(before, index);
    let members = account_members(before, account, side);
    assert(members.contains(id));
    assert(members =~= account_members(after, account, side));
    assert(account_links(after) =~= account_links(before));
    let position = lemma_member_facts(
        account_links(before),
        members,
        index.head,
        index.tail,
        ids,
        id,
    );
    assert forall|i: int| 0 <= i < ids.len() && i != position implies leaves(after)[
        #[trigger] ids[i]] == leaves(before)[ids[i]] by {
        assert(in_account(before, ids[i], account, side));
        if i < position {
            assert(ids[i] != ids[position]);
        } else {
            assert(ids[position] != ids[i]);
        }
    }
    lemma_sum_update(leaves(before), leaves(after), ids, position);
    assert forall|i: int| 0 <= i < ids.len() implies in_account(
        after,
        #[trigger] ids[i],
        account,
        side,
    ) by {
        assert(in_account(before, ids[i], account, side));
    }
    assert forall|other: OrderId| #[trigger] in_account(
        after,
        other,
        account,
        side,
    ) implies ids.contains(other) by {
        assert(members.contains(other));
    }
    lemma_account_ok(after, resized, account, side, ids);
}

} // verus!
