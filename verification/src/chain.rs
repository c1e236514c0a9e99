//! Doubly linked lists threaded through a map of orders.
//!
//! A list is a head, a tail and, for every member, the identities of its two
//! neighbours. `chain` ties such links to the sequence of members they spell.

use vstd::prelude::*;

use crate::domain::OrderId;

verus! {

/// Neighbours of one list member.
#[derive(Clone, Copy, Debug, PartialEq, Eq, Structural)]
pub struct Link {
    /// Member before this one.
    pub previous: Option<OrderId>,
    /// Member after this one.
    pub next: Option<OrderId>,
}

/// The neighbours that the member at `index` of `ids` must have.
pub open spec fn link_at(ids: Seq<OrderId>, index: int) -> Link {
    Link {
        previous: if index <= 0 {
            None
        } else {
            Some(ids[index - 1])
        },
        next: if index + 1 >= ids.len() {
            None
        } else {
            Some(ids[index + 1])
        },
    }
}

/// First member of a list.
pub open spec fn first_of(ids: Seq<OrderId>) -> Option<OrderId> {
    if ids.len() == 0 {
        None
    } else {
        Some(ids[0])
    }
}

/// Last member of a list.
pub open spec fn last_of(ids: Seq<OrderId>) -> Option<OrderId> {
    if ids.len() == 0 {
        None
    } else {
        Some(ids[ids.len() - 1])
    }
}

/// The member at `index` is present with the neighbours that its place demands.
pub open spec fn linked(links: Map<OrderId, Link>, ids: Seq<OrderId>, index: int) -> bool {
    links.dom().contains(ids[index]) && links[ids[index]] == link_at(ids, index)
}

/// The links, head and tail spell exactly the members `ids`, each once.
pub open spec fn chain(
    links: Map<OrderId, Link>,
    ids: Seq<OrderId>,
    head: Option<OrderId>,
    tail: Option<OrderId>,
) -> bool {
    &&& head == first_of(ids)
    &&& tail == last_of(ids)
    &&& forall|i: int| 0 <= i < ids.len() ==> #[trigger] linked(links, ids, i)
    &&& forall|i: int, j: int|
        0 <= i < j < ids.len() ==> #[trigger] ids[i] != #[trigger] ids[j]
}

/// The members reached from `head` in at most `count` steps.
pub open spec fn walk(
    links: Map<OrderId, Link>,
    head: Option<OrderId>,
    count: nat,
) -> Seq<OrderId>
    decreases count,
{
    if count == 0 {
        Seq::empty()
    } else {
        match head {
            None => Seq::empty(),
            Some(id) => seq![id] + walk(links, links[id].next, (count - 1) as nat),
        }
    }
}

/// Walking a chain yields its members.
pub proof fn lemma_walk(
    links: Map<OrderId, Link>,
    ids: Seq<OrderId>,
    head: Option<OrderId>,
    tail: Option<OrderId>,
)
    requires
        chain(links, ids, head, tail),
    ensures
        walk(links, head, ids.len()) == ids,
{
    lemma_walk_from(links, ids, head, tail, 0);
    assert(ids.subrange(0, ids.len() as int) =~= ids);
}

proof fn lemma_walk_from(
    links: Map<OrderId, Link>,
    ids: Seq<OrderId>,
    head: Option<OrderId>,
    tail: Option<OrderId>,
    index: int,
)
    requires
        chain(links, ids, head, tail),
        0 <= index <= ids.len(),
    ensures
        walk(
            links,
            if index < ids.len() {
                Some(ids[index])
            } else {
                None
            },
            (ids.len() - index) as nat,
        ) == ids.subrange(index, ids.len() as int),
    decreases ids.len() - index,
{
    if index < ids.len() {
        lemma_walk_from(links, ids, head, tail, index + 1);
        assert(linked(links, ids, index));
        assert(seq![ids[index]] + ids.subrange(index + 1, ids.len() as int) =~= ids.subrange(
            index,
            ids.len() as int,
        ));
    } else {
        assert(ids.subrange(index, ids.len() as int) =~= Seq::<OrderId>::empty());
    }
}

/// A chain survives any change outside its members.
pub proof fn lemma_chain_frame(
    before: Map<OrderId, Link>,
    after: Map<OrderId, Link>,
    ids: Seq<OrderId>,
    head: Option<OrderId>,
    tail: Option<OrderId>,
)
    requires
        chain(before, ids, head, tail),
        forall|i: int|
            0 <= i < ids.len() ==> after.dom().contains(#[trigger] ids[i]) && after[ids[i]]
                == before[ids[i]],
    ensures
        chain(after, ids, head, tail),
{
    assert forall|i: int| 0 <= i < ids.len() implies #[trigger] linked(after, ids, i) by {
        assert(linked(before, ids, i));
        assert(after[ids[i]] == before[ids[i]]);
    }
}

/// Appending a new member after the tail extends the chain.
pub proof fn lemma_chain_push(
    before: Map<OrderId, Link>,
    after: Map<OrderId, Link>,
    ids: Seq<OrderId>,
    head: Option<OrderId>,
    tail: Option<OrderId>,
    id: OrderId,
)
    requires
        chain(before, ids, head, tail),
        !ids.contains(id),
        after.dom().contains(id),
        after[id] == (Link { previous: tail, next: None }),
        forall|i: int|
            0 <= i < ids.len() - 1 ==> after.dom().contains(#[trigger] ids[i]) && after[ids[i]]
                == before[ids[i]],
        tail matches Some(last) ==> after.dom().contains(last) && after[last] == (Link {
            next: Some(id),
            ..before[last]
        }),
    ensures
        chain(
            after,
            ids.push(id),
            if head is None {
                Some(id)
            } else {
                head
            },
            Some(id),
        ),
{
    let extended = ids.push(id);
    assert forall|i: int| 0 <= i < extended.len() implies #[trigger] linked(
        after,
        extended,
        i,
    ) by {
        if i < ids.len() {
            assert(extended[i] == ids[i]);
            assert(linked(before, ids, i));
            if i < ids.len() - 1 {
                assert(after[ids[i]] == before[ids[i]]);
            }
        }
    }
    assert forall|i: int, j: int| 0 <= i < j < extended.len() implies #[trigger] extended[i]
        != #[trigger] extended[j] by {
        if j == ids.len() {
            assert(ids.contains(ids[i]));
        } else {
            assert(ids[i] != ids[j]);
        }
    }
}

/// Unlinking one member shortens the chain.
pub proof fn lemma_chain_remove(
    before: Map<OrderId, Link>,
    after: Map<OrderId, Link>,
    ids: Seq<OrderId>,
    head: Option<OrderId>,
    tail: Option<OrderId>,
    index: int,
)
    requires
        chain(before, ids, head, tail),
        0 <= index < ids.len(),
        forall|i: int|
            0 <= i < ids.len() && i != index ==> after.dom().contains(#[trigger] ids[i])
                && after[ids[i]] == (Link {
                previous: if i == index + 1 {
                    before[ids[index]].previous
                } else {
                    before[ids[i]].previous
                },
                next: if i == index - 1 {
                    before[ids[index]].next
                } else {
                    before[ids[i]].next
                },
            }),
    ensures
        chain(
            after,
            ids.remove(index),
            if head == Some(ids[index]) {
                before[ids[index]].next
            } else {
                head
            },
            if tail == Some(ids[index]) {
                before[ids[index]].previous
            } else {
                tail
            },
        ),
{
    let shorter = ids.remove(index);
    assert(linked(before, ids, index));
    assert forall|i: int| 0 <= i < shorter.len() implies #[trigger] linked(after, shorter, i) by {
        let a = if i < index {
            i
        } else {
            i + 1
        };
        assert(shorter[i] == ids[a]);
        assert(linked(before, ids, a));
        assert(after.dom().contains(ids[a]));
    }
    assert forall|i: int, j: int| 0 <= i < j < shorter.len() implies #[trigger] shorter[i]
        != #[trigger] shorter[j] by {
        let a = if i < index {
            i
        } else {
            i + 1
        };
        let b = if j < index {
            j
        } else {
            j + 1
        };
        assert(shorter[i] == ids[a] && shorter[j] == ids[b]);
    }
    if index > 0 {
        assert(ids[0] != ids[index]);
    }
    if index < ids.len() - 1 {
        assert(ids[index] != ids[ids.len() - 1]);
    }
}

/// Sum of a per-member amount over a list of members.
pub open spec fn member_sum(amounts: Map<OrderId, int>, ids: Seq<OrderId>) -> int
    decreases ids.len(),
{
    if ids.len() == 0 {
        0
    } else {
        member_sum(amounts, ids.drop_last()) + amounts[ids.last()]
    }
}

/// The sum depends on the amounts of its members only.
pub proof fn lemma_sum_frame(
    before: Map<OrderId, int>,
    after: Map<OrderId, int>,
    ids: Seq<OrderId>,
)
    requires
        forall|i: int| 0 <= i < ids.len() ==> after[#[trigger] ids[i]] == before[ids[i]],
    ensures
        member_sum(after, ids) == member_sum(before, ids),
    decreases ids.len(),
{
    if ids.len() > 0 {
        let shorter = ids.drop_last();
        assert forall|i: int| 0 <= i < shorter.len() implies after[#[trigger] shorter[i]]
            == before[shorter[i]] by {
            assert(shorter[i] == ids[i]);
        }
        assert(after[ids[ids.len() - 1]] == before[ids[ids.len() - 1]]);
        lemma_sum_frame(before, after, shorter);
    }
}

/// Removing one member removes its amount.
pub proof fn lemma_sum_remove(amounts: Map<OrderId, int>, ids: Seq<OrderId>, index: int)
    requires
        0 <= index < ids.len(),
    ensures
        member_sum(amounts, ids.remove(index)) == member_sum(amounts, ids) - amounts[ids[index]],
    decreases ids.len(),
{
    if index == ids.len() - 1 {
        assert(ids.remove(index) =~= ids.drop_last());
    } else {
        lemma_sum_remove(amounts, ids.drop_last(), index);
        assert(ids.remove(index).drop_last() =~= ids.drop_last().remove(index));
        assert(ids.remove(index).last() == ids.last());
    }
}

/// Appending one member adds its amount.
pub proof fn lemma_sum_push(amounts: Map<OrderId, int>, ids: Seq<OrderId>, id: OrderId)
    ensures
        member_sum(amounts, ids.push(id)) == member_sum(amounts, ids) + amounts[id],
{
    assert(ids.push(id).drop_last() =~= ids);
}

/// Changing the amount of one member changes the sum by the difference.
pub proof fn lemma_sum_update(
    before: Map<OrderId, int>,
    after: Map<OrderId, int>,
    ids: Seq<OrderId>,
    index: int,
)
    requires
        0 <= index < ids.len(),
        forall|i: int|
            0 <= i < ids.len() && i != index ==> after[#[trigger] ids[i]] == before[ids[i]],
    ensures
        member_sum(after, ids) == member_sum(before, ids) + after[ids[index]] - before[ids[index]],
    decreases ids.len(),
{
    let shorter = ids.drop_last();
    if index == ids.len() - 1 {
        assert forall|i: int| 0 <= i < shorter.len() implies after[#[trigger] shorter[i]]
            == before[shorter[i]] by {
            assert(shorter[i] == ids[i]);
        }
        lemma_sum_frame(before, after, shorter);
    } else {
        assert forall|i: int| 0 <= i < shorter.len() && i != index implies after[
            #[trigger] shorter[i]] == before[shorter[i]] by {
            assert(shorter[i] == ids[i]);
        }
        lemma_sum_update(before, after, shorter, index);
        assert(after[ids[ids.len() - 1]] == before[ids[ids.len() - 1]]);
    }
}

/// A sum of non-negative amounts bounds each of them.
pub proof fn lemma_sum_bounds(amounts: Map<OrderId, int>, ids: Seq<OrderId>, index: int)
    requires
        0 <= index < ids.len(),
        forall|i: int| 0 <= i < ids.len() ==> 0 <= amounts[#[trigger] ids[i]],
    ensures
        0 <= amounts[ids[index]] <= member_sum(amounts, ids),
    decreases ids.len(),
{
    let shorter = ids.drop_last();
    assert forall|i: int| 0 <= i < shorter.len() implies 0 <= amounts[#[trigger] shorter[i]] by {
        assert(shorter[i] == ids[i]);
    }
    lemma_sum_nonnegative(amounts, shorter);
    assert(0 <= amounts[ids[ids.len() - 1]]);
    if index < ids.len() - 1 {
        lemma_sum_bounds(amounts, shorter, index);
        assert(shorter[index] == ids[index]);
    }
}

/// A sum of non-negative amounts is non-negative.
pub proof fn lemma_sum_nonnegative(amounts: Map<OrderId, int>, ids: Seq<OrderId>)
    requires
        forall|i: int| 0 <= i < ids.len() ==> 0 <= amounts[#[trigger] ids[i]],
    ensures
        0 <= member_sum(amounts, ids),
    decreases ids.len(),
{
    if ids.len() > 0 {
        let shorter = ids.drop_last();
        assert forall|i: int| 0 <= i < shorter.len() implies 0 <= amounts[#[trigger] shorter[i]] by {
            assert(shorter[i] == ids[i]);
        }
        assert(0 <= amounts[ids[ids.len() - 1]]);
        lemma_sum_nonnegative(amounts, shorter);
    }
}

/// A list of distinct members of a finite set is no longer than the set, and
/// covers it when the lengths agree.
pub proof fn lemma_distinct_members(ids: Seq<OrderId>, set: Set<OrderId>)
    requires
        set.finite(),
        forall|i: int| 0 <= i < ids.len() ==> set.contains(#[trigger] ids[i]),
        forall|i: int, j: int| 0 <= i < j < ids.len() ==> #[trigger] ids[i] != #[trigger] ids[j],
    ensures
        ids.len() <= set.len(),
        ids.len() == set.len() ==> forall|id: OrderId| set.contains(id) ==> ids.contains(id),
    decreases ids.len(),
{
    if ids.len() == 0 {
        if set.len() == 0 {
            assert forall|id: OrderId| set.contains(id) implies ids.contains(id) by {
                assert(set =~= Set::<OrderId>::empty());
            }
        }
    } else {
        let last = ids.last();
        let shorter = ids.drop_last();
        let smaller = set.remove(last);
        assert(set.contains(ids[ids.len() - 1]));
        assert forall|i: int| 0 <= i < shorter.len() implies smaller.contains(
            #[trigger] shorter[i],
        ) by {
            assert(shorter[i] == ids[i]);
            assert(ids[i] != ids[ids.len() - 1]);
        }
        assert forall|i: int, j: int| 0 <= i < j < shorter.len() implies #[trigger] shorter[i]
            != #[trigger] shorter[j] by {
            assert(ids[i] != ids[j]);
        }
        lemma_distinct_members(shorter, smaller);
        if ids.len() == set.len() {
            assert forall|id: OrderId| set.contains(id) implies ids.contains(id) by {
                if id == last {
                    assert(ids[ids.len() - 1] == id);
                } else {
                    assert(smaller.contains(id));
                    assert(shorter.contains(id));
                    let i = choose|i: int| 0 <= i < shorter.len() && shorter[i] == id;
                    assert(ids[i] == id);
                }
            }
        }
    }
}

/// The list holds exactly the given members.
pub open spec fn list_spells(
    links: Map<OrderId, Link>,
    members: Set<OrderId>,
    head: Option<OrderId>,
    tail: Option<OrderId>,
    ids: Seq<OrderId>,
) -> bool {
    &&& chain(links, ids, head, tail)
    &&& forall|i: int| 0 <= i < ids.len() ==> members.contains(#[trigger] ids[i])
    &&& forall|id: OrderId| #[trigger] members.contains(id) ==> ids.contains(id)
}

/// What a list says of its ends and of the neighbours of one member.
pub proof fn lemma_list_facts(
    links: Map<OrderId, Link>,
    members: Set<OrderId>,
    head: Option<OrderId>,
    tail: Option<OrderId>,
    ids: Seq<OrderId>,
)
    requires
        list_spells(links, members, head, tail, ids),
    ensures
        head matches Some(first) ==> members.contains(first),
        tail matches Some(last) ==> members.contains(last) && links[last].next is None,
        head is Some <==> ids.len() > 0,
        tail is Some <==> ids.len() > 0,
{
    if ids.len() > 0 {
        assert(members.contains(ids[0]));
        assert(members.contains(ids[ids.len() - 1]));
        assert(linked(links, ids, ids.len() - 1));
    }
}

/// What a list says of one member.
pub proof fn lemma_member_facts(
    links: Map<OrderId, Link>,
    members: Set<OrderId>,
    head: Option<OrderId>,
    tail: Option<OrderId>,
    ids: Seq<OrderId>,
    id: OrderId,
) -> (index: int)
    requires
        list_spells(links, members, head, tail, ids),
        members.contains(id),
    ensures
        0 <= index < ids.len(),
        ids[index] == id,
        links.dom().contains(id),
        links[id].previous matches Some(other) ==> members.contains(other) && other != id
            && links[other].next == Some(id),
        links[id].next matches Some(other) ==> members.contains(other) && other != id
            && links[other].previous == Some(id),
        links[id].previous is None <==> head == Some(id),
        links[id].next is None <==> tail == Some(id),
        links[id].previous is Some ==> links[id].previous != links[id].next,
{
    assert(ids.contains(id));
    let index = choose|i: int| 0 <= i < ids.len() && ids[i] == id;
    assert(linked(links, ids, index));
    if index > 0 {
        assert(linked(links, ids, index - 1));
        assert(members.contains(ids[index - 1]));
        assert(ids[index - 1] != ids[index]);
        assert(ids[0] != ids[index]);
    }
    if index < ids.len() - 1 {
        assert(linked(links, ids, index + 1));
        assert(members.contains(ids[index + 1]));
        assert(ids[index] != ids[index + 1]);
        assert(ids[index] != ids[ids.len() - 1]);
    }
    if 0 < index < ids.len() - 1 {
        assert(ids[index - 1] != ids[index + 1]);
    }
    index
}

/// A list survives any change that keeps its members and their links.
pub proof fn lemma_list_frame(
    before: Map<OrderId, Link>,
    after: Map<OrderId, Link>,
    members: Set<OrderId>,
    head: Option<OrderId>,
    tail: Option<OrderId>,
    ids: Seq<OrderId>,
)
    requires
        list_spells(before, members, head, tail, ids),
        forall|id: OrderId| #[trigger]
            members.contains(id) ==> after.dom().contains(id) && after[id] == before[id],
    ensures
        list_spells(after, members, head, tail, ids),
{
    assert forall|i: int| 0 <= i < ids.len() implies after.dom().contains(#[trigger] ids[i])
        && after[ids[i]] == before[ids[i]] by {
        assert(members.contains(ids[i]));
    }
    lemma_chain_frame(before, after, ids, head, tail);
}

/// Appending a member extends the list.
pub proof fn lemma_list_push(
    before: Map<OrderId, Link>,
    after: Map<OrderId, Link>,
    members: Set<OrderId>,
    head: Option<OrderId>,
    tail: Option<OrderId>,
    ids: Seq<OrderId>,
    id: OrderId,
)
    requires
        list_spells(before, members, head, tail, ids),
        !members.contains(id),
        after.dom().contains(id),
        after[id] == (Link { previous: tail, next: None }),
        forall|other: OrderId| #[trigger]
            members.contains(other) ==> after.dom().contains(other) && after[other] == (Link {
                previous: before[other].previous,
                next: if tail == Some(other) {
                    Some(id)
                } else {
                    before[other].next
                },
            }),
    ensures
        list_spells(
            after,
            members.insert(id),
            if head is None {
                Some(id)
            } else {
                head
            },
            Some(id),
            ids.push(id),
        ),
{
    assert(!ids.contains(id)) by {
        if ids.contains(id) {
            let i = choose|i: int| 0 <= i < ids.len() && ids[i] == id;
            assert(members.contains(ids[i]));
        }
    }
    if ids.len() > 0 {
        assert(members.contains(ids[ids.len() - 1]));
    }
    assert forall|i: int| 0 <= i < ids.len() - 1 implies after.dom().contains(#[trigger] ids[i])
        && after[ids[i]] == before[ids[i]] by {
        assert(members.contains(ids[i]));
        assert(ids[i] != ids[ids.len() - 1]);
    }
    lemma_chain_push(before, after, ids, head, tail, id);
    let extended = ids.push(id);
    let grown = members.insert(id);
    assert forall|i: int| 0 <= i < extended.len() implies grown.contains(#[trigger] extended[i]) by {
        if i < ids.len() {
            assert(members.contains(ids[i]));
        }
    }
    assert forall|other: OrderId| #[trigger] grown.contains(other) implies extended.contains(
        other,
    ) by {
        if other == id {
            assert(extended[ids.len() as int] == id);
        } else {
            assert(members.contains(other));
            let i = choose|i: int| 0 <= i < ids.len() && ids[i] == other;
            assert(extended[i] == other);
        }
    }
}

/// Unlinking a member shortens the list.
pub proof fn lemma_list_remove(
    before: Map<OrderId, Link>,
    after: Map<OrderId, Link>,
    members: Set<OrderId>,
    head: Option<OrderId>,
    tail: Option<OrderId>,
    ids: Seq<OrderId>,
    id: OrderId,
) -> (index: int)
    requires
        list_spells(before, members, head, tail, ids),
        members.contains(id),
        forall|other: OrderId| #[trigger]
            members.contains(other) && other != id ==> after.dom().contains(other) && after[other]
                == (Link {
                previous: if before[id].next == Some(other) {
                    before[id].previous
                } else {
                    before[other].previous
                },
                next: if before[id].previous == Some(other) {
                    before[id].next
                } else {
                    before[other].next
                },
            }),
    ensures
        0 <= index < ids.len(),
        ids[index] == id,
        list_spells(
            after,
            members.remove(id),
            if head == Some(id) {
                before[id].next
            } else {
                head
            },
            if tail == Some(id) {
                before[id].previous
            } else {
                tail
            },
            ids.remove(index),
        ),
{
    let index = lemma_member_facts(before, members, head, tail, ids, id);
    assert(linked(before, ids, index));
    assert forall|i: int| 0 <= i < ids.len() && i != index implies after.dom().contains(
        #[trigger] ids[i],
    ) && after[ids[i]] == (Link {
        previous: if i == index + 1 {
            before[ids[index]].previous
        } else {
            before[ids[i]].previous
        },
        next: if i == index - 1 {
            before[ids[index]].next
        } else {
            before[ids[i]].next
        },
    }) by {
        assert(members.contains(ids[i]));
        if i < index {
            assert(ids[i] != ids[index]);
        } else {
            assert(ids[index] != ids[i]);
        }
        if index > 0 && i != index - 1 {
            if i < index - 1 {
                assert(ids[i] != ids[index - 1]);
            } else {
                assert(ids[index - 1] != ids[i]);
            }
        }
        if index + 1 < ids.len() && i != index + 1 {
            if i < index + 1 {
                assert(ids[i] != ids[index + 1]);
            } else {
                assert(ids[index + 1] != ids[i]);
            }
        }
    }
    lemma_chain_remove(before, after, ids, head, tail, index);
    let shorter = ids.remove(index);
    let fewer = members.remove(id);
    assert forall|i: int| 0 <= i < shorter.len() implies fewer.contains(#[trigger] shorter[i]) by {
        let a = if i < index {
            i
        } else {
            i + 1
        };
        assert(shorter[i] == ids[a]);
        assert(members.contains(ids[a]));
        if a < index {
            assert(ids[a] != ids[index]);
        } else {
            assert(ids[index] != ids[a]);
        }
    }
    assert forall|other: OrderId| #[trigger] fewer.contains(other) implies shorter.contains(
        other,
    ) by {
        assert(members.contains(other));
        let i = choose|i: int| 0 <= i < ids.len() && ids[i] == other;
        if i < index {
            assert(shorter[i] == other);
        } else {
            assert(shorter[i - 1] == other);
        }
    }
    index
}

/// A list of members that covers a finite set is at least as long as the set.
pub proof fn lemma_covering_members(ids: Seq<OrderId>, set: Set<OrderId>)
    requires
        set.finite(),
        forall|id: OrderId| #[trigger] set.contains(id) ==> ids.contains(id),
    ensures
        set.len() <= ids.len(),
{
    let listed = ids.to_set();
    assert forall|id: OrderId| #[trigger] set.contains(id) implies listed.contains(id) by {
        assert(ids.contains(id));
    }
    vstd::seq_lib::seq_to_set_is_finite(ids);
    vstd::set_lib::lemma_len_subset(set, listed);
    ids.lemma_cardinality_of_set();
}

/// Sums over longer prefixes are no smaller.
pub proof fn lemma_sum_prefix(amounts: Map<OrderId, int>, ids: Seq<OrderId>, count: int)
    requires
        0 <= count <= ids.len(),
        forall|i: int| 0 <= i < ids.len() ==> 0 <= amounts[#[trigger] ids[i]],
    ensures
        0 <= member_sum(amounts, ids.take(count)) <= member_sum(amounts, ids),
    decreases ids.len() - count,
{
    if count == ids.len() {
        assert(ids.take(count) =~= ids);
        lemma_sum_nonnegative(amounts, ids);
    } else {
        lemma_sum_prefix(amounts, ids, count + 1);
        assert(ids.take(count + 1).drop_last() =~= ids.take(count));
        assert(0 <= amounts[ids[count]]);
        let prefix = ids.take(count);
        assert forall|i: int| 0 <= i < prefix.len() implies 0 <= amounts[#[trigger] prefix[i]] by {
            assert(prefix[i] == ids[i]);
        }
        lemma_sum_nonnegative(amounts, prefix);
    }
}

/// The visited part of a list whose links are checked one by one.
pub open spec fn visited_links(
    links: Map<OrderId, Link>,
    ids: Seq<OrderId>,
    head: Option<OrderId>,
    current: Option<OrderId>,
) -> bool {
    &&& head == (if ids.len() == 0 {
        current
    } else {
        Some(ids[0])
    })
    &&& forall|i: int|
        0 <= i < ids.len() ==> links.dom().contains(#[trigger] ids[i]) && links[ids[i]].previous
            == (if i == 0 {
            None
        } else {
            Some(ids[i - 1])
        })
    &&& forall|i: int|
        0 <= i < ids.len() ==> #[trigger] step_at(links, ids, i) == (if i + 1 < ids.len() {
            Some(ids[i + 1])
        } else {
            current
        })
    &&& forall|i: int, j: int| 0 <= i < j < ids.len() ==> #[trigger] ids[i] != #[trigger] ids[j]
}

/// The member to which the member at `index` points.
pub open spec fn step_at(links: Map<OrderId, Link>, ids: Seq<OrderId>, index: int) -> Option<
    OrderId,
> {
    links[ids[index]].next
}

/// Visiting one more member keeps the visited part consistent.
pub proof fn lemma_visit(
    links: Map<OrderId, Link>,
    ids: Seq<OrderId>,
    head: Option<OrderId>,
    id: OrderId,
)
    requires
        visited_links(links, ids, head, Some(id)),
        links.dom().contains(id),
        links[id].previous == last_of(ids),
    ensures
        visited_links(links, ids.push(id), head, links[id].next),
{
    let grown = ids.push(id);
    assert forall|i: int, j: int| 0 <= i < j < grown.len() implies #[trigger] grown[i]
        != #[trigger] grown[j] by {
        if j == ids.len() {
            if ids[i] == id {
                assert(links.dom().contains(ids[i]));
                if i > 0 {
                    assert(ids[i - 1] == ids[ids.len() - 1]);
                }
            }
        } else {
            assert(ids[i] != ids[j]);
        }
    }
    assert forall|i: int| 0 <= i < grown.len() implies links.dom().contains(#[trigger] grown[i])
        && links[grown[i]].previous == (if i == 0 {
        None
    } else {
        Some(grown[i - 1])
    }) by {
        if i < ids.len() {
            assert(grown[i] == ids[i]);
        }
    }
    assert forall|i: int| 0 <= i < grown.len() implies #[trigger] step_at(links, grown, i) == (if i
        + 1 < grown.len() {
        Some(grown[i + 1])
    } else {
        links[id].next
    }) by {
        if i < ids.len() {
            assert(step_at(links, ids, i) == step_at(links, grown, i));
        }
    }
}

/// A completely visited list is a chain.
pub proof fn lemma_visited_chain(
    links: Map<OrderId, Link>,
    ids: Seq<OrderId>,
    head: Option<OrderId>,
)
    requires
        visited_links(links, ids, head, None),
    ensures
        chain(links, ids, head, last_of(ids)),
{
    assert forall|i: int| 0 <= i < ids.len() implies #[trigger] linked(links, ids, i) by {
        assert(links.dom().contains(ids[i]));
        assert(step_at(links, ids, i) == (if i + 1 < ids.len() {
            Some(ids[i + 1])
        } else {
            None
        }));
    }
}

/// The member that follows a prefix of a list.
pub open spec fn after_prefix(ids: Seq<OrderId>, count: int) -> Option<OrderId> {
    if count < ids.len() {
        Some(ids[count])
    } else {
        None
    }
}

} // verus!
