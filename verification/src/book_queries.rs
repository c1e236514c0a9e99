//! Read-only queries of the collection book and account-scoped cancellation.

use vstd::prelude::*;

use crate::book_lemmas::lemma_account_spells;
use crate::book_state::{
    account_ids, account_links, account_ok, in_account, leaves, AuctionAccountSideIndex,
    AuctionQueue, CallAuctionBook, RestingAuctionOrder, RestingOrders,
};
use crate::book_types::{
    CallAuctionBookQueryError, CallAuctionBookQueryResource, CallAuctionInvariantViolation,
    CallAuctionLevelSnapshot, CallAuctionMassCancelError, CallAuctionMassCancelResult,
    CallAuctionOrderSnapshot, CallAuctionResourceStatus,
};
use crate::chain::{
    after_prefix, chain, last_of, lemma_distinct_members, lemma_sum_prefix, lemma_sum_push,
    lemma_visit, lemma_visited_chain, lemma_walk, linked, member_sum, visited_links,
};
use crate::domain::{AccountId, MassCancelScope, OrderId, Price, Side};
use crate::messages::{decimal, push_decimal};
use crate::ordered_map::{MapKey, OrderedMap};
use crate::storage::{allocated, try_vector, unrepresentable};

verus! {

/// The account list holds `ids` consistently; nothing is said of orders it omits.
pub open spec fn account_traced(
    orders: RestingOrders,
    index: AuctionAccountSideIndex,
    account: AccountId,
    side: Side,
    ids: Seq<OrderId>,
) -> bool {
    &&& chain(account_links(orders), ids, index.head, index.tail)
    &&& index.order_count == ids.len()
    &&& index.total_quantity == member_sum(leaves(orders), ids)
    &&& forall|i: int| 0 <= i < ids.len() ==> in_account(orders, #[trigger] ids[i], account, side)
}

/// The aggregate of one occupied price.
pub open spec fn level_snapshot(side: Side, entry: (Price, AuctionQueue)) -> CallAuctionLevelSnapshot {
    CallAuctionLevelSnapshot {
        side,
        price: entry.0,
        quantity: entry.1.total_quantity,
        order_count: entry.1.order_count,
    }
}

/// Creates an empty vector with room for one book query.
///
/// No room is always granted, and room that no vector can hold is always refused.
/// Otherwise the allocator decides.
pub fn reserve_call_auction_book_query_vec<T>(
    maximum: usize,
    resource: CallAuctionBookQueryResource,
) -> (r: Result<Vec<T>, CallAuctionBookQueryError>)
    ensures
        maximum == 0 ==> r is Ok,
        unrepresentable::<T>(maximum as int) ==> r is Err,
        match r {
            Ok(output) => output@ == Seq::<T>::empty(),
            Err(error) => maximum > 0 && error == (CallAuctionBookQueryError::ReservationFailed {
                resource,
                maximum,
            }),
        },
{
    match try_vector(maximum) {
        Some(output) => Ok(output),
        None => Err(CallAuctionBookQueryError::ReservationFailed { resource, maximum }),
    }
}

/// How a contradiction of one account is introduced.
pub open spec fn account_text(account: AccountId) -> Seq<char> {
    "account "@ + decimal(account.value as nat)
}

/// Starts the text of a contradiction of one account.
fn account_prefix(account_id: AccountId) -> (r: String)
    ensures
        r@ == account_text(account_id),
{
    let mut text = String::from_str("account ");
    push_decimal(&mut text, account_id.value as u128);
    text
}

/// How a contradiction of one account and side is introduced.
pub open spec fn account_side_text(account: AccountId, side: Side) -> Seq<char> {
    account_text(account) + " "@ + side.text()
}

/// Starts the text of a contradiction of one account and side.
fn account_side_prefix(account_id: AccountId, side: Side) -> (r: String)
    ensures
        r@ == account_side_text(account_id, side),
{
    let mut text = account_prefix(account_id);
    text.append(" ");
    text.append(side.name());
    text
}

/// The first contradiction met when `count` orders of an account list have been
/// followed up to `current`.
pub open spec fn account_list_fault(
    orders: RestingOrders,
    index: AuctionAccountSideIndex,
    account: AccountId,
    side: Side,
    count: nat,
    current: Option<OrderId>,
    previous: Option<OrderId>,
    total: int,
) -> Option<Seq<char>>
    decreases index.order_count - count,
{
    let named = account_side_text(account, side);
    if count >= index.order_count {
        if current is Some || previous != index.tail || total != index.total_quantity {
            Some(named + " list contradicts its tail, count, or quantity aggregate"@)
        } else {
            None
        }
    } else {
        match current {
            None => Some(named + " list ended before its declared count"@),
            Some(id) => {
                let order = orders[id];
                if !orders.dom().contains(id) {
                    Some(
                        account_text(account) + " list references absent order "@ + decimal(
                            id.value as nat,
                        ),
                    )
                } else if order.account_id != account || order.side != side
                    || order.account_previous != previous {
                    Some(
                        named + " list references order "@ + decimal(id.value as nat)
                            + " with inconsistent ownership, side, or previous link"@,
                    )
                } else if total + order.quantity.lots > u128::MAX {
                    Some(named + " quantity aggregate overflows"@)
                } else {
                    account_list_fault(
                        orders,
                        index,
                        account,
                        side,
                        count + 1,
                        order.account_next,
                        Some(id),
                        total + order.quantity.lots,
                    )
                }
            },
        }
    }
}

impl CallAuctionBook {
    /// The first contradiction in the list of one account and side.
    pub open spec fn account_query_fault(&self, account: AccountId, side: Side) -> Option<
        Seq<char>,
    > {
        let index = self.account_side(account, side);
        account_list_fault(self.orders@, index, account, side, 0, index.head, None, 0)
    }

    /// The first contradiction in the selected lists of one account.
    pub open spec fn selection_fault(&self, account: AccountId, scope: MassCancelScope) -> Option<
        Seq<char>,
    > {
        if scope.selects(Side::Buy) && self.account_query_fault(account, Side::Buy) is Some {
            self.account_query_fault(account, Side::Buy)
        } else if scope.selects(Side::Sell) {
            self.account_query_fault(account, Side::Sell)
        } else {
            None
        }
    }

    /// The first contradiction in what is recorded of the selected lists.
    pub open spec fn count_fault(&self, account: AccountId, scope: MassCancelScope) -> Option<
        Seq<char>,
    > {
        if self.selected_count(account, scope) > usize::MAX {
            Some(account_text(account) + " active-order count is exhausted"@)
        } else if self.selected_count(account, scope) > self.orders@.len() {
            Some(account_text(account) + " active-order count exceeds total active orders"@)
        } else {
            None
        }
    }

    /// Occupied prices of one side in ascending order, with their queues.
    pub open spec fn level_entries(&self, side: Side) -> Seq<(Price, AuctionQueue)> {
        match side {
            Side::Buy => self.bids.entries@,
            Side::Sell => self.asks.entries@,
        }
    }

    /// Aggregate limit depth of one side in ascending price order.
    pub open spec fn ascending_depth(&self, side: Side) -> Seq<CallAuctionLevelSnapshot> {
        self.level_entries(side).map_values(
            |entry: (Price, AuctionQueue)| level_snapshot(side, entry),
        )
    }

    /// Aggregate limit depth of one side in best-to-worst order.
    pub open spec fn best_depth(&self, side: Side) -> Seq<CallAuctionLevelSnapshot> {
        match side {
            Side::Buy => self.ascending_depth(side).reverse(),
            Side::Sell => self.ascending_depth(side),
        }
    }

    /// Returns the number of occupied limit prices on one side.
    pub fn price_level_count(&self, side: Side) -> (r: usize)
        ensures
            r == self.level_entries(side).len(),
    {
        match side {
            Side::Buy => self.bids.len(),
            Side::Sell => self.asks.len(),
        }
    }

    /// Returns the most aggressive occupied limit price on one side.
    pub fn best_limit_price(&self, side: Side) -> (r: Option<Price>)
        ensures
            r == (if self.level_entries(side).len() == 0 {
                None
            } else {
                Some(self.best_depth(side)[0].price)
            }),
    {
        match side {
            Side::Buy => if self.bids.len() == 0 {
                None
            } else {
                Some(self.bids.key_at(self.bids.len() - 1))
            },
            Side::Sell => if self.asks.len() == 0 {
                None
            } else {
                Some(self.asks.key_at(0))
            },
        }
    }

    /// Returns active market quantity on one side in instrument-defined lots.
    pub fn market_quantity(&self, side: Side) -> (r: u128)
        ensures
            r == self.market_of(side).total_quantity,
    {
        match side {
            Side::Buy => self.market_buys.total_quantity,
            Side::Sell => self.market_sells.total_quantity,
        }
    }

    /// Returns the number of active market-constrained orders on one side.
    pub fn market_order_count(&self, side: Side) -> (r: u64)
        ensures
            r == self.market_of(side).order_count,
    {
        match side {
            Side::Buy => self.market_buys.order_count,
            Side::Sell => self.market_sells.order_count,
        }
    }

    /// Returns anonymized limit depth in best-to-worst price order.
    ///
    /// Market-constrained interest is reported separately by
    /// [`Self::market_quantity`] and [`Self::market_order_count`].
    pub fn limit_depth(&self, side: Side, limit: usize) -> (r: Vec<CallAuctionLevelSnapshot>)
        ensures
            r@ == self.best_depth(side).take(
                if limit < self.best_depth(side).len() {
                    limit as int
                } else {
                    self.best_depth(side).len() as int
                },
            ),
    {
        let count: usize = self.price_level_count(side);
        let wanted: usize = if limit < count {
            limit
        } else {
            count
        };
        let ghost depth = self.best_depth(side);
        let mut output: Vec<CallAuctionLevelSnapshot> = Vec::new();
        while output.len() < wanted
            invariant
                output@.len() <= wanted <= count,
                count == self.level_entries(side).len(),
                depth == self.best_depth(side),
                output@ == depth.take(output@.len() as int),
            decreases wanted - output@.len(),
        {
            let index: usize = match side {
                Side::Buy => count - 1 - output.len(),
                Side::Sell => output.len(),
            };
            let level = self.level_at(side, index);
            proof {
                assert(depth.take((output@.len() + 1) as int) =~= depth.take(output@.len() as int).push(
                    depth[output@.len() as int],
                ));
            }
            output.push(level);
        }
        output
    }

    /// Returns the aggregate of one occupied price by ascending position.
    pub(crate) fn level_at(&self, side: Side, index: usize) -> (r: CallAuctionLevelSnapshot)
        requires
            index < self.level_entries(side).len(),
        ensures
            r == self.ascending_depth(side)[index as int],
    {
        let (price, queue) = match side {
            Side::Buy => (self.bids.key_at(index), self.bids.value_at(index)),
            Side::Sell => (self.asks.key_at(index), self.asks.value_at(index)),
        };
        CallAuctionLevelSnapshot {
            side,
            price,
            quantity: queue.total_quantity,
            order_count: queue.order_count,
        }
    }

    /// Returns aggregate limit depth in ascending price order.
    pub(crate) fn limit_depth_levels(&self, side: Side) -> (r: Vec<CallAuctionLevelSnapshot>)
        ensures
            r@ == self.ascending_depth(side),
    {
        let count: usize = self.price_level_count(side);
        let ghost depth = self.ascending_depth(side);
        let mut output: Vec<CallAuctionLevelSnapshot> = Vec::new();
        while output.len() < count
            invariant
                output@.len() <= count,
                count == self.level_entries(side).len(),
                depth == self.ascending_depth(side),
                output@ == depth.take(output@.len() as int),
            decreases count - output@.len(),
        {
            let level = self.level_at(side, output.len());
            proof {
                assert(depth.take((output@.len() + 1) as int) =~= depth.take(output@.len() as int).push(
                    depth[output@.len() as int],
                ));
            }
            output.push(level);
        }
        proof {
            assert(depth.take(count as int) =~= depth);
        }
        output
    }

    /// Active orders in ascending identifier order.
    pub open spec fn active_list(&self) -> Seq<CallAuctionOrderSnapshot> {
        self.orders.entries@.map_values(
            |entry: (OrderId, RestingAuctionOrder)| entry.1.visible(),
        )
    }

    /// Accepted identifiers in ascending order.
    pub open spec fn accepted_list(&self) -> Seq<OrderId> {
        self.seen_order_ids.entries@.map_values(|entry: (OrderId, ())| entry.0)
    }

    /// Returns active order state in ascending identifier order.
    pub(crate) fn active_order_states(&self) -> (r: Vec<CallAuctionOrderSnapshot>)
        ensures
            r@ == self.active_list(),
    {
        let mut output: Vec<CallAuctionOrderSnapshot> = Vec::new();
        let ghost list = self.active_list();
        while output.len() < self.orders.len()
            invariant
                output@.len() <= self.orders.entries@.len(),
                list == self.active_list(),
                output@ == list.take(output@.len() as int),
            decreases self.orders.entries@.len() - output@.len(),
        {
            let order = self.orders.value_at(output.len());
            proof {
                assert(list.take((output@.len() + 1) as int) =~= list.take(output@.len() as int).push(
                    list[output@.len() as int],
                ));
            }
            output.push(order.snapshot());
        }
        proof {
            assert(list.take(output@.len() as int) =~= list);
        }
        output
    }

    /// Returns every accepted identifier in ascending order.
    pub(crate) fn accepted_order_ids(&self) -> (r: Vec<OrderId>)
        ensures
            r@ == self.accepted_list(),
    {
        let mut output: Vec<OrderId> = Vec::new();
        let ghost list = self.accepted_list();
        while output.len() < self.seen_order_ids.len()
            invariant
                output@.len() <= self.seen_order_ids.entries@.len(),
                list == self.accepted_list(),
                output@ == list.take(output@.len() as int),
            decreases self.seen_order_ids.entries@.len() - output@.len(),
        {
            let order_id = self.seen_order_ids.key_at(output.len());
            proof {
                assert(list.take((output@.len() + 1) as int) =~= list.take(output@.len() as int).push(
                    list[output@.len() as int],
                ));
            }
            output.push(order_id);
        }
        proof {
            assert(list.take(output@.len() as int) =~= list);
        }
        output
    }

    /// Active orders of one account on the selected sides.
    pub open spec fn selected(&self, account: AccountId, scope: MassCancelScope) -> Set<OrderId> {
        Set::new(
            |id: OrderId|
                self.active().dom().contains(id) && self.active()[id].account_id == account
                    && scope.selects(self.active()[id].side),
        )
    }

    /// Recorded number of active orders of one account on the selected sides.
    pub open spec fn selected_count(&self, account: AccountId, scope: MassCancelScope) -> int {
        (if scope.selects(Side::Buy) {
            self.account_side(account, Side::Buy).order_count as int
        } else {
            0
        }) + (if scope.selects(Side::Sell) {
            self.account_side(account, Side::Sell).order_count as int
        } else {
            0
        })
    }

    /// Recorded quantity of one account on the selected sides.
    pub open spec fn selected_lots(&self, account: AccountId, scope: MassCancelScope) -> int {
        (if scope.selects(Side::Buy) {
            self.account_side(account, Side::Buy).total_quantity as int
        } else {
            0
        }) + (if scope.selects(Side::Sell) {
            self.account_side(account, Side::Sell).total_quantity as int
        } else {
            0
        })
    }

    /// Returns one account's active-order count for all orders or one side.
    pub fn account_active_order_count(&self, account_id: AccountId, scope: MassCancelScope) -> (r:
        usize)
        requires
            self.account_orders.wf(),
        ensures
            r == (if self.selected_count(account_id, scope) > usize::MAX {
                usize::MAX as int
            } else {
                self.selected_count(account_id, scope)
            }),
    {
        let buys = self.account_side_snapshot(account_id, Side::Buy);
        let sells = self.account_side_snapshot(account_id, Side::Sell);
        match scope {
            MassCancelScope::All => buys.order_count.saturating_add(sells.order_count),
            MassCancelScope::Side(Side::Buy) => buys.order_count,
            MassCancelScope::Side(Side::Sell) => sells.order_count,
        }
    }

    /// Follows one account list and adds its members to a sorted set.
    fn try_append_account_side_values(
        &self,
        side_index: AuctionAccountSideIndex,
        account_id: AccountId,
        side: Side,
        output: &mut OrderedMap<OrderId, ()>,
    ) -> (r: Result<(), CallAuctionInvariantViolation>)
        requires
            self.orders.wf(),
            old(output).wf(),
        ensures
            final(output).wf(),
            r is Ok <==> account_traced(
                self.orders@,
                side_index,
                account_id,
                side,
                account_ids(self.orders@, side_index),
            ),
            ({
                let fault = account_list_fault(
                    self.orders@,
                    side_index,
                    account_id,
                    side,
                    0,
                    side_index.head,
                    None,
                    0,
                );
                match r {
                    Ok(_) => fault is None,
                    Err(error) => fault == Some(error.detail@),
                }
            }),
            r is Ok ==> forall|id: OrderId| #[trigger]
                final(output)@.dom().contains(id) <==> old(output)@.dom().contains(id)
                    || account_ids(self.orders@, side_index).contains(id),
    {
        let ghost orders = self.orders@;
        let ghost expected = account_ids(orders, side_index);
        let ghost listed = account_traced(orders, side_index, account_id, side, expected);
        let mut current = side_index.head;
        let mut previous: Option<OrderId> = None;
        let mut total: u128 = 0;
        let mut count: usize = 0;
        let ghost mut ids = Seq::<OrderId>::empty();
        proof {
            assert(expected.take(0) =~= ids);
        }
        while count < side_index.order_count
            invariant
                self.orders.wf(),
                output.wf(),
                orders == self.orders@,
                expected == account_ids(orders, side_index),
                listed == account_traced(orders, side_index, account_id, side, expected),
                visited_links(account_links(orders), ids, side_index.head, current),
                previous == last_of(ids),
                account_list_fault(
                    orders,
                    side_index,
                    account_id,
                    side,
                    0,
                    side_index.head,
                    None,
                    0,
                ) == account_list_fault(
                    orders,
                    side_index,
                    account_id,
                    side,
                    count as nat,
                    current,
                    previous,
                    total as int,
                ),
                count == ids.len(),
                count <= side_index.order_count,
                total == member_sum(leaves(orders), ids),
                forall|i: int|
                    0 <= i < ids.len() ==> in_account(orders, #[trigger] ids[i], account_id, side),
                listed ==> count <= expected.len() && ids == expected.take(count as int)
                    && current == after_prefix(expected, count as int),
                forall|id: OrderId| #[trigger]
                    output@.dom().contains(id) <==> old(output)@.dom().contains(id)
                        || ids.contains(id),
            decreases side_index.order_count - count,
        {
            proof {
                if listed {
                    let next = expected[count as int];
                    assert(in_account(orders, next, account_id, side));
                    assert(linked(account_links(orders), expected, count as int));
                    assert(expected.take(count + 1) =~= ids.push(next));
                    lemma_sum_push(leaves(orders), ids, next);
                    assert forall|i: int| 0 <= i < expected.len() implies 0 <= leaves(orders)[
                        #[trigger] expected[i]] by {
                        assert(in_account(orders, expected[i], account_id, side));
                    }
                    lemma_sum_prefix(leaves(orders), expected, count + 1);
                    if count > 0 {
                        assert(ids[count - 1] == expected[count - 1]);
                    }
                }
            }
            let order_id = match current {
                Some(order_id) => order_id,
                None => {
                    let mut detail = account_side_prefix(account_id, side);
                    detail.append(" list ended before its declared count");
                    return Err(CallAuctionInvariantViolation { detail });
                },
            };
            let order = match self.orders.get(order_id) {
                Some(order) => order,
                None => {
                    let mut detail = account_prefix(account_id);
                    detail.append(" list references absent order ");
                    push_decimal(&mut detail, order_id.value as u128);
                    return Err(CallAuctionInvariantViolation { detail });
                },
            };
            if order.account_id != account_id || order.side != side || order.account_previous
                != previous {
                let mut detail = account_side_prefix(account_id, side);
                detail.append(" list references order ");
                push_decimal(&mut detail, order_id.value as u128);
                detail.append(" with inconsistent ownership, side, or previous link");
                return Err(CallAuctionInvariantViolation { detail });
            }
            proof {
                lemma_sum_push(leaves(orders), ids, order_id);
            }
            match total.checked_add(order.quantity.lots as u128) {
                Some(sum) => {
                    total = sum;
                },
                None => {
                    let mut detail = account_side_prefix(account_id, side);
                    detail.append(" quantity aggregate overflows");
                    return Err(CallAuctionInvariantViolation { detail });
                },
            }
            let ghost before = output@;
            let _seen = output.insert(order_id, ());
            proof {
                lemma_visit(account_links(orders), ids, side_index.head, order_id);
                let grown = ids.push(order_id);
                assert forall|i: int| 0 <= i < grown.len() implies in_account(
                    orders,
                    #[trigger] grown[i],
                    account_id,
                    side,
                ) by {
                    if i < ids.len() {
                        assert(in_account(orders, ids[i], account_id, side));
                    }
                }
                assert forall|id: OrderId| #[trigger] output@.dom().contains(id) <==> old(
                    output,
                )@.dom().contains(id) || grown.contains(id) by {
                    assert(before.dom().contains(id) <==> old(output)@.dom().contains(id)
                        || ids.contains(id));
                    if ids.contains(id) {
                        let i = choose|i: int| 0 <= i < ids.len() && ids[i] == id;
                        assert(grown[i] == id);
                    }
                    if id == order_id {
                        assert(grown[ids.len() as int] == id);
                    }
                    if grown.contains(id) && id != order_id {
                        let i = choose|i: int| 0 <= i < grown.len() && grown[i] == id;
                        assert(ids[i] == id);
                    }
                }
                ids = grown;
            }
            count = count + 1;
            previous = Some(order_id);
            current = order.account_next;
        }
        proof {
            if listed {
                assert(expected.take(count as int) =~= expected);
            }
            if current is None && previous == side_index.tail && total
                == side_index.total_quantity {
                lemma_visited_chain(account_links(orders), ids, side_index.head);
                lemma_walk(account_links(orders), ids, side_index.head, side_index.tail);
            }
        }
        if current.is_some() || previous != side_index.tail || total != side_index.total_quantity {
            let mut detail = account_side_prefix(account_id, side);
            detail.append(" list contradicts its tail, count, or quantity aggregate");
            return Err(CallAuctionInvariantViolation { detail });
        }
        Ok(())
    }

    /// The account lists of the selected sides can be followed to their ends.
    pub open spec fn selection_consistent(&self, account: AccountId, scope: MassCancelScope) -> bool {
        &&& self.selected_count(account, scope) <= self.orders@.len()
        &&& forall|side: Side| #[trigger]
            scope.selects(side) ==> account_traced(
                self.orders@,
                self.account_side(account, side),
                account,
                side,
                account_ids(self.orders@, self.account_side(account, side)),
            )
    }

    /// Members of the account lists of the selected sides.
    pub open spec fn listed_in(&self, account: AccountId, scope: MassCancelScope, id: OrderId) -> bool {
        exists|side: Side| #[trigger]
            scope.selects(side) && account_ids(
                self.orders@,
                self.account_side(account, side),
            ).contains(id)
    }

    /// Collects the members of the selected account lists into a sorted set.
    fn collect_selected(&self, account_id: AccountId, scope: MassCancelScope) -> (r: Result<
        OrderedMap<OrderId, ()>,
        CallAuctionInvariantViolation,
    >)
        requires
            self.orders.wf(),
            self.account_orders.wf(),
            self.selected_count(account_id, scope) <= self.orders@.len(),
        ensures
            r is Ok <==> self.selection_consistent(account_id, scope),
            match r {
                Ok(_) => self.selection_fault(account_id, scope) is None,
                Err(error) => self.selection_fault(account_id, scope) == Some(error.detail@),
            },
            r matches Ok(ids) ==> ids.wf() && forall|id: OrderId| #[trigger]
                ids@.dom().contains(id) <==> self.listed_in(account_id, scope, id),
    {
        let mut ids: OrderedMap<OrderId, ()> = OrderedMap::unbounded();
        let ghost buy_ids = account_ids(self.orders@, self.account_side(account_id, Side::Buy));
        let ghost sell_ids = account_ids(self.orders@, self.account_side(account_id, Side::Sell));
        if scope.includes(Side::Buy) {
            let index = self.account_side_snapshot(account_id, Side::Buy);
            match self.try_append_account_side_values(index, account_id, Side::Buy, &mut ids) {
                Ok(()) => {},
                Err(error) => {
                    assert(scope.selects(Side::Buy));
                    return Err(error);
                },
            }
        }
        let ghost half = ids@;
        assert forall|id: OrderId| #[trigger] half.dom().contains(id) <==> scope.selects(Side::Buy)
            && buy_ids.contains(id) by {}
        if scope.includes(Side::Sell) {
            let index = self.account_side_snapshot(account_id, Side::Sell);
            match self.try_append_account_side_values(index, account_id, Side::Sell, &mut ids) {
                Ok(()) => {},
                Err(error) => {
                    assert(scope.selects(Side::Sell));
                    return Err(error);
                },
            }
        }
        proof {
            assert forall|id: OrderId| #[trigger] ids@.dom().contains(id) <==> self.listed_in(
                account_id,
                scope,
                id,
            ) by {
                assert(half.dom().contains(id) <==> scope.selects(Side::Buy) && buy_ids.contains(
                    id,
                ));
                if scope.selects(Side::Buy) && buy_ids.contains(id) {
                    assert(self.listed_in(account_id, scope, id));
                }
                if scope.selects(Side::Sell) && sell_ids.contains(id) {
                    assert(self.listed_in(account_id, scope, id));
                }
            }
        }
        Ok(ids)
    }

    /// Fallibly returns one account's active order IDs in canonical ascending order.
    ///
    /// Fails when the output cannot be reserved, or when the account lists
    /// contradict their declared identity, side, quantity, or cardinality.
    pub fn try_account_active_order_ids(&self, account_id: AccountId, scope: MassCancelScope) -> (r:
        Result<Vec<OrderId>, CallAuctionBookQueryError>)
        requires
            self.orders.wf(),
            self.account_orders.wf(),
        ensures
            match r {
                Ok(ids) => {
                    &&& self.selection_consistent(account_id, scope)
                    &&& forall|i: int, j: int|
                        0 <= i < j < ids@.len() ==> (#[trigger] ids@[i]).value < (
                        #[trigger] ids@[j]).value
                    &&& forall|id: OrderId| #[trigger]
                        ids@.contains(id) <==> self.listed_in(account_id, scope, id)
                },
                Err(CallAuctionBookQueryError::ReservationFailed { resource, maximum }) => {
                    &&& resource == CallAuctionBookQueryResource::AccountOrderIds
                    &&& maximum == self.selected_count(account_id, scope)
                    &&& 0 < maximum
                    &&& self.count_fault(account_id, scope) is None
                },
                Err(CallAuctionBookQueryError::InvariantViolation(error)) => {
                    &&& !self.selection_consistent(account_id, scope)
                    &&& Some(error.detail@) == if self.count_fault(account_id, scope) is Some {
                        self.count_fault(account_id, scope)
                    } else {
                        self.selection_fault(account_id, scope)
                    }
                },
            },
    {
        let buys = self.account_side_snapshot(account_id, Side::Buy);
        let sells = self.account_side_snapshot(account_id, Side::Sell);
        let order_total: usize = self.orders.len();
        let selected_count: usize = match scope {
            MassCancelScope::All => match buys.order_count.checked_add(sells.order_count) {
                Some(sum) => sum,
                None => {
                    let mut detail = account_prefix(account_id);
                    detail.append(" active-order count is exhausted");
                    return Err(
                        CallAuctionBookQueryError::InvariantViolation(
                            CallAuctionInvariantViolation { detail },
                        ),
                    );
                },
            },
            MassCancelScope::Side(Side::Buy) => buys.order_count,
            MassCancelScope::Side(Side::Sell) => sells.order_count,
        };
        if selected_count > order_total {
            let mut detail = account_prefix(account_id);
            detail.append(" active-order count exceeds total active orders");
            return Err(
                CallAuctionBookQueryError::InvariantViolation(
                    CallAuctionInvariantViolation { detail },
                ),
            );
        }
        let mut output: Vec<OrderId> = match reserve_call_auction_book_query_vec(
            selected_count,
            CallAuctionBookQueryResource::AccountOrderIds,
        ) {
            Ok(output) => output,
            Err(error) => {
                return Err(error);
            },
        };
        let ids = match self.collect_selected(account_id, scope) {
            Ok(ids) => ids,
            Err(error) => {
                return Err(CallAuctionBookQueryError::InvariantViolation(error));
            },
        };
        proof {
            ids.lemma_view();
        }
        while output.len() < ids.len()
            invariant
                ids.wf(),
                output@.len() <= ids.entries@.len(),
                forall|i: int| 0 <= i < output@.len() ==> #[trigger] output@[i] == ids.entries@[i].0,
            decreases ids.entries@.len() - output@.len(),
        {
            output.push(ids.key_at(output.len()));
        }
        proof {
            assert forall|i: int, j: int| 0 <= i < j < output@.len() implies (
            #[trigger] output@[i]).value < (#[trigger] output@[j]).value by {
                assert(ids.entries@[i].0.rank() < ids.entries@[j].0.rank());
            }
            assert forall|id: OrderId| #[trigger] output@.contains(id) <==> self.listed_in(
                account_id,
                scope,
                id,
            ) by {
                assert(ids@.dom().contains(id) <==> self.listed_in(account_id, scope, id));
                if output@.contains(id) {
                    let i = choose|i: int| 0 <= i < output@.len() && output@[i] == id;
                    assert(ids@.dom().contains(ids.entries@[i].0));
                }
                if ids@.dom().contains(id) {
                    let i = choose|i: int|
                        0 <= i < ids.entries@.len() && (#[trigger] ids.entries@[i]).0 == id;
                    assert(output@[i] == id);
                }
            }
        }
        Ok(output)
    }
}

/// What a mass cancel of a well-formed book selects.
pub(crate) proof fn lemma_selection(book: &CallAuctionBook, account: AccountId, scope: MassCancelScope)
    requires
        book.wf(),
    ensures
        book.selection_consistent(account, scope),
        book.selected_count(account, scope) <= book.orders@.len() <= usize::MAX,
        book.selected_lots(account, scope) <= u128::MAX,
        book.selected(account, scope).finite(),
        book.selected(account, scope).len() == book.selected_count(account, scope),
        forall|id: OrderId| #[trigger]
            book.listed_in(account, scope, id) <==> book.selected(account, scope).contains(id),
{
    let orders = book.orders@;
    let buys = book.account_side(account, Side::Buy);
    let sells = book.account_side(account, Side::Sell);
    let buy_ids = account_ids(orders, buys);
    let sell_ids = account_ids(orders, sells);
    book.orders.lemma_view();
    assert(account_ok(orders, buys, account, Side::Buy));
    assert(account_ok(orders, sells, account, Side::Sell));
    lemma_account_spells(orders, buys, account, Side::Buy);
    lemma_account_spells(orders, sells, account, Side::Sell);
    let chosen_buys = if scope.selects(Side::Buy) {
        buy_ids
    } else {
        Seq::empty()
    };
    let chosen_sells = if scope.selects(Side::Sell) {
        sell_ids
    } else {
        Seq::empty()
    };
    let all = chosen_buys + chosen_sells;
    let picked = book.selected(account, scope);
    assert forall|i: int| 0 <= i < all.len() implies picked.contains(#[trigger] all[i])
        && orders.dom().contains(all[i]) by {
        if i < chosen_buys.len() {
            assert(in_account(orders, buy_ids[i], account, Side::Buy));
        } else {
            assert(in_account(orders, sell_ids[i - chosen_buys.len()], account, Side::Sell));
        }
    }
    assert forall|i: int, j: int| 0 <= i < j < all.len() implies #[trigger] all[i]
        != #[trigger] all[j] by {
        if j < chosen_buys.len() {
            assert(buy_ids[i] != buy_ids[j]);
        } else if i >= chosen_buys.len() {
            assert(sell_ids[i - chosen_buys.len()] != sell_ids[j - chosen_buys.len()]);
        } else {
            assert(in_account(orders, buy_ids[i], account, Side::Buy));
            assert(in_account(orders, sell_ids[j - chosen_buys.len()], account, Side::Sell));
        }
    }
    assert forall|id: OrderId| picked.contains(id) <==> #[trigger] book.listed_in(
        account,
        scope,
        id,
    ) by {
        if picked.contains(id) {
            let side = orders[id].side;
            assert(in_account(orders, id, account, side));
            assert(scope.selects(side));
            assert(account_ids(orders, book.account_side(account, side)).contains(id));
        }
        if book.listed_in(account, scope, id) {
            let side = choose|side: Side| #[trigger]
                scope.selects(side) && account_ids(
                    orders,
                    book.account_side(account, side),
                ).contains(id);
            let ids = account_ids(orders, book.account_side(account, side));
            let i = choose|i: int| 0 <= i < ids.len() && ids[i] == id;
            if side == Side::Buy {
                assert(in_account(orders, buy_ids[i], account, side));
            } else {
                assert(in_account(orders, sell_ids[i], account, side));
            }
        }
    }
    assert forall|id: OrderId| picked.contains(id) implies all.contains(id) by {
        assert(book.listed_in(account, scope, id));
        let side = orders[id].side;
        assert(in_account(orders, id, account, side));
        if side == Side::Buy {
            let i = choose|i: int| 0 <= i < buy_ids.len() && buy_ids[i] == id;
            assert(all[i] == id);
        } else {
            let i = choose|i: int| 0 <= i < sell_ids.len() && sell_ids[i] == id;
            assert(all[chosen_buys.len() + i] == id);
        }
    }
    lemma_distinct_members(all, orders.dom());
    assert(picked.subset_of(orders.dom())) by {
        assert forall|id: OrderId| picked.contains(id) implies orders.dom().contains(id) by {}
    }
    vstd::set_lib::lemma_len_subset(picked, orders.dom());
    lemma_distinct_members(all, picked);
    crate::chain::lemma_covering_members(all, picked);
    assert forall|side: Side| #[trigger] scope.selects(side) implies account_traced(
        orders,
        book.account_side(account, side),
        account,
        side,
        account_ids(orders, book.account_side(account, side)),
    ) by {}
    lemma_lots_upper(orders, chosen_buys);
    lemma_lots_upper(orders, chosen_sells);
    let count = all.len() as int;
    let bound = u64::MAX as int;
    assert(chosen_buys.len() * bound + chosen_sells.len() * bound == count * bound)
        by (nonlinear_arith)
        requires
            count == chosen_buys.len() + chosen_sells.len(),
    ;
    assert(count * bound <= u128::MAX) by (nonlinear_arith)
        requires
            0 <= count <= u64::MAX,
            bound == u64::MAX,
    ;
}

/// Leaves of several orders are at most as many as their representation allows.
proof fn lemma_lots_upper(orders: RestingOrders, ids: Seq<OrderId>)
    requires
        forall|i: int| 0 <= i < ids.len() ==> orders.dom().contains(#[trigger] ids[i]),
    ensures
        member_sum(leaves(orders), ids) <= ids.len() * (u64::MAX as int),
    decreases ids.len(),
{
    if ids.len() > 0 {
        let shorter = ids.drop_last();
        assert forall|i: int| 0 <= i < shorter.len() implies orders.dom().contains(
            #[trigger] shorter[i],
        ) by {
            assert(shorter[i] == ids[i]);
        }
        lemma_lots_upper(orders, shorter);
        assert(orders.dom().contains(ids[ids.len() - 1]));
        let bound = u64::MAX as int;
        let count = shorter.len() as int;
        assert((count + 1) * bound == count * bound + bound) by (nonlinear_arith);
    } else {
        assert(0 * (u64::MAX as int) == 0) by (nonlinear_arith);
    }
}

/// The orders of `list` are exactly those of a set, in ascending identifier order.
pub open spec fn lists_orders(
    list: Seq<CallAuctionOrderSnapshot>,
    active: Map<OrderId, CallAuctionOrderSnapshot>,
    ids: Set<OrderId>,
) -> bool {
    &&& forall|i: int|
        0 <= i < list.len() ==> ids.contains((#[trigger] list[i]).order_id) && list[i]
            == active[list[i].order_id]
    &&& forall|i: int, j: int|
        0 <= i < j < list.len() ==> (#[trigger] list[i]).order_id.value < (
        #[trigger] list[j]).order_id.value
    &&& forall|id: OrderId| #[trigger]
        ids.contains(id) ==> exists|i: int|
            0 <= i < list.len() && (#[trigger] list[i]).order_id == id
}

/// At most one list holds a set of orders by identity.
pub proof fn lemma_listing_unique(
    left: Seq<CallAuctionOrderSnapshot>,
    right: Seq<CallAuctionOrderSnapshot>,
    active: Map<OrderId, CallAuctionOrderSnapshot>,
    ids: Set<OrderId>,
)
    requires
        lists_orders(left, active, ids),
        lists_orders(right, active, ids),
    ensures
        left == right,
{
    lemma_listing_prefix(left, right, active, ids, left.len() as int);
    lemma_listing_prefix(right, left, active, ids, right.len() as int);
    assert(left =~= right);
}

/// Two listings of one set agree position by position.
proof fn lemma_listing_prefix(
    left: Seq<CallAuctionOrderSnapshot>,
    right: Seq<CallAuctionOrderSnapshot>,
    active: Map<OrderId, CallAuctionOrderSnapshot>,
    ids: Set<OrderId>,
    count: int,
)
    requires
        lists_orders(left, active, ids),
        lists_orders(right, active, ids),
        0 <= count <= left.len(),
    ensures
        count <= right.len(),
        forall|i: int| 0 <= i < count ==> #[trigger] left[i] == right[i],
    decreases count,
{
    if count > 0 {
        let last = count - 1;
        lemma_listing_prefix(left, right, active, ids, last);
        let id = left[last].order_id;
        assert(ids.contains(left[last].order_id));
        let j = choose|j: int| 0 <= j < right.len() && (#[trigger] right[j]).order_id == id;
        if j < last {
            assert(left[j] == right[j]);
            assert(left[j].order_id.value < left[last].order_id.value);
        }
        let other = right[last].order_id;
        assert(ids.contains(right[last].order_id));
        let k = choose|k: int| 0 <= k < left.len() && (#[trigger] left[k]).order_id == other;
        if k < last {
            assert(left[k] == right[k]);
            assert(right[k].order_id.value < right[last].order_id.value);
        } else if k > last {
            assert(left[last].order_id.value < left[k].order_id.value);
            if j > last {
                assert(right[last].order_id.value < right[j].order_id.value);
            }
        }
    }
}

impl CallAuctionBook {
    /// The aggregate effect of one mass cancel.
    pub open spec fn mass_cancel_result(&self, account: AccountId, scope: MassCancelScope) -> CallAuctionMassCancelResult {
        CallAuctionMassCancelResult {
            cancelled_order_count: self.selected_count(account, scope) as u64,
            cancelled_quantity_lots: self.selected_lots(account, scope) as u128,
            state_revision: if self.selected_count(account, scope) == 0 {
                self.state_revision
            } else {
                (self.state_revision + 1) as u64
            },
        }
    }

    /// Whether a selection exists that no revision can record.
    pub open spec fn mass_cancel_exhausted(&self, account: AccountId, scope: MassCancelScope) -> bool {
        self.selected_count(account, scope) > 0 && self.state_revision == u64::MAX
    }

    /// Preflights the aggregate effect of one account-scoped mass cancel.
    ///
    /// An empty selection is valid and preserves the current collection
    /// revision.
    pub fn preflight_mass_cancel(&self, account_id: AccountId, scope: MassCancelScope) -> (r:
        Result<CallAuctionMassCancelResult, CallAuctionMassCancelError>)
        requires
            self.wf(),
        ensures
            self.selected_count(account_id, scope) == self.selected(account_id, scope).len(),
            match r {
                Ok(result) => !self.mass_cancel_exhausted(account_id, scope) && result
                    == self.mass_cancel_result(account_id, scope),
                Err(error) => self.mass_cancel_exhausted(account_id, scope) && error
                    == CallAuctionMassCancelError::StateRevisionExhausted,
            },
    {
        let buys = self.account_side_snapshot(account_id, Side::Buy);
        let sells = self.account_side_snapshot(account_id, Side::Sell);
        proof {
            lemma_selection(self, account_id, scope);
        }
        let mut count: usize = 0;
        let mut lots: u128 = 0;
        if scope.includes(Side::Buy) {
            count = buys.order_count;
            lots = buys.total_quantity;
        }
        if scope.includes(Side::Sell) {
            count = count + sells.order_count;
            lots = lots + sells.total_quantity;
        }
        let state_revision: u64 = if count == 0 {
            self.state_revision
        } else if self.state_revision == u64::MAX {
            return Err(CallAuctionMassCancelError::StateRevisionExhausted);
        } else {
            self.state_revision + 1
        };
        Ok(
            CallAuctionMassCancelResult {
                cancelled_order_count: count as u64,
                cancelled_quantity_lots: lots,
                state_revision,
            },
        )
    }

    /// This book is `old` after one mass cancel.
    pub open spec fn mass_cancels_from(
        &self,
        old: &Self,
        account: AccountId,
        scope: MassCancelScope,
    ) -> bool {
        &&& self.same_shell(old)
        &&& self.active() == old.active().remove_keys(old.selected(account, scope))
        &&& self.accepted() == old.accepted()
        &&& self.next_priority_sequence == old.next_priority_sequence
        &&& self.state_revision == old.mass_cancel_result(account, scope).state_revision
        &&& self.next_trade_id == old.next_trade_id
    }

    /// Orders of one account on the selected sides, by identity.
    pub open spec fn selected_orders(&self, account: AccountId, scope: MassCancelScope) -> Seq<
        CallAuctionOrderSnapshot,
    > {
        choose|list: Seq<CallAuctionOrderSnapshot>|
            lists_orders(list, self.active(), self.selected(account, scope))
    }

    /// A listing of the selected orders shows that they can be listed.
    proof fn lemma_selection_chosen(
        &self,
        account: AccountId,
        scope: MassCancelScope,
        list: Seq<CallAuctionOrderSnapshot>,
    )
        requires
            lists_orders(list, self.active(), self.selected(account, scope)),
        ensures
            lists_orders(
                self.selected_orders(account, scope),
                self.active(),
                self.selected(account, scope),
            ),
    {
    }

    /// Removes every selected order and lists it.
    pub(crate) fn cancel_selected(
        &mut self,
        account_id: AccountId,
        scope: MassCancelScope,
        output: &mut Vec<CallAuctionOrderSnapshot>,
    )
        requires
            old(self).wf(),
            old(output)@.len() == 0,
            !old(self).mass_cancel_exhausted(account_id, scope),
        ensures
            final(self).wf(),
            final(self).mass_cancels_from(old(self), account_id, scope),
            final(output)@.len() == old(self).selected_count(account_id, scope),
            final(output)@ == old(self).selected_orders(account_id, scope),
            lists_orders(
                final(output)@,
                old(self).active(),
                old(self).selected(account_id, scope),
            ),
    {
        proof {
            lemma_selection(self, account_id, scope);
            self.orders.lemma_view();
        }
        let state_revision: u64 = if self.state_revision < u64::MAX {
            self.state_revision + 1
        } else {
            self.state_revision
        };
        let ghost entry = *self;
        let ghost picked = self.selected(account_id, scope);
        let ids = match self.collect_selected(account_id, scope) {
            Ok(ids) => ids,
            Err(_) => {
                assert(false);
                return;
            },
        };
        proof {
            ids.lemma_view();
            assert(ids@.dom() =~= picked) by {
                assert forall|id: OrderId| ids@.dom().contains(id) <==> picked.contains(id) by {
                    assert(ids@.dom().contains(id) <==> entry.listed_in(account_id, scope, id));
                }
            }
            assert(self.active().remove_keys(Set::<OrderId>::empty()) =~= self.active());
        }
        let mut index: usize = 0;
        let ghost mut gone = Set::<OrderId>::empty();
        while index < ids.len()
            invariant
                ids.wf(),
                ids@.dom() == picked,
                picked == entry.selected(account_id, scope),
                entry.wf(),
                self.wf(),
                self.same_shell(&entry),
                self.seen_order_ids == entry.seen_order_ids,
                self.next_priority_sequence == entry.next_priority_sequence,
                self.next_trade_id == entry.next_trade_id,
                self.state_revision == entry.state_revision,
                index <= ids.entries@.len(),
                index == output@.len(),
                forall|i: int|
                    0 <= i < ids.entries@.len() ==> picked.contains((#[trigger] ids.entries@[i]).0),
                forall|id: OrderId| #[trigger]
                    gone.contains(id) <==> exists|i: int|
                        0 <= i < index && (#[trigger] ids.entries@[i]).0 == id,
                self.active() == entry.active().remove_keys(gone),
                forall|i: int|
                    0 <= i < index ==> (#[trigger] output@[i]) == entry.active()[ids.entries@[i].0],
            decreases ids.entries@.len() - index,
        {
            let order_id = ids.key_at(index);
            proof {
                assert(picked.contains(ids.entries@[index as int].0));
                assert(!gone.contains(order_id)) by {
                    if gone.contains(order_id) {
                        let i = choose|i: int|
                            0 <= i < index && (#[trigger] ids.entries@[i]).0 == order_id;
                        assert(ids.entries@[i].0.rank() < ids.entries@[index as int].0.rank());
                    }
                }
                assert(self.active().dom().contains(order_id));
                assert(self.orders@.dom().contains(order_id));
            }
            let snapshot = self.remove_active_order(order_id);
            output.push(snapshot);
            proof {
                let more = gone.insert(order_id);
                assert(entry.active().remove_keys(gone).remove(order_id)
                    =~= entry.active().remove_keys(more));
                assert forall|id: OrderId| #[trigger] more.contains(id) <==> exists|i: int|
                    0 <= i < index + 1 && (#[trigger] ids.entries@[i]).0 == id by {
                    if more.contains(id) {
                        if id == order_id {
                            assert(ids.entries@[index as int].0 == id);
                        } else {
                            assert(gone.contains(id));
                            let i = choose|i: int|
                                0 <= i < index && (#[trigger] ids.entries@[i]).0 == id;
                            assert(ids.entries@[i].0 == id);
                        }
                    }
                    if exists|i: int| 0 <= i < index + 1 && (#[trigger] ids.entries@[i]).0 == id {
                        let i = choose|i: int|
                            0 <= i < index + 1 && (#[trigger] ids.entries@[i]).0 == id;
                        if i < index {
                            assert(gone.contains(id));
                        }
                    }
                }
                gone = more;
            }
            index += 1;
        }
        if ids.len() > 0 {
            self.set_revision(state_revision);
        }
        proof {
            ids.lemma_view();
            assert(gone =~= picked) by {
                assert forall|id: OrderId| gone.contains(id) <==> picked.contains(id) by {
                    if picked.contains(id) {
                        let i = choose|i: int|
                            0 <= i < ids.entries@.len() && (#[trigger] ids.entries@[i]).0 == id;
                        assert(ids.entries@[i].0 == id);
                    }
                }
            }
            assert forall|i: int| 0 <= i < output@.len() implies picked.contains(
                (#[trigger] output@[i]).order_id,
            ) && output@[i] == entry.active()[output@[i].order_id] && output@[i].order_id
                == ids.entries@[i].0 by {
                let id = ids.entries@[i].0;
                assert(picked.contains(id));
                assert(entry.orders@.dom().contains(id));
                assert(entry.order_ok(id));
            }
            assert forall|i: int, j: int| 0 <= i < j < output@.len() implies (
            #[trigger] output@[i]).order_id.value < (#[trigger] output@[j]).order_id.value by {
                assert(ids.entries@[i].0.rank() < ids.entries@[j].0.rank());
            }
            assert forall|id: OrderId| #[trigger] picked.contains(id) implies exists|i: int|
                0 <= i < output@.len() && (#[trigger] output@[i]).order_id == id by {
                let i = choose|i: int|
                    0 <= i < ids.entries@.len() && (#[trigger] ids.entries@[i]).0 == id;
                assert(output@[i].order_id == id);
            }
            vstd::set_lib::lemma_len_subset(picked, entry.orders@.dom());
        }
        proof {
            assert(lists_orders(output@, entry.active(), picked));
            entry.lemma_selection_chosen(account_id, scope, output@);
            lemma_listing_unique(
                output@,
                entry.selected_orders(account_id, scope),
                entry.active(),
                picked,
            );
        }
    }

    /// Removes one account's selected active orders into an output that can
    /// hold `available` snapshots.
    ///
    /// The output must be empty and have room for the complete selection. A
    /// refused request changes nothing.
    pub fn mass_cancel_within(
        &mut self,
        account_id: AccountId,
        scope: MassCancelScope,
        available: usize,
        output: &mut Vec<CallAuctionOrderSnapshot>,
    ) -> (r: Result<CallAuctionMassCancelResult, CallAuctionMassCancelError>)
        requires
            old(self).wf(),
        ensures
            final(self).wf(),
            r == (if old(output)@.len() > 0 {
                Err(CallAuctionMassCancelError::OutputNotEmpty)
            } else if old(self).mass_cancel_exhausted(account_id, scope) {
                Err(CallAuctionMassCancelError::StateRevisionExhausted)
            } else if available < old(self).selected_count(account_id, scope) {
                Err(
                    CallAuctionMassCancelError::OutputCapacityExceeded {
                        required: old(self).selected_count(account_id, scope) as usize,
                        available,
                    },
                )
            } else {
                Ok(old(self).mass_cancel_result(account_id, scope))
            }),
            r is Ok ==> {
                &&& final(self).mass_cancels_from(old(self), account_id, scope)
                &&& final(output)@.len() == old(self).selected_count(account_id, scope)
                &&& lists_orders(
                    final(output)@,
                    old(self).active(),
                    old(self).selected(account_id, scope),
                )
            },
            r is Err ==> *final(self) == *old(self) && final(output)@ == old(output)@,
            0 <= old(self).selected_count(account_id, scope) <= usize::MAX,
    {
        proof {
            lemma_selection(self, account_id, scope);
            self.orders.lemma_view();
        }
        if output.len() != 0 {
            return Err(CallAuctionMassCancelError::OutputNotEmpty);
        }
        let result = match self.preflight_mass_cancel(account_id, scope) {
            Ok(result) => result,
            Err(error) => {
                return Err(error);
            },
        };
        let selected_count: usize = result.cancelled_order_count as usize;
        if available < selected_count {
            return Err(
                CallAuctionMassCancelError::OutputCapacityExceeded {
                    required: selected_count,
                    available,
                },
            );
        }
        self.cancel_selected(account_id, scope, output);
        Ok(result)
    }

    /// Atomically removes one account's selected active orders.
    ///
    /// `output` must be empty and able to hold the complete selection without
    /// reallocation: [`Self::mass_cancel_within`] decides on its capacity.
    /// Selected snapshots are returned in ascending identifier order. A
    /// non-empty selection advances the book revision exactly once; an empty
    /// selection leaves it unchanged. A refused request changes nothing.
    pub fn mass_cancel_into(
        &mut self,
        account_id: AccountId,
        scope: MassCancelScope,
        output: &mut Vec<CallAuctionOrderSnapshot>,
    ) -> (r: Result<CallAuctionMassCancelResult, CallAuctionMassCancelError>)
        requires
            old(self).wf(),
        ensures
            final(self).wf(),
            match r {
                Ok(result) => {
                    &&& old(output)@.len() == 0
                    &&& !old(self).mass_cancel_exhausted(account_id, scope)
                    &&& result == old(self).mass_cancel_result(account_id, scope)
                    &&& final(self).mass_cancels_from(old(self), account_id, scope)
                    &&& final(output)@.len() == old(self).selected_count(account_id, scope)
                    &&& lists_orders(
                        final(output)@,
                        old(self).active(),
                        old(self).selected(account_id, scope),
                    )
                },
                Err(error) => {
                    &&& *final(self) == *old(self)
                    &&& final(output)@ == old(output)@
                    &&& if old(output)@.len() > 0 {
                        error == CallAuctionMassCancelError::OutputNotEmpty
                    } else if old(self).mass_cancel_exhausted(account_id, scope) {
                        error == CallAuctionMassCancelError::StateRevisionExhausted
                    } else {
                        error matches CallAuctionMassCancelError::OutputCapacityExceeded {
                            required,
                            available,
                        } && required == old(self).selected_count(account_id, scope) && available
                            < required
                    }
                },
            },
    {
        let available: usize = allocated(output);
        self.mass_cancel_within(account_id, scope, available, output)
    }

    /// Returns account order IDs of a well-formed book.
    ///
    /// The output grows without a checked reservation; use
    /// [`Self::try_account_active_order_ids`] when its failure must remain typed.
    pub fn account_active_order_ids(&self, account_id: AccountId, scope: MassCancelScope) -> (r:
        Vec<OrderId>)
        requires
            self.wf(),
        ensures
            forall|i: int, j: int|
                0 <= i < j < r@.len() ==> (#[trigger] r@[i]).value < (#[trigger] r@[j]).value,
            forall|id: OrderId| #[trigger]
                r@.contains(id) <==> self.selected(account_id, scope).contains(id),
    {
        proof {
            lemma_selection(self, account_id, scope);
        }
        let mut output: Vec<OrderId> = Vec::new();
        let ids = match self.collect_selected(account_id, scope) {
            Ok(ids) => ids,
            Err(_) => {
                assert(false);
                return output;
            },
        };
        proof {
            ids.lemma_view();
        }
        while output.len() < ids.len()
            invariant
                ids.wf(),
                output@.len() <= ids.entries@.len(),
                forall|i: int| 0 <= i < output@.len() ==> #[trigger] output@[i] == ids.entries@[i].0,
            decreases ids.entries@.len() - output@.len(),
        {
            output.push(ids.key_at(output.len()));
        }
        proof {
            assert forall|i: int, j: int| 0 <= i < j < output@.len() implies (
            #[trigger] output@[i]).value < (#[trigger] output@[j]).value by {
                assert(ids.entries@[i].0.rank() < ids.entries@[j].0.rank());
            }
            assert forall|id: OrderId| #[trigger] output@.contains(id) <==> self.selected(
                account_id,
                scope,
            ).contains(id) by {
                assert(ids@.dom().contains(id) <==> self.listed_in(account_id, scope, id));
                if output@.contains(id) {
                    let i = choose|i: int| 0 <= i < output@.len() && output@[i] == id;
                    assert(ids@.dom().contains(ids.entries@[i].0));
                }
                if ids@.dom().contains(id) {
                    let i = choose|i: int|
                        0 <= i < ids.entries@.len() && (#[trigger] ids.entries@[i]).0 == id;
                    assert(output@[i] == id);
                }
            }
        }
        output
    }

    /// Reservation and occupancy telemetry around the measured scratch capacities.
    pub open spec fn status_with(
        &self,
        bid_level_scratch: usize,
        ask_level_scratch: usize,
        buy_order_scratch: usize,
        sell_order_scratch: usize,
    ) -> CallAuctionResourceStatus {
        CallAuctionResourceStatus {
            configured_active_orders: self.limits.active_orders,
            allocated_active_orders: self.orders.reserved,
            active_orders: self.orders.entries@.len() as usize,
            configured_active_accounts: self.limits.active_orders,
            allocated_active_accounts: self.account_orders.reserved,
            active_accounts: self.account_orders.entries@.len() as usize,
            configured_accepted_order_ids: self.limits.accepted_order_ids,
            allocated_accepted_order_ids: self.seen_order_ids.reserved,
            accepted_order_ids: self.seen_order_ids.entries@.len() as usize,
            allocated_bid_price_levels: self.bids.reserved,
            allocated_ask_price_levels: self.asks.reserved,
            bid_price_levels: self.bids.entries@.len() as usize,
            ask_price_levels: self.asks.entries@.len() as usize,
            bid_level_scratch,
            ask_level_scratch,
            buy_order_scratch,
            sell_order_scratch,
            configured_prepared_uncrosses: self.limits.prepared_uncrosses,
            available_prepared_uncrosses: self.uncross_pool.available@.len() as usize,
            uncross_fill_capacity_per_side: self.uncross_pool.buffer_capacity,
            uncross_trade_capacity: self.uncross_pool.buffer_capacity,
            uncross_cancellation_capacity: self.uncross_pool.buffer_capacity,
        }
    }

    /// Returns reservation and current occupancy telemetry.
    ///
    /// Each scratch capacity is what the allocator gave, which is at least what
    /// the scratch holds.
    pub fn resource_status(&self) -> (r: CallAuctionResourceStatus)
        ensures
            r == self.status_with(
                r.bid_level_scratch,
                r.ask_level_scratch,
                r.buy_order_scratch,
                r.sell_order_scratch,
            ),
            r.bid_level_scratch >= self.bid_level_scratch@.len(),
            r.ask_level_scratch >= self.ask_level_scratch@.len(),
            r.buy_order_scratch >= self.buy_order_scratch@.len(),
            r.sell_order_scratch >= self.sell_order_scratch@.len(),
    {
        CallAuctionResourceStatus {
            configured_active_orders: self.limits.active_orders,
            allocated_active_orders: self.orders.allocation_capacity(),
            active_orders: self.orders.len(),
            configured_active_accounts: self.limits.active_orders,
            allocated_active_accounts: self.account_orders.allocation_capacity(),
            active_accounts: self.account_orders.len(),
            configured_accepted_order_ids: self.limits.accepted_order_ids,
            allocated_accepted_order_ids: self.seen_order_ids.allocation_capacity(),
            accepted_order_ids: self.seen_order_ids.len(),
            allocated_bid_price_levels: self.bids.allocation_capacity(),
            allocated_ask_price_levels: self.asks.allocation_capacity(),
            bid_price_levels: self.bids.len(),
            ask_price_levels: self.asks.len(),
            bid_level_scratch: allocated(&self.bid_level_scratch.values),
            ask_level_scratch: allocated(&self.ask_level_scratch.values),
            buy_order_scratch: allocated(&self.buy_order_scratch.values),
            sell_order_scratch: allocated(&self.sell_order_scratch.values),
            configured_prepared_uncrosses: self.limits.prepared_uncrosses,
            available_prepared_uncrosses: self.uncross_pool.available.len(),
            uncross_fill_capacity_per_side: self.uncross_pool.buffer_capacity,
            uncross_trade_capacity: self.uncross_pool.buffer_capacity,
            uncross_cancellation_capacity: self.uncross_pool.buffer_capacity,
        }
    }
}

} // verus!
