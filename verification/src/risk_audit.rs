//! The offline audit of the reservation ledger.

use vstd::prelude::*;

use crate::auction_risk::{
    account_balanced, account_list, exposure_sums, lemma_balanced, notionals, reservation_links,
    reserved_by, side_lots, CallAuctionRiskAccount, CallAuctionRiskEngine, ReservationTable,
};
use crate::chain::{
    after_prefix, chain, last_of, lemma_covering_members, lemma_distinct_members, lemma_sum_prefix,
    lemma_sum_push, lemma_visit, lemma_visited_chain, lemma_walk, linked, member_sum, visited_links,
};
use crate::domain::{AccountId, OrderId, Side};
use crate::messages::{decimal, push_decimal};
use crate::ordered_map::MapKey;
use crate::risk::{
    conservative_price_magnitude, position_within_limits, reserve_notional,
    worst_case_position_within_limits,
};

verus! {

/// Structural inconsistency between call-auction and risk state.
#[derive(Clone, Debug, PartialEq, Eq)]
pub struct CallAuctionRiskInvariantViolation {
    /// Stable diagnostic description.
    pub detail: String,
}

impl CallAuctionRiskInvariantViolation {
    /// Names one contradiction.
    pub fn new(detail: &str) -> (r: Self)
        ensures
            r.detail@ == detail@,
    {
        CallAuctionRiskInvariantViolation { detail: String::from_str(detail) }
    }

    /// Returns a stable diagnostic description.
    #[must_use]
    pub fn detail(&self) -> (r: &str)
        ensures
            r@ == self.detail@,
    {
        self.detail.as_str()
    }
}

/// The list of the account is `ids`; nothing is said of reservations it omits.
pub open spec fn account_traced(
    table: ReservationTable,
    id: AccountId,
    account: CallAuctionRiskAccount,
    ids: Seq<OrderId>,
) -> bool {
    &&& chain(
        reservation_links(table),
        ids,
        account.reservation_head,
        account.reservation_tail,
    )
    &&& forall|i: int| 0 <= i < ids.len() ==> reserved_by(table, id).contains(#[trigger] ids[i])
    &&& exposure_sums(table, account.exposure, ids)
}

/// The first contradiction met when the reservation list of an account is
/// followed from `current` on, after `count` of its reservations with these sums;
/// `room` reservations may still be met in all lists.
pub open spec fn reservation_walk_fault(
    table: ReservationTable,
    id: AccountId,
    account: CallAuctionRiskAccount,
    room: int,
    count: nat,
    current: Option<OrderId>,
    previous: Option<OrderId>,
    buys: int,
    sells: int,
    notional: int,
) -> Option<Seq<char>>
    decreases room - count,
{
    let exposure = account.exposure;
    match current {
        None => if previous != account.reservation_tail {
            Some("auction risk account reservation tail is inconsistent"@)
        } else if exposure.open_buy_lots != buys || exposure.open_sell_lots != sells
            || exposure.open_notional != notional || exposure.open_orders != count
            || !account.profile.limits.holds(exposure.position_lots as int)
            || !account.profile.limits.bears(
            exposure.position_lots as int,
            exposure.open_buy_lots as int,
            exposure.open_sell_lots as int,
        ) {
            Some(
                "auction risk account "@ + decimal(id.value as nat) + " exposure is invalid"@,
            )
        } else {
            None
        },
        Some(order_id) => {
            let active = table[order_id];
            let reservation = active.snapshot;
            let lots = reservation.quantity_lots as int;
            let bought = if reservation.side == Side::Buy {
                buys + lots
            } else {
                buys
            };
            let sold = if reservation.side == Side::Sell {
                sells + lots
            } else {
                sells
            };
            if count >= room {
                Some(
                    "auction reservation occurs more than once or participates in an account-index cycle"@,
                )
            } else if !table.dom().contains(order_id) {
                Some("auction account index references an absent reservation"@)
            } else if reservation.account_id != id || active.previous != previous {
                Some("auction reservation account membership or previous link is inconsistent"@)
            } else if bought > u128::MAX {
                Some("auction buy reservation aggregate overflows"@)
            } else if sold > u128::MAX {
                Some("auction sell reservation aggregate overflows"@)
            } else if notional + reservation.notional > u128::MAX {
                Some("auction reservation notional aggregate overflows"@)
            } else if count >= u64::MAX {
                Some("auction reservation count aggregate overflows"@)
            } else {
                reservation_walk_fault(
                    table,
                    id,
                    account,
                    room,
                    count + 1,
                    active.next,
                    Some(order_id),
                    bought,
                    sold,
                    notional + reservation.notional,
                )
            }
        },
    }
}

/// The first contradiction in the reservation list of one account, when `indexed`
/// reservations were met before.
pub open spec fn account_fault(
    table: ReservationTable,
    id: AccountId,
    account: CallAuctionRiskAccount,
    indexed: int,
) -> Option<Seq<char>> {
    reservation_walk_fault(
        table,
        id,
        account,
        table.len() - indexed,
        0,
        account.reservation_head,
        None,
        0,
        0,
        0,
    )
}

/// The first contradiction in the reservation lists of the accounts from
/// `position` on.
pub open spec fn account_lists_fault(
    table: ReservationTable,
    accounts: Seq<(AccountId, CallAuctionRiskAccount)>,
    position: int,
    indexed: int,
) -> Option<Seq<char>>
    decreases accounts.len() - position,
{
    if position >= accounts.len() {
        if indexed != table.len() {
            Some("active auction reservation is absent from its account index"@)
        } else {
            None
        }
    } else {
        let (id, account) = accounts[position];
        match account_fault(table, id, account, indexed) {
            Some(detail) => Some(detail),
            None => account_lists_fault(
                table,
                accounts,
                position + 1,
                indexed + account.exposure.open_orders,
            ),
        }
    }
}

/// How an invalid reservation is described.
pub open spec fn reservation_text(id: OrderId) -> Seq<char> {
    "auction reservation "@ + decimal(id.value as nat) + " is invalid"@
}

impl CallAuctionRiskEngine {
    /// The first reservation from `position` on that is misvalued or belongs to
    /// no registered account.
    pub open spec fn economics_fault(&self, position: int) -> Option<Seq<char>>
        decreases self.reservations.entries@.len() - position,
    {
        if position >= self.reservations.entries@.len() {
            None
        } else if !self.reservation_ok(self.reservations.entries@[position].0) {
            Some(reservation_text(self.reservations.entries@[position].0))
        } else {
            self.economics_fault(position + 1)
        }
    }

    /// The first index that is out of order, over its bound or short of its
    /// reservation.
    pub open spec fn bounds_fault(&self) -> Option<Seq<char>> {
        if !self.accounts.wf() {
            Some(
                "auction risk account hash layout is invalid: keys are not strictly ascending"@,
            )
        } else if !self.reservations.wf() {
            Some(
                "auction risk reservation hash layout is invalid: keys are not strictly ascending"@,
            )
        } else if !self.position_scratch.wf() {
            Some(
                "auction risk position-scratch hash layout is invalid: keys are not strictly ascending"@,
            )
        } else if self.accounts.reserved < self.maximum_accounts || self.accounts.maximum
            != self.maximum_accounts || self.accounts.entries@.len() > self.maximum_accounts {
            Some("auction risk account index contradicts configured capacity"@)
        } else if self.reservations.reserved < self.maximum_reservations
            || self.reservations.maximum != self.maximum_reservations
            || self.reservations.entries@.len() > self.maximum_reservations {
            Some("auction risk reservation index contradicts configured capacity"@)
        } else if !self.bounds_ok() {
            Some("auction risk position scratch is undersized or not quiescent"@)
        } else {
            None
        }
    }

    /// The first contradiction that the audit meets.
    pub open spec fn audit_fault(&self) -> Option<Seq<char>> {
        if self.bounds_fault() is Some {
            self.bounds_fault()
        } else if self.economics_fault(0) is Some {
            self.economics_fault(0)
        } else {
            account_lists_fault(self.reservations@, self.accounts.entries@, 0, 0)
        }
    }
}

impl CallAuctionRiskEngine {
    /// Whether the list of the account at one position is consistent.
    spec fn listed(&self, index: int) -> bool {
        let (id, account) = self.accounts.entries@[index];
        account_traced(self.reservations@, id, account, account_list(self.reservations@, account))
    }

    /// The lists of the first `count` accounts, one after the other.
    spec fn lists_concat(&self, count: nat) -> Seq<OrderId>
        decreases count,
    {
        if count == 0 {
            Seq::empty()
        } else {
            self.lists_concat((count - 1) as nat) + account_list(
                self.reservations@,
                self.accounts.entries@[count - 1].1,
            )
        }
    }

    /// Whether the owner of a reservation is among the first `count` accounts.
    spec fn owner_among(&self, id: OrderId, count: nat) -> bool {
        exists|k: int|
            0 <= k < count && (#[trigger] self.accounts.entries@[k]).0
                == self.reservations@[id].snapshot.account_id
    }

    /// Consistent lists share no reservation.
    proof fn lemma_concat(&self, count: nat)
        requires
            self.accounts.wf(),
            count <= self.accounts.entries@.len(),
            forall|k: int| 0 <= k < count ==> #[trigger] self.listed(k),
        ensures
            forall|i: int|
                0 <= i < self.lists_concat(count).len() ==> self.reservations@.dom().contains(
                    #[trigger] self.lists_concat(count)[i],
                ) && self.owner_among(self.lists_concat(count)[i], count),
            forall|i: int, j: int|
                0 <= i < j < self.lists_concat(count).len() ==> #[trigger] self.lists_concat(
                    count,
                )[i] != #[trigger] self.lists_concat(count)[j],
        decreases count,
    {
        if count > 0 {
            let few = (count - 1) as nat;
            self.lemma_concat(few);
            let rest = self.lists_concat(few);
            let (id, account) = self.accounts.entries@[count - 1];
            let part = account_list(self.reservations@, account);
            let all = self.lists_concat(count);
            assert(self.listed(count - 1));
            assert forall|i: int| 0 <= i < all.len() implies self.reservations@.dom().contains(
                #[trigger] all[i],
            ) && self.owner_among(all[i], count) by {
                if i < rest.len() {
                    assert(all[i] == rest[i]);
                    assert(self.owner_among(rest[i], few));
                    let k = choose|k: int|
                        0 <= k < few && (#[trigger] self.accounts.entries@[k]).0
                            == self.reservations@[rest[i]].snapshot.account_id;
                    assert(self.accounts.entries@[k].0
                        == self.reservations@[all[i]].snapshot.account_id);
                } else {
                    assert(all[i] == part[i - rest.len()]);
                    assert(reserved_by(self.reservations@, id).contains(part[i - rest.len()]));
                    assert(self.accounts.entries@[count - 1].0
                        == self.reservations@[all[i]].snapshot.account_id);
                }
            }
            assert forall|i: int, j: int| 0 <= i < j < all.len() implies #[trigger] all[i]
                != #[trigger] all[j] by {
                if j < rest.len() {
                    assert(rest[i] != rest[j]);
                } else if i >= rest.len() {
                    assert(part[i - rest.len()] != part[j - rest.len()]);
                } else {
                    assert(self.owner_among(rest[i], few));
                    let k = choose|k: int|
                        0 <= k < few && (#[trigger] self.accounts.entries@[k]).0
                            == self.reservations@[rest[i]].snapshot.account_id;
                    assert(self.accounts.entries@[k].0.rank()
                        < self.accounts.entries@[count - 1].0.rank());
                    assert(reserved_by(self.reservations@, id).contains(part[j - rest.len()]));
                }
            }
        }
    }

    /// A balanced account has a consistent list.
    proof fn lemma_listed(&self, index: int)
        requires
            self.ledger_ok(),
            0 <= index < self.accounts.entries@.len(),
        ensures
            self.listed(index),
    {
        self.accounts.lemma_view();
        let (id, account) = self.accounts.entries@[index];
        assert(self.accounts@.dom().contains(id));
        reveal(account_balanced);
        assert(account_balanced(self.reservations@, id, account));
    }

    /// A ledger that agrees has room for the list of the next account.
    proof fn lemma_room(&self, count: nat)
        requires
            self.ledger_ok(),
            count <= self.accounts.entries@.len(),
        ensures
            self.lists_concat(count).len() <= self.reservations@.len(),
    {
        assert forall|k: int| 0 <= k < count implies #[trigger] self.listed(k) by {
            self.lemma_listed(k);
        }
        self.lemma_concat(count);
        self.reservations.lemma_view();
        lemma_distinct_members(self.lists_concat(count), self.reservations@.dom());
    }

    proof fn lemma_part(&self, count: nat, index: int, id: OrderId)
        requires
            0 <= index < count,
            account_list(self.reservations@, self.accounts.entries@[index].1).contains(id),
        ensures
            self.lists_concat(count).contains(id),
        decreases count,
    {
        let few = (count - 1) as nat;
        let rest = self.lists_concat(few);
        let part = account_list(self.reservations@, self.accounts.entries@[count - 1].1);
        let all = self.lists_concat(count);
        if index == few {
            let i = choose|i: int| 0 <= i < part.len() && part[i] == id;
            assert(all[rest.len() + i] == id);
        } else {
            self.lemma_part(few, index, id);
            let i = choose|i: int| 0 <= i < rest.len() && rest[i] == id;
            assert(all[i] == id);
        }
    }

    proof fn lemma_part_owner(&self, count: nat, id: OrderId) -> (index: int)
        requires
            count <= self.accounts.entries@.len(),
            forall|k: int| 0 <= k < count ==> #[trigger] self.listed(k),
            self.lists_concat(count).contains(id),
        ensures
            0 <= index < count,
            account_list(self.reservations@, self.accounts.entries@[index].1).contains(id),
            self.reservations@.dom().contains(id),
            self.reservations@[id].snapshot.account_id == self.accounts.entries@[index].0,
        decreases count,
    {
        let all = self.lists_concat(count);
        let i = choose|i: int| 0 <= i < all.len() && all[i] == id;
        let few = (count - 1) as nat;
        let rest = self.lists_concat(few);
        let (owner, account) = self.accounts.entries@[count - 1];
        let part = account_list(self.reservations@, account);
        if i < rest.len() {
            assert(rest[i] == id);
            self.lemma_part_owner(few, id)
        } else {
            assert(part[i - rest.len()] == id);
            assert(self.listed(count - 1));
            assert(reserved_by(self.reservations@, owner).contains(part[i - rest.len()]));
            count - 1
        }
    }

    /// Once every list is consistent, the ledger agrees exactly when no
    /// reservation is left over.
    proof fn lemma_complete(&self)
        requires
            self.accounts.wf(),
            self.reservations.wf(),
            self.position_scratch.wf(),
            forall|id: OrderId| #[trigger]
                self.reservations@.dom().contains(id) ==> self.reservation_ok(id),
            forall|k: int| 0 <= k < self.accounts.entries@.len() ==> #[trigger] self.listed(k),
        ensures
            self.ledger_ok() <==> self.lists_concat(self.accounts.entries@.len()).len()
                == self.reservations@.len(),
    {
        let count = self.accounts.entries@.len();
        let all = self.lists_concat(count);
        let table = self.reservations@;
        self.lemma_concat(count);
        self.accounts.lemma_view();
        self.reservations.lemma_view();
        lemma_distinct_members(all, table.dom());
        if all.len() == table.len() {
            assert forall|id: AccountId| #[trigger] self.accounts@.dom().contains(
                id,
            ) implies account_balanced(table, id, self.accounts@[id]) by {
                let k = choose|k: int|
                    0 <= k < count && (#[trigger] self.accounts.entries@[k]).0 == id;
                let account = self.accounts.entries@[k].1;
                let ids = account_list(table, account);
                assert(self.listed(k));
                assert forall|order: OrderId| #[trigger] reserved_by(table, id).contains(
                    order,
                ) implies ids.contains(order) by {
                    assert(all.contains(order));
                    let index = self.lemma_part_owner(count, order);
                    if index != k {
                        if index < k {
                            assert(self.accounts.entries@[index].0.rank()
                                < self.accounts.entries@[k].0.rank());
                        } else {
                            assert(self.accounts.entries@[k].0.rank()
                                < self.accounts.entries@[index].0.rank());
                        }
                    }
                }
                lemma_balanced(table, id, account, ids);
            }
        }
        if self.ledger_ok() {
            assert forall|order: OrderId| #[trigger] table.dom().contains(
                order,
            ) implies all.contains(order) by {
                assert(self.reservation_ok(order));
                let id = table[order].snapshot.account_id;
                assert(self.accounts@.dom().contains(id));
                let k = choose|k: int|
                    0 <= k < count && (#[trigger] self.accounts.entries@[k]).0 == id;
                let account = self.accounts.entries@[k].1;
                assert(account_balanced(table, id, account));
                reveal(account_balanced);
                assert(reserved_by(table, id).contains(order));
                assert(account_list(table, account).contains(order));
                self.lemma_part(count, k, order);
            }
            lemma_covering_members(all, table.dom());
        }
    }

    /// Follows the reservation list of one account and returns the number of
    /// reservations followed so far.
    fn validate_account_reservations(
        &self,
        account_id: AccountId,
        account: CallAuctionRiskAccount,
        indexed_reservations: usize,
    ) -> (r: Result<usize, CallAuctionRiskInvariantViolation>)
        requires
            self.reservations.wf(),
            account.profile.limits.wf(),
            indexed_reservations <= self.reservations@.len(),
        ensures
            r is Ok <==> {
                &&& account_traced(
                    self.reservations@,
                    account_id,
                    account,
                    account_list(self.reservations@, account),
                )
                &&& indexed_reservations + account.exposure.open_orders <= self.reservations@.len()
                &&& account.profile.limits.holds(account.exposure.position_lots as int)
                &&& account.profile.limits.bears(
                    account.exposure.position_lots as int,
                    account.exposure.open_buy_lots as int,
                    account.exposure.open_sell_lots as int,
                )
            },
            r matches Ok(total) ==> total == indexed_reservations + account.exposure.open_orders,
            ({
                let fault = account_fault(
                    self.reservations@,
                    account_id,
                    account,
                    indexed_reservations as int,
                );
                match r {
                    Ok(_) => fault is None,
                    Err(error) => fault == Some(error.detail@),
                }
            }),
    {
        let ghost table = self.reservations@;
        let ghost links = reservation_links(table);
        let ghost expected = account_list(table, account);
        let ghost listed = account_traced(table, account_id, account, expected);
        let mut current = account.reservation_head;
        let mut previous: Option<OrderId> = None;
        let mut open_buy_lots: u128 = 0;
        let mut open_sell_lots: u128 = 0;
        let mut open_notional: u128 = 0;
        let mut open_orders: u64 = 0;
        let mut indexed: usize = indexed_reservations;
        let ghost mut ids = Seq::<OrderId>::empty();
        proof {
            assert(expected.take(0) =~= ids);
        }
        while current.is_some()
            invariant
                self.reservations.wf(),
                table == self.reservations@,
                links == reservation_links(table),
                expected == account_list(table, account),
                listed == account_traced(table, account_id, account, expected),
                visited_links(links, ids, account.reservation_head, current),
                previous == last_of(ids),
                account_fault(table, account_id, account, indexed_reservations as int)
                    == reservation_walk_fault(
                    table,
                    account_id,
                    account,
                    table.len() - indexed_reservations,
                    open_orders as nat,
                    current,
                    previous,
                    open_buy_lots as int,
                    open_sell_lots as int,
                    open_notional as int,
                ),
                open_orders == ids.len(),
                indexed == indexed_reservations + open_orders,
                indexed <= table.len(),
                exposure_sums_partial(table, open_buy_lots, open_sell_lots, open_notional, ids),
                forall|i: int|
                    0 <= i < ids.len() ==> reserved_by(table, account_id).contains(
                        #[trigger] ids[i],
                    ),
                listed ==> open_orders <= expected.len() && ids == expected.take(
                    open_orders as int,
                ) && current == after_prefix(expected, open_orders as int),
            decreases table.len() - indexed,
        {
            let order_id = current.unwrap();
            proof {
                if listed {
                    assert(reserved_by(table, account_id).contains(expected[open_orders as int]));
                    assert(linked(links, expected, open_orders as int));
                    assert(expected.take(open_orders + 1) =~= ids.push(order_id));
                    if open_orders > 0 {
                        assert(ids[open_orders - 1] == expected[open_orders - 1]);
                    }
                    assert forall|i: int| 0 <= i < expected.len() implies table.dom().contains(
                        #[trigger] expected[i],
                    ) by {
                        assert(reserved_by(table, account_id).contains(expected[i]));
                    }
                    lemma_sum_prefix(side_lots(table, Side::Buy), expected, open_orders + 1);
                    lemma_sum_prefix(side_lots(table, Side::Sell), expected, open_orders + 1);
                    lemma_sum_prefix(notionals(table), expected, open_orders + 1);
                }
                lemma_sum_push(side_lots(table, Side::Buy), ids, order_id);
                lemma_sum_push(side_lots(table, Side::Sell), ids, order_id);
                lemma_sum_push(notionals(table), ids, order_id);
            }
            if indexed >= self.reservations.len() {
                return Err(
                    CallAuctionRiskInvariantViolation::new(
                        "auction reservation occurs more than once or participates in an account-index cycle",
                    ),
                );
            }
            let active = match self.reservations.get(order_id) {
                Some(active) => active,
                None => {
                    return Err(
                        CallAuctionRiskInvariantViolation::new(
                            "auction account index references an absent reservation",
                        ),
                    );
                },
            };
            let reservation = active.snapshot;
            if reservation.account_id != account_id || active.previous != previous {
                return Err(
                    CallAuctionRiskInvariantViolation::new(
                        "auction reservation account membership or previous link is inconsistent",
                    ),
                );
            }
            match reservation.side {
                Side::Buy => match open_buy_lots.checked_add(reservation.quantity_lots as u128) {
                    Some(total) => {
                        open_buy_lots = total;
                    },
                    None => {
                        return Err(
                            CallAuctionRiskInvariantViolation::new(
                                "auction buy reservation aggregate overflows",
                            ),
                        );
                    },
                },
                Side::Sell => match open_sell_lots.checked_add(reservation.quantity_lots as u128) {
                    Some(total) => {
                        open_sell_lots = total;
                    },
                    None => {
                        return Err(
                            CallAuctionRiskInvariantViolation::new(
                                "auction sell reservation aggregate overflows",
                            ),
                        );
                    },
                },
            }
            match open_notional.checked_add(reservation.notional) {
                Some(total) => {
                    open_notional = total;
                },
                None => {
                    return Err(
                        CallAuctionRiskInvariantViolation::new(
                            "auction reservation notional aggregate overflows",
                        ),
                    );
                },
            }
            match open_orders.checked_add(1) {
                Some(total) => {
                    open_orders = total;
                },
                None => {
                    return Err(
                        CallAuctionRiskInvariantViolation::new(
                            "auction reservation count aggregate overflows",
                        ),
                    );
                },
            }
            proof {
                lemma_visit(links, ids, account.reservation_head, order_id);
                let grown = ids.push(order_id);
                assert forall|i: int| 0 <= i < grown.len() implies reserved_by(
                    table,
                    account_id,
                ).contains(#[trigger] grown[i]) by {
                    if i < ids.len() {
                        assert(reserved_by(table, account_id).contains(ids[i]));
                    }
                }
                ids = grown;
            }
            indexed = indexed + 1;
            previous = Some(order_id);
            current = active.next;
        }
        let exposure = account.exposure;
        proof {
            if listed {
                assert(expected.take(open_orders as int) =~= expected);
            }
            lemma_visited_chain(links, ids, account.reservation_head);
            if previous == account.reservation_tail && exposure.open_orders == open_orders {
                lemma_walk(links, ids, account.reservation_head, account.reservation_tail);
            }
        }
        if previous != account.reservation_tail {
            return Err(
                CallAuctionRiskInvariantViolation::new(
                    "auction risk account reservation tail is inconsistent",
                ),
            );
        }
        if exposure.open_buy_lots != open_buy_lots || exposure.open_sell_lots != open_sell_lots
            || exposure.open_notional != open_notional || exposure.open_orders != open_orders
            || !position_within_limits(exposure.position_lots, account.profile.limits)
            || !worst_case_position_within_limits(
            exposure.position_lots,
            exposure.open_buy_lots,
            exposure.open_sell_lots,
            account.profile.limits,
        ) {
            let mut detail = String::from_str("auction risk account ");
            push_decimal(&mut detail, account_id.value as u128);
            detail.append(" exposure is invalid");
            return Err(CallAuctionRiskInvariantViolation { detail });
        }
        Ok(indexed)
    }

    /// Audits the valuation and the owner of every reservation.
    fn validate_reservation_economics(&self) -> (r: Result<(), CallAuctionRiskInvariantViolation>)
        requires
            self.accounts.wf(),
            self.reservations.wf(),
        ensures
            r is Ok <==> forall|id: OrderId| #[trigger]
                self.reservations@.dom().contains(id) ==> self.reservation_ok(id),
            match r {
                Ok(_) => self.economics_fault(0) is None,
                Err(error) => self.economics_fault(0) == Some(error.detail@),
            },
    {
        let mut index: usize = 0;
        proof {
            self.reservations.lemma_view();
        }
        while index < self.reservations.len()
            invariant
                self.accounts.wf(),
                self.reservations.wf(),
                index <= self.reservations.entries@.len(),
                self.economics_fault(0) == self.economics_fault(index as int),
                forall|i: int|
                    0 <= i < index ==> self.reservation_ok(
                        (#[trigger] self.reservations.entries@[i]).0,
                    ),
            decreases self.reservations.entries@.len() - index,
        {
            let ghost id = self.reservations.entries@[index as int].0;
            let reservation = self.reservations.value_at(index).snapshot;
            proof {
                self.reservations.lemma_view();
                assert(self.reservations@.dom().contains(id));
            }
            let expected_valuation: u64 = conservative_price_magnitude(
                self.definition,
                reservation.side,
                reservation.constraint,
            );
            let expected_notional: u128 = reserve_notional(
                expected_valuation,
                reservation.quantity_lots,
            );
            if reservation.quantity_lots == 0 || reservation.valuation_per_lot
                != expected_valuation || reservation.notional != expected_notional
                || !self.accounts.contains_key(reservation.account_id) {
                proof {
                    assert(!self.reservation_ok(id));
                }
                let mut detail = String::from_str("auction reservation ");
                push_decimal(&mut detail, self.reservations.key_at(index).value as u128);
                detail.append(" is invalid");
                return Err(CallAuctionRiskInvariantViolation { detail });
            }
            index += 1;
        }
        proof {
            self.reservations.lemma_view();
            assert forall|id: OrderId| #[trigger]
                self.reservations@.dom().contains(id) implies self.reservation_ok(id) by {
                let i = choose|i: int|
                    0 <= i < self.reservations.entries@.len() && (
                    #[trigger] self.reservations.entries@[i]).0 == id;
                assert(self.reservation_ok(self.reservations.entries@[i].0));
            }
        }
        Ok(())
    }

    /// Follows the reservation lists of all accounts.
    fn validate_account_reservation_index(&self) -> (r: Result<
        (),
        CallAuctionRiskInvariantViolation,
    >)
        requires
            self.config_ok(),
            self.accounts.wf(),
            self.reservations.wf(),
            self.position_scratch.wf(),
            forall|id: OrderId| #[trigger]
                self.reservations@.dom().contains(id) ==> self.reservation_ok(id),
        ensures
            r is Ok <==> self.ledger_ok() && self.limits_ok(),
            match r {
                Ok(_) => account_lists_fault(self.reservations@, self.accounts.entries@, 0, 0) is None,
                Err(error) => account_lists_fault(
                    self.reservations@,
                    self.accounts.entries@,
                    0,
                    0,
                ) == Some(error.detail@),
            },
    {
        let mut indexed_reservations: usize = 0;
        let mut index: usize = 0;
        proof {
            self.reservations.lemma_view();
        }
        while index < self.accounts.len()
            invariant
                self.config_ok(),
                self.accounts.wf(),
                self.reservations.wf(),
                self.position_scratch.wf(),
                index <= self.accounts.entries@.len(),
                account_lists_fault(self.reservations@, self.accounts.entries@, 0, 0)
                    == account_lists_fault(
                    self.reservations@,
                    self.accounts.entries@,
                    index as int,
                    indexed_reservations as int,
                ),
                indexed_reservations == self.lists_concat(index as nat).len(),
                indexed_reservations <= self.reservations@.len(),
                forall|k: int| 0 <= k < index ==> #[trigger] self.listed(k),
                forall|k: int|
                    0 <= k < index ==> self.account_bears((#[trigger] self.accounts.entries@[k]).0),
            decreases self.accounts.entries@.len() - index,
        {
            let account_id = self.accounts.key_at(index);
            let account = self.accounts.value_at(index);
            proof {
                self.accounts.lemma_view();
                assert(self.accounts@.dom().contains(account_id));
                assert(self.accounts@[account_id] == account);
                let part = account_list(self.reservations@, account);
                assert(self.lists_concat((index + 1) as nat).len() == indexed_reservations
                    + part.len());
                if self.ledger_ok() && self.limits_ok() {
                    self.lemma_room((index + 1) as nat);
                    self.lemma_listed(index as int);
                    assert(self.account_bears(account_id));
                }
            }
            match self.validate_account_reservations(account_id, account, indexed_reservations) {
                Ok(total) => {
                    proof {
                        assert(self.listed(index as int));
                    }
                    indexed_reservations = total;
                },
                Err(error) => {
                    return Err(error);
                },
            }
            index += 1;
        }
        proof {
            self.lemma_complete();
            self.accounts.lemma_view();
            assert forall|id: AccountId| #[trigger] self.accounts@.dom().contains(
                id,
            ) implies self.account_bears(id) by {
                let k = choose|k: int|
                    0 <= k < self.accounts.entries@.len() && (
                    #[trigger] self.accounts.entries@[k]).0 == id;
                assert(self.account_bears(self.accounts.entries@[k].0));
            }
        }
        if indexed_reservations != self.reservations.len() {
            return Err(
                CallAuctionRiskInvariantViolation::new(
                    "active auction reservation is absent from its account index",
                ),
            );
        }
        Ok(())
    }

    /// Audits the layout and the capacity of every index.
    fn validate_resource_bounds(&self) -> (r: Result<(), CallAuctionRiskInvariantViolation>)
        ensures
            r is Ok <==> self.accounts.wf() && self.reservations.wf() && self.position_scratch.wf()
                && self.bounds_ok(),
            match r {
                Ok(_) => self.bounds_fault() is None,
                Err(error) => self.bounds_fault() == Some(error.detail@),
            },
    {
        if !self.accounts.is_sorted() {
            return Err(
                CallAuctionRiskInvariantViolation::new(
                    "auction risk account hash layout is invalid: keys are not strictly ascending",
                ),
            );
        }
        if !self.reservations.is_sorted() {
            return Err(
                CallAuctionRiskInvariantViolation::new(
                    "auction risk reservation hash layout is invalid: keys are not strictly ascending",
                ),
            );
        }
        if !self.position_scratch.is_sorted() {
            return Err(
                CallAuctionRiskInvariantViolation::new(
                    "auction risk position-scratch hash layout is invalid: keys are not strictly ascending",
                ),
            );
        }
        if self.accounts.allocation_capacity() < self.maximum_accounts || self.accounts.maximum()
            != self.maximum_accounts || self.accounts.len() > self.maximum_accounts {
            return Err(
                CallAuctionRiskInvariantViolation::new(
                    "auction risk account index contradicts configured capacity",
                ),
            );
        }
        if self.reservations.allocation_capacity() < self.maximum_reservations
            || self.reservations.maximum() != self.maximum_reservations || self.reservations.len()
            > self.maximum_reservations {
            return Err(
                CallAuctionRiskInvariantViolation::new(
                    "auction risk reservation index contradicts configured capacity",
                ),
            );
        }
        if self.position_scratch.allocation_capacity() < self.maximum_accounts
            || self.position_scratch.maximum() != self.maximum_accounts
            || !self.position_scratch.is_empty() {
            return Err(
                CallAuctionRiskInvariantViolation::new(
                    "auction risk position scratch is undersized or not quiescent",
                ),
            );
        }
        Ok(())
    }

    /// Audits capacity, valuations, account lists, exposures and position
    /// limits, and accepts the ledger exactly when all of them agree.
    pub fn validate(&self) -> (r: Result<(), CallAuctionRiskInvariantViolation>)
        requires
            self.config_ok(),
        ensures
            r is Ok <==> self.audited(),
            match r {
                Ok(_) => self.audit_fault() is None,
                Err(error) => self.audit_fault() == Some(error.detail@),
            },
    {
        match self.validate_resource_bounds() {
            Ok(()) => {},
            Err(error) => {
                return Err(error);
            },
        }
        match self.validate_reservation_economics() {
            Ok(()) => {},
            Err(error) => {
                return Err(error);
            },
        }
        self.validate_account_reservation_index()
    }
}

/// Running sums over the visited part of a list.
spec fn exposure_sums_partial(
    table: ReservationTable,
    buys: u128,
    sells: u128,
    notional: u128,
    ids: Seq<OrderId>,
) -> bool {
    &&& buys == member_sum(side_lots(table, Side::Buy), ids)
    &&& sells == member_sum(side_lots(table, Side::Sell), ids)
    &&& notional == member_sum(notionals(table), ids)
}

} // verus!
