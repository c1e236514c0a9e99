//! Insertion, reduction and removal of reservations.

use vstd::prelude::*;

use crate::auction_risk::{
    account_balanced, account_list, exposure_covers, exposure_fits, exposure_less, exposure_with,
    exposure_with_reservation, exposure_without_reservation, lemma_balanced, lemma_balanced_frame,
    notionals, reservation_links, reservation_of, reserved_by, side_lots,
    ActiveCallAuctionReservation, CallAuctionReservationSnapshot, CallAuctionRiskAccount,
    CallAuctionRiskEngine, ReservationTable,
};
use crate::book_types::CallAuctionOrderSnapshot;
use crate::chain::{
    lemma_list_facts, lemma_list_push, lemma_list_remove, lemma_member_facts, lemma_sum_bounds,
    lemma_sum_frame, lemma_sum_push, lemma_sum_remove, Link,
};
use crate::domain::{AccountId, OrderId, Side};
use crate::risk::{conservative_price_magnitude, reserve_notional, RiskSnapshot};

verus! {

/// A reservation is part of the exposure of its account.
pub proof fn lemma_covered(
    table: ReservationTable,
    id: AccountId,
    account: CallAuctionRiskAccount,
    order: OrderId,
)
    requires
        account_balanced(table, id, account),
        table.dom().contains(order),
        table[order].snapshot.account_id == id,
    ensures
        exposure_covers(account.exposure, table[order].snapshot),
{
    reveal(account_balanced);
    let ids = account_list(table, account);
    let members = reserved_by(table, id);
    let links = reservation_links(table);
    assert(members.contains(order));
    let index = lemma_member_facts(
        links,
        members,
        account.reservation_head,
        account.reservation_tail,
        ids,
        order,
    );
    assert forall|i: int| 0 <= i < ids.len() implies table.dom().contains(#[trigger] ids[i]) by {
        assert(members.contains(ids[i]));
    }
    lemma_sum_bounds(side_lots(table, Side::Buy), ids, index);
    lemma_sum_bounds(side_lots(table, Side::Sell), ids, index);
    lemma_sum_bounds(notionals(table), ids, index);
}

/// Appending a reservation to the list of its account keeps the account balanced.
proof fn lemma_appended(
    before: ReservationTable,
    after: ReservationTable,
    account: CallAuctionRiskAccount,
    order: OrderId,
    snapshot: CallAuctionReservationSnapshot,
)
    requires
        account_balanced(before, snapshot.account_id, account),
        !before.dom().contains(order),
        exposure_fits(account.exposure, snapshot),
        after.dom() == before.dom().insert(order),
        after[order] == (ActiveCallAuctionReservation {
            snapshot,
            previous: account.reservation_tail,
            next: None,
        }),
        forall|other: OrderId| #[trigger]
            before.dom().contains(other) ==> after[other] == (ActiveCallAuctionReservation {
                next: if account.reservation_tail == Some(other) {
                    Some(order)
                } else {
                    before[other].next
                },
                ..before[other]
            }),
    ensures
        account_balanced(
            after,
            snapshot.account_id,
            CallAuctionRiskAccount {
                profile: account.profile,
                exposure: exposure_with(account.exposure, snapshot),
                reservation_head: if account.reservation_head is None {
                    Some(order)
                } else {
                    account.reservation_head
                },
                reservation_tail: Some(order),
            },
        ),
{
    reveal(account_balanced);
    let id = snapshot.account_id;
    let ids = account_list(before, account);
    let members = reserved_by(before, id);
    assert forall|other: OrderId| #[trigger] members.contains(other) implies reservation_links(
        after,
    ).dom().contains(other) && reservation_links(after)[other] == (Link {
        previous: reservation_links(before)[other].previous,
        next: if account.reservation_tail == Some(other) {
            Some(order)
        } else {
            reservation_links(before)[other].next
        },
    }) by {
        assert(before.dom().contains(other));
    }
    lemma_list_push(
        reservation_links(before),
        reservation_links(after),
        members,
        account.reservation_head,
        account.reservation_tail,
        ids,
        order,
    );
    assert(reserved_by(after, id) =~= members.insert(order)) by {
        assert forall|other: OrderId| reserved_by(after, id).contains(other)
            <==> members.insert(order).contains(other) by {
            if before.dom().contains(other) {
                assert(after[other].snapshot == before[other].snapshot);
            }
        }
    }
    assert forall|i: int| 0 <= i < ids.len() implies before.dom().contains(#[trigger] ids[i])
        && after[ids[i]].snapshot == before[ids[i]].snapshot by {
        assert(members.contains(ids[i]));
    }
    lemma_sum_frame(side_lots(before, Side::Buy), side_lots(after, Side::Buy), ids);
    lemma_sum_frame(side_lots(before, Side::Sell), side_lots(after, Side::Sell), ids);
    lemma_sum_frame(notionals(before), notionals(after), ids);
    lemma_sum_push(side_lots(after, Side::Buy), ids, order);
    lemma_sum_push(side_lots(after, Side::Sell), ids, order);
    lemma_sum_push(notionals(after), ids, order);
    lemma_balanced(
        after,
        id,
        CallAuctionRiskAccount {
            profile: account.profile,
            exposure: exposure_with(account.exposure, snapshot),
            reservation_head: if account.reservation_head is None {
                Some(order)
            } else {
                account.reservation_head
            },
            reservation_tail: Some(order),
        },
        ids.push(order),
    );
}

/// Unlinking a reservation from the list of its account keeps the account balanced.
proof fn lemma_unlinked(
    before: ReservationTable,
    after: ReservationTable,
    account: CallAuctionRiskAccount,
    order: OrderId,
)
    requires
        before.dom().contains(order),
        account_balanced(before, before[order].snapshot.account_id, account),
        after.dom() == before.dom().remove(order),
        forall|other: OrderId| #[trigger]
            after.dom().contains(other) ==> after[other] == (ActiveCallAuctionReservation {
                snapshot: before[other].snapshot,
                previous: if before[order].next == Some(other) {
                    before[order].previous
                } else {
                    before[other].previous
                },
                next: if before[order].previous == Some(other) {
                    before[order].next
                } else {
                    before[other].next
                },
            }),
    ensures
        account_balanced(
            after,
            before[order].snapshot.account_id,
            CallAuctionRiskAccount {
                profile: account.profile,
                exposure: exposure_less(account.exposure, before[order].snapshot),
                reservation_head: if before[order].previous is None {
                    before[order].next
                } else {
                    account.reservation_head
                },
                reservation_tail: if before[order].next is None {
                    before[order].previous
                } else {
                    account.reservation_tail
                },
            },
        ),
{
    let id = before[order].snapshot.account_id;
    lemma_covered(before, id, account, order);
    reveal(account_balanced);
    let ids = account_list(before, account);
    let members = reserved_by(before, id);
    assert(members.contains(order));
    let _ = lemma_member_facts(
        reservation_links(before),
        members,
        account.reservation_head,
        account.reservation_tail,
        ids,
        order,
    );
    assert forall|other: OrderId| #[trigger] members.contains(other) && other
        != order implies reservation_links(after).dom().contains(other) && reservation_links(
        after,
    )[other] == (Link {
        previous: if reservation_links(before)[order].next == Some(other) {
            reservation_links(before)[order].previous
        } else {
            reservation_links(before)[other].previous
        },
        next: if reservation_links(before)[order].previous == Some(other) {
            reservation_links(before)[order].next
        } else {
            reservation_links(before)[other].next
        },
    }) by {
        assert(after.dom().contains(other));
    }
    let index = lemma_list_remove(
        reservation_links(before),
        reservation_links(after),
        members,
        account.reservation_head,
        account.reservation_tail,
        ids,
        order,
    );
    let shorter = ids.remove(index);
    assert(reserved_by(after, id) =~= members.remove(order)) by {
        assert forall|other: OrderId| reserved_by(after, id).contains(other) <==> members.remove(
            order,
        ).contains(other) by {
            if after.dom().contains(other) {
                assert(after[other].snapshot == before[other].snapshot);
            }
        }
    }
    assert forall|i: int| 0 <= i < shorter.len() implies before.dom().contains(
        #[trigger] shorter[i],
    ) && after.dom().contains(shorter[i]) && after[shorter[i]].snapshot
        == before[shorter[i]].snapshot by {
        assert(members.remove(order).contains(shorter[i]));
        assert(after.dom().contains(shorter[i]));
    }
    lemma_sum_remove(side_lots(before, Side::Buy), ids, index);
    lemma_sum_remove(side_lots(before, Side::Sell), ids, index);
    lemma_sum_remove(notionals(before), ids, index);
    lemma_sum_frame(side_lots(before, Side::Buy), side_lots(after, Side::Buy), shorter);
    lemma_sum_frame(side_lots(before, Side::Sell), side_lots(after, Side::Sell), shorter);
    lemma_sum_frame(notionals(before), notionals(after), shorter);
    lemma_balanced(
        after,
        id,
        CallAuctionRiskAccount {
            profile: account.profile,
            exposure: exposure_less(account.exposure, before[order].snapshot),
            reservation_head: if before[order].previous is None {
                before[order].next
            } else {
                account.reservation_head
            },
            reservation_tail: if before[order].next is None {
                before[order].previous
            } else {
                account.reservation_tail
            },
        },
        shorter,
    );
}

impl CallAuctionRiskEngine {
    /// Reserves one active order.
    pub fn insert_reservation(&mut self, order: CallAuctionOrderSnapshot)
        requires
            old(self).ledger_ok(),
            order.quantity.lots > 0,
            !old(self).reserved().dom().contains(order.order_id),
            old(self).accounts@.dom().contains(order.account_id),
            exposure_fits(
                old(self).accounts@[order.account_id].exposure,
                reservation_of(old(self).definition, order),
            ),
        ensures
            final(self).ledger_ok(),
            final(self).reserved() == old(self).reserved().insert(
                order.order_id,
                reservation_of(old(self).definition, order),
            ),
            final(self).reservations.entries@.len() == old(self).reservations.entries@.len() + 1,
            final(self).same_but_account(
                old(self),
                order.account_id,
                exposure_with(
                    old(self).accounts@[order.account_id].exposure,
                    reservation_of(old(self).definition, order),
                ),
            ),
    {
        let valuation_per_lot: u64 = conservative_price_magnitude(
            self.definition,
            order.side,
            order.constraint,
        );
        let notional: u128 = reserve_notional(valuation_per_lot, order.quantity.lots);
        let reservation = CallAuctionReservationSnapshot {
            account_id: order.account_id,
            side: order.side,
            constraint: order.constraint,
            valuation_per_lot,
            quantity_lots: order.quantity.lots,
            notional,
        };
        self.append_reservation(order.order_id, reservation);
    }

    /// Appends a reservation to the list of its account.
    fn append_reservation(&mut self, order_id: OrderId, reservation: CallAuctionReservationSnapshot)
        requires
            old(self).ledger_ok(),
            reservation.priced(old(self).definition),
            !old(self).reservations@.dom().contains(order_id),
            old(self).accounts@.dom().contains(reservation.account_id),
            exposure_fits(old(self).accounts@[reservation.account_id].exposure, reservation),
        ensures
            final(self).ledger_ok(),
            final(self).reserved() == old(self).reserved().insert(order_id, reservation),
            final(self).reservations.entries@.len() == old(self).reservations.entries@.len() + 1,
            final(self).same_but_account(
                old(self),
                reservation.account_id,
                exposure_with(old(self).accounts@[reservation.account_id].exposure, reservation),
            ),
    {
        let ghost entry = *self;
        let account_id = reservation.account_id;
        let account = self.accounts.fetch(account_id);
        let previous = account.reservation_tail;
        proof {
            assert(account_balanced(entry.reservations@, account_id, account));
            reveal(account_balanced);
            lemma_list_facts(
                reservation_links(entry.reservations@),
                reserved_by(entry.reservations@, account_id),
                account.reservation_head,
                account.reservation_tail,
                account_list(entry.reservations@, account),
            );
        }
        if let Some(previous_id) = previous {
            proof {
                assert(reserved_by(entry.reservations@, account_id).contains(previous_id));
            }
            let mut tail = self.reservations.fetch(previous_id);
            tail.next = Some(order_id);
            let _ = self.reservations.insert(previous_id, tail);
        }
        let _ = self.reservations.insert(
            order_id,
            ActiveCallAuctionReservation { snapshot: reservation, previous, next: None },
        );
        let mut updated = account;
        if account.reservation_head.is_none() {
            updated.reservation_head = Some(order_id);
        }
        updated.reservation_tail = Some(order_id);
        if let Some(exposure) = exposure_with_reservation(account.exposure, reservation) {
            updated.exposure = exposure;
        }
        let _ = self.accounts.insert(account_id, updated);
        proof {
            let before = entry.reservations@;
            let after = self.reservations@;
            assert(after.dom() =~= before.dom().insert(order_id));
            assert forall|other: OrderId| #[trigger]
                before.dom().contains(other) implies after[other] == (ActiveCallAuctionReservation {
                next: if account.reservation_tail == Some(other) {
                    Some(order_id)
                } else {
                    before[other].next
                },
                ..before[other]
            }) by {}
            lemma_appended(before, after, account, order_id, reservation);
            assert(self.accounts@.dom() =~= entry.accounts@.dom());
            self.lemma_others_balanced(&entry, account_id);
            assert forall|other: OrderId| #[trigger] after.dom().contains(
                other,
            ) implies self.reservation_ok(other) by {
                if other != order_id {
                    assert(before.dom().contains(other));
                    assert(entry.reservation_ok(other));
                }
            }
            assert(self.reserved() =~= entry.reserved().insert(order_id, reservation));
        }
    }

    /// Accounts whose reservations did not change stay balanced.
    proof fn lemma_others_balanced(&self, old: &Self, account_id: AccountId)
        requires
            old.ledger_ok(),
            self.accounts@.dom() == old.accounts@.dom(),
            forall|other: AccountId| other != account_id ==> #[trigger] self.accounts@[other]
                == old.accounts@[other],
            account_balanced(self.reservations@, account_id, self.accounts@[account_id]),
            forall|id: OrderId| #![trigger self.reservations@[id]] #![trigger old.reservations@[id]]
                old.reservations@.dom().contains(id)
                && old.reservations@[id].snapshot.account_id != account_id
                    ==> self.reservations@.dom().contains(id) && self.reservations@[id]
                    == old.reservations@[id],
            forall|id: OrderId| #[trigger]
                self.reservations@.dom().contains(id)
                && self.reservations@[id].snapshot.account_id != account_id
                    ==> old.reservations@.dom().contains(id) && self.reservations@[id]
                    == old.reservations@[id],
        ensures
            forall|id: AccountId| #[trigger]
                self.accounts@.dom().contains(id) ==> account_balanced(
                    self.reservations@,
                    id,
                    self.accounts@[id],
                ),
    {
        assert forall|id: AccountId| #[trigger] self.accounts@.dom().contains(
            id,
        ) implies account_balanced(self.reservations@, id, self.accounts@[id]) by {
            if id != account_id {
                let before = old.reservations@;
                let after = self.reservations@;
                assert(account_balanced(before, id, old.accounts@[id]));
                assert(reserved_by(before, id) =~= reserved_by(after, id)) by {
                    assert forall|order: OrderId| reserved_by(before, id).contains(order)
                        <==> reserved_by(after, id).contains(order) by {
                        if before.dom().contains(order) && before[order].snapshot.account_id == id {
                            assert(after[order] == before[order]);
                        }
                        if after.dom().contains(order) && after[order].snapshot.account_id == id {
                            assert(before.dom().contains(order));
                        }
                    }
                }
                assert forall|order: OrderId| #[trigger]
                    reserved_by(before, id).contains(order) implies after[order]
                    == before[order] by {
                    assert(before[order].snapshot.account_id == id);
                }
                lemma_balanced_frame(before, after, id, self.accounts@[id]);
            }
        }
    }

    /// Removes a reservation and returns it.
    pub fn remove_reservation(&mut self, order_id: OrderId) -> (r: CallAuctionReservationSnapshot)
        requires
            old(self).ledger_ok(),
            old(self).reserved().dom().contains(order_id),
        ensures
            r == old(self).reserved()[order_id],
            final(self).ledger_ok(),
            final(self).reserved() == old(self).reserved().remove(order_id),
            final(self).reservations.entries@.len() == old(self).reservations.entries@.len() - 1,
            exposure_covers(old(self).accounts@[r.account_id].exposure, r),
            final(self).same_but_account(
                old(self),
                r.account_id,
                exposure_less(old(self).accounts@[r.account_id].exposure, r),
            ),
    {
        let ghost entry = *self;
        let active = self.reservations.fetch(order_id);
        let reservation = active.snapshot;
        let account_id = reservation.account_id;
        proof {
            assert(entry.reservations@.dom().contains(order_id));
            assert(entry.reservation_ok(order_id));
        }
        let account = self.accounts.fetch(account_id);
        proof {
            assert(account_balanced(entry.reservations@, account_id, account));
            lemma_covered(entry.reservations@, account_id, account, order_id);
            reveal(account_balanced);
            assert(reserved_by(entry.reservations@, account_id).contains(order_id));
            let _ = lemma_member_facts(
                reservation_links(entry.reservations@),
                reserved_by(entry.reservations@, account_id),
                account.reservation_head,
                account.reservation_tail,
                account_list(entry.reservations@, account),
                order_id,
            );
        }
        let _ = self.reservations.remove(order_id);
        if let Some(previous_id) = active.previous {
            proof {
                assert(reserved_by(entry.reservations@, account_id).contains(previous_id));
            }
            let mut previous = self.reservations.fetch(previous_id);
            previous.next = active.next;
            let _ = self.reservations.insert(previous_id, previous);
        }
        if let Some(next_id) = active.next {
            proof {
                assert(reserved_by(entry.reservations@, account_id).contains(next_id));
            }
            let mut next = self.reservations.fetch(next_id);
            next.previous = active.previous;
            let _ = self.reservations.insert(next_id, next);
        }
        let mut updated = account;
        if active.previous.is_none() {
            updated.reservation_head = active.next;
        }
        if active.next.is_none() {
            updated.reservation_tail = active.previous;
        }
        if let Some(exposure) = exposure_without_reservation(account.exposure, reservation) {
            updated.exposure = exposure;
        }
        let _ = self.accounts.insert(account_id, updated);
        proof {
            let before = entry.reservations@;
            let after = self.reservations@;
            assert(after.dom() =~= before.dom().remove(order_id));
            lemma_unlinked(before, after, account, order_id);
            assert(self.accounts@.dom() =~= entry.accounts@.dom());
            self.lemma_others_balanced(&entry, account_id);
            assert forall|other: OrderId| #[trigger] after.dom().contains(
                other,
            ) implies self.reservation_ok(other) by {
                assert(before.dom().contains(other));
                assert(entry.reservation_ok(other));
            }
            assert(self.reserved() =~= entry.reserved().remove(order_id));
        }
        reservation
    }

    /// Reduces a reservation, and removes it when nothing is left.
    pub fn decrement_reservation(&mut self, order_id: OrderId, quantity_lots: u64)
        requires
            old(self).ledger_ok(),
            old(self).reserved().dom().contains(order_id),
            quantity_lots <= old(self).reserved()[order_id].quantity_lots,
        ensures
            final(self).ledger_ok(),
            final(self).reserved() == reserved_less(
                old(self).reserved(),
                order_id,
                quantity_lots,
            ),
            final(self).reservations.entries@.len() <= old(self).reservations.entries@.len(),
            final(self).same_but_account(
                old(self),
                old(self).reserved()[order_id].account_id,
                exposure_reduced(
                    old(self).accounts@[old(self).reserved()[order_id].account_id].exposure,
                    old(self).reserved()[order_id],
                    quantity_lots,
                ),
            ),
    {
        let ghost entry = *self;
        let current = self.remove_reservation(order_id);
        let remaining: u64 = current.quantity_lots - quantity_lots;
        proof {
            assert(entry.reservations@.dom().contains(order_id));
            assert(entry.reservation_ok(order_id));
        }
        if remaining == 0 {
            return ;
        }
        let notional: u128 = reserve_notional(current.valuation_per_lot, remaining);
        proof {
            let full = current.valuation_per_lot as nat * current.quantity_lots as nat;
            let part = current.valuation_per_lot as nat * remaining as nat;
            assert(part <= full) by (nonlinear_arith)
                requires
                    part == current.valuation_per_lot as nat * remaining as nat,
                    full == current.valuation_per_lot as nat * current.quantity_lots as nat,
                    remaining <= current.quantity_lots,
            ;
            assert(full <= u128::MAX) by (nonlinear_arith)
                requires
                    full == current.valuation_per_lot as nat * current.quantity_lots as nat,
                    current.valuation_per_lot <= u64::MAX,
                    current.quantity_lots <= u64::MAX,
            ;
        }
        proof {
            assert(!self.reserved().dom().contains(order_id));
        }
        let replacement = CallAuctionReservationSnapshot {
            quantity_lots: remaining,
            notional,
            ..current
        };
        self.append_reservation(order_id, replacement);
        proof {
            assert(self.reserved() =~= reserved_less(entry.reserved(), order_id, quantity_lots));
        }
    }
}

/// Reservations after one of them was reduced.
pub open spec fn reserved_less(
    reserved: Map<OrderId, CallAuctionReservationSnapshot>,
    id: OrderId,
    lots: u64,
) -> Map<OrderId, CallAuctionReservationSnapshot> {
    if lots == reserved[id].quantity_lots {
        reserved.remove(id)
    } else {
        reserved.insert(id, reserved[id].with_lots((reserved[id].quantity_lots - lots) as u64))
    }
}

/// Exposure after a reservation was reduced.
pub open spec fn exposure_reduced(
    exposure: RiskSnapshot,
    reservation: CallAuctionReservationSnapshot,
    lots: u64,
) -> RiskSnapshot {
    let less = exposure_less(exposure, reservation);
    if lots == reservation.quantity_lots {
        less
    } else {
        exposure_with(less, reservation.with_lots((reservation.quantity_lots - lots) as u64))
    }
}

} // verus!
