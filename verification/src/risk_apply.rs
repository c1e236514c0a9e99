//! Pre-trade authorization, and what accepted commands do to the ledger.

use vstd::prelude::*;

use crate::auction_risk::{
    account_balanced, exposure_covers, exposure_fits, exposure_less, exposure_with,
    exposure_without_reservation, mirrored, reservation_of, CallAuctionRiskAccount,
    CallAuctionRiskEngine, ExecutedLots,
};
use crate::book_interest::ActiveOrders;
use crate::book_types::{CallAuctionOrder, CallAuctionOrderSnapshot, CallAuctionTrade};
use crate::domain::{AccountId, OrderId, Side};
use crate::engine_grammar::accepts;
use crate::engine_projection::{reduced, removed, traded};
use crate::engine_types::{
    CallAuctionCommand, CallAuctionEvent, CallAuctionEventKind, CallAuctionRejectReason,
};
use crate::ordered_map::MapKey;
use crate::risk::{
    conservative_notional, conservative_order_notional, evaluate_pretrade_order, pretrade_fault,
    reach_magnitude, MAX_POSITION_LOTS, RiskProfile, RiskRejectReason, RiskSnapshot,
};
use crate::risk_ledger::lemma_covered;

verus! {

/// Active orders after one event, when the event agrees with them.
pub open spec fn event_effect(orders: ActiveOrders, kind: CallAuctionEventKind) -> Option<
    ActiveOrders,
> {
    match kind {
        CallAuctionEventKind::OrderAccepted(order) => if orders.dom().contains(order.order_id)
            || order.quantity.lots == 0 {
            None
        } else {
            Some(orders.insert(order.order_id, order))
        },
        CallAuctionEventKind::OrderCancelled { order, .. } => removed(orders, order),
        CallAuctionEventKind::OrderAmended { order, previous_quantity, .. } => if orders.dom().contains(
            order.order_id,
        ) && orders[order.order_id] == (CallAuctionOrderSnapshot {
            quantity: previous_quantity,
            ..order
        }) && 0 < order.quantity.lots < previous_quantity.lots {
            Some(orders.insert(order.order_id, order))
        } else {
            None
        },
        CallAuctionEventKind::Trade(trade) => traded(orders, trade),
        CallAuctionEventKind::RemainderCancelled(cancellation) => if orders.dom().contains(
            cancellation.order_id,
        ) {
            Some(orders.remove(cancellation.order_id))
        } else {
            None
        },
        _ => Some(orders),
    }
}

/// Active orders after the first `count` events, when they agree with them.
pub open spec fn events_effect(
    start: ActiveOrders,
    events: Seq<CallAuctionEvent>,
    count: nat,
) -> Option<ActiveOrders>
    decreases count,
{
    if count == 0 {
        Some(start)
    } else {
        match events_effect(start, events, (count - 1) as nat) {
            None => None,
            Some(orders) => event_effect(orders, events[count - 1].kind),
        }
    }
}

/// Events that disagree at some point disagree from there on.
pub proof fn lemma_effect_prefix(
    start: ActiveOrders,
    events: Seq<CallAuctionEvent>,
    few: nat,
    many: nat,
)
    requires
        few <= many,
        events_effect(start, events, many) is Some,
    ensures
        events_effect(start, events, few) is Some,
    decreases many,
{
    if few < many {
        lemma_effect_prefix(start, events, few, (many - 1) as nat);
    }
}

/// Lots that one event executes for an account and side.
pub open spec fn event_lots(kind: CallAuctionEventKind, account: AccountId, side: Side) -> int {
    match kind {
        CallAuctionEventKind::Trade(trade) => match side {
            Side::Buy => if trade.buy_account_id == account {
                trade.quantity.lots as int
            } else {
                0
            },
            Side::Sell => if trade.sell_account_id == account {
                trade.quantity.lots as int
            } else {
                0
            },
        },
        _ => 0,
    }
}

/// Lots that the first `count` events execute for an account and side.
pub open spec fn executed_in(
    events: Seq<CallAuctionEvent>,
    count: nat,
    account: AccountId,
    side: Side,
) -> int
    decreases count,
{
    if count == 0 {
        0
    } else {
        executed_in(events, (count - 1) as nat, account, side) + event_lots(
            events[count - 1].kind,
            account,
            side,
        )
    }
}

/// Which events may admit orders or trade.
pub open spec fn admits_for(command: CallAuctionCommand, events: Seq<CallAuctionEvent>) -> bool {
    match command {
        CallAuctionCommand::Submit(submit) => {
            &&& events.len() == 1
            &&& (events[0].kind matches CallAuctionEventKind::OrderAccepted(order) && accepts(
                order,
                submit.order,
            ))
        },
        CallAuctionCommand::Replace(replace) => {
            &&& events.len() == 2
            &&& (events[0].kind matches CallAuctionEventKind::OrderCancelled { order, .. }
                && order.order_id == replace.target_order_id && order.account_id
                == replace.account_id)
            &&& (events[1].kind matches CallAuctionEventKind::OrderAccepted(order) && accepts(
                order,
                replace.replacement,
            ))
            &&& replace.replacement.account_id == replace.account_id
        },
        CallAuctionCommand::Uncross(_) => forall|k: int|
            0 <= k < events.len() ==> !((#[trigger] events[k]).kind is OrderAccepted),
        _ => forall|k: int|
            0 <= k < events.len() ==> !((#[trigger] events[k]).kind is OrderAccepted)
                && !(events[k].kind is Trade),
    }
}

/// The auction reject reason for a refusal by the pre-trade rule.
pub open spec fn rejection_for(reason: RiskRejectReason) -> CallAuctionRejectReason {
    match reason {
        RiskRejectReason::AccountBlocked => CallAuctionRejectReason::RiskAccountBlocked,
        RiskRejectReason::ReduceOnly => CallAuctionRejectReason::RiskReduceOnly,
        RiskRejectReason::OrderQuantityLimit => CallAuctionRejectReason::RiskOrderQuantityLimit,
        RiskRejectReason::OrderNotionalLimit => CallAuctionRejectReason::RiskOrderNotionalLimit,
        RiskRejectReason::OpenOrderCountLimit => CallAuctionRejectReason::RiskOpenOrderCountLimit,
        RiskRejectReason::OpenQuantityLimit => CallAuctionRejectReason::RiskOpenQuantityLimit,
        RiskRejectReason::OpenNotionalLimit => CallAuctionRejectReason::RiskOpenNotionalLimit,
        RiskRejectReason::PositionLimit => CallAuctionRejectReason::RiskPositionLimit,
        RiskRejectReason::ArithmeticOverflow => CallAuctionRejectReason::RiskArithmeticOverflow,
    }
}

fn call_auction_risk_rejection(reason: RiskRejectReason) -> (r: CallAuctionRejectReason)
    ensures
        r == rejection_for(reason),
{
    match reason {
        RiskRejectReason::AccountBlocked => CallAuctionRejectReason::RiskAccountBlocked,
        RiskRejectReason::ReduceOnly => CallAuctionRejectReason::RiskReduceOnly,
        RiskRejectReason::OrderQuantityLimit => CallAuctionRejectReason::RiskOrderQuantityLimit,
        RiskRejectReason::OrderNotionalLimit => CallAuctionRejectReason::RiskOrderNotionalLimit,
        RiskRejectReason::OpenOrderCountLimit => CallAuctionRejectReason::RiskOpenOrderCountLimit,
        RiskRejectReason::OpenQuantityLimit => CallAuctionRejectReason::RiskOpenQuantityLimit,
        RiskRejectReason::OpenNotionalLimit => CallAuctionRejectReason::RiskOpenNotionalLimit,
        RiskRejectReason::PositionLimit => CallAuctionRejectReason::RiskPositionLimit,
        RiskRejectReason::ArithmeticOverflow => CallAuctionRejectReason::RiskArithmeticOverflow,
    }
}

/// Moves a position by bought and sold lots.
fn moved_position(position: i128, buys: u128, sells: u128) -> (r: i128)
    requires
        -MAX_POSITION_LOTS <= position <= MAX_POSITION_LOTS,
        -MAX_POSITION_LOTS <= position + buys - sells <= MAX_POSITION_LOTS,
    ensures
        r == position + buys - sells,
{
    let top: u128 = MAX_POSITION_LOTS;
    if buys >= sells {
        let net: u128 = buys - sells;
        if net <= top {
            position + net as i128
        } else {
            position + top as i128 + (net - top) as i128
        }
    } else {
        let net: u128 = sells - buys;
        if net <= top {
            position - net as i128
        } else {
            position - top as i128 - (net - top) as i128
        }
    }
}

impl CallAuctionRiskEngine {
    /// The reason why the pre-trade rule refuses an order on top of an exposure.
    pub open spec fn order_fault(
        &self,
        order: CallAuctionOrder,
        profile: RiskProfile,
        baseline: RiskSnapshot,
    ) -> Option<CallAuctionRejectReason> {
        match pretrade_fault(
            profile,
            baseline,
            order.side,
            order.quantity.lots,
            conservative_notional(
                reach_magnitude(self.definition, order.side, order.constraint) as u64,
                order.quantity.lots,
            ),
        ) {
            None => None,
            Some(reason) => Some(rejection_for(reason)),
        }
    }

    /// The reason why risk refuses a command, if any.
    pub open spec fn refusal(&self, command: CallAuctionCommand) -> Option<
        CallAuctionRejectReason,
    > {
        match command {
            CallAuctionCommand::Submit(submit) => {
                let id = submit.order.account_id;
                if !self.accounts@.dom().contains(id) {
                    Some(CallAuctionRejectReason::RiskProfileMissing)
                } else {
                    self.order_fault(
                        submit.order,
                        self.accounts@[id].profile,
                        self.accounts@[id].exposure,
                    )
                }
            },
            CallAuctionCommand::Replace(replace) => {
                let id = replace.account_id;
                if !self.accounts@.dom().contains(id) {
                    Some(CallAuctionRejectReason::RiskProfileMissing)
                } else {
                    self.order_fault(
                        replace.replacement,
                        self.accounts@[id].profile,
                        exposure_less(
                            self.accounts@[id].exposure,
                            self.reserved()[replace.target_order_id],
                        ),
                    )
                }
            },
            _ => None,
        }
    }

    /// A replacement names a reservation of its account and stays in the account.
    pub open spec fn replaceable(&self, command: CallAuctionCommand) -> bool {
        command matches CallAuctionCommand::Replace(replace) ==> {
            &&& self.reserved().dom().contains(replace.target_order_id)
            &&& self.reserved()[replace.target_order_id].account_id == replace.account_id
            &&& replace.replacement.account_id == replace.account_id
        }
    }

    /// Applies the pre-trade rule to one order on top of an exposure.
    fn authorize_order_against(
        &self,
        order: CallAuctionOrder,
        profile: RiskProfile,
        baseline: RiskSnapshot,
    ) -> (r: Result<(), CallAuctionRejectReason>)
        ensures
            match r {
                Ok(_) => self.order_fault(order, profile, baseline) is None,
                Err(reason) => self.order_fault(order, profile, baseline) == Some(reason),
            },
    {
        let notional: u128 = conservative_order_notional(
            self.definition,
            order.side,
            order.constraint,
            order.quantity.lots,
        );
        match evaluate_pretrade_order(profile, baseline, order.side, order.quantity.lots, notional) {
            Ok(()) => Ok(()),
            Err(reason) => Err(call_auction_risk_rejection(reason)),
        }
    }

    /// Authorizes one command that the auction itself would accept.
    pub(crate) fn authorize(&self, command: CallAuctionCommand) -> (r: Result<
        (),
        CallAuctionRejectReason,
    >)
        requires
            self.ledger_ok(),
            self.replaceable(command),
        ensures
            match r {
                Ok(_) => self.refusal(command) is None,
                Err(reason) => self.refusal(command) == Some(reason) && reason.is_risk(),
            },
    {
        match command {
            CallAuctionCommand::Submit(submit) => match self.accounts.get(submit.order.account_id) {
                Some(account) => self.authorize_order_against(
                    submit.order,
                    account.profile,
                    account.exposure,
                ),
                None => Err(CallAuctionRejectReason::RiskProfileMissing),
            },
            CallAuctionCommand::Replace(replace) => match self.accounts.get(replace.account_id) {
                Some(account) => {
                    let target = self.reservations.fetch(replace.target_order_id).snapshot;
                    proof {
                        lemma_covered(
                            self.reservations@,
                            replace.account_id,
                            account,
                            replace.target_order_id,
                        );
                    }
                    match exposure_without_reservation(account.exposure, target) {
                        Some(baseline) => self.authorize_order_against(
                            replace.replacement,
                            account.profile,
                            baseline,
                        ),
                        None => Err(CallAuctionRejectReason::RiskArithmeticOverflow),
                    }
                },
                None => Err(CallAuctionRejectReason::RiskProfileMissing),
            },
            _ => Ok(()),
        }
    }

    /// Lots executed so far for an account.
    pub open spec fn netted(&self, id: AccountId) -> ExecutedLots {
        if self.position_scratch@.dom().contains(id) {
            self.position_scratch@[id]
        } else {
            ExecutedLots { buys: 0, sells: 0 }
        }
    }

    /// Executed lots and open lots together are representable.
    pub open spec fn netting_fits(&self, id: AccountId) -> bool {
        &&& self.netted(id).buys + self.accounts@[id].exposure.open_buy_lots <= u128::MAX
        &&& self.netted(id).sells + self.accounts@[id].exposure.open_sell_lots <= u128::MAX
    }

    /// Executed lots belong to registered accounts and stay representable.
    pub open spec fn netting_ok(&self) -> bool {
        &&& forall|id: AccountId| #[trigger]
            self.position_scratch@.dom().contains(id) ==> self.accounts@.dom().contains(id)
        &&& forall|id: AccountId| #[trigger]
            self.accounts@.dom().contains(id) ==> self.netting_fits(id)
    }

    /// Definition, capacity, profiles and positions are unchanged.
    pub open spec fn same_profiles(&self, old: &Self) -> bool {
        &&& self.definition == old.definition
        &&& self.maximum_accounts == old.maximum_accounts
        &&& self.maximum_reservations == old.maximum_reservations
        &&& self.accounts.maximum == old.accounts.maximum
        &&& self.accounts.reserved == old.accounts.reserved
        &&& self.accounts.entries@.len() == old.accounts.entries@.len()
        &&& self.reservations.maximum == old.reservations.maximum
        &&& self.reservations.reserved == old.reservations.reserved
        &&& self.position_scratch.maximum == old.position_scratch.maximum
        &&& self.position_scratch.reserved == old.position_scratch.reserved
        &&& self.accounts@.dom() == old.accounts@.dom()
        &&& forall|id: AccountId| #[trigger]
            self.accounts@.dom().contains(id) ==> self.accounts@[id].profile
                == old.accounts@[id].profile && self.accounts@[id].exposure.position_lots
                == old.accounts@[id].exposure.position_lots
    }

    /// Open lots of every account cover what an event executed for it.
    pub open spec fn consumes(&self, old: &Self, kind: CallAuctionEventKind) -> bool {
        forall|id: AccountId| #[trigger]
            self.accounts@.dom().contains(id) ==> {
                &&& self.accounts@[id].exposure.open_buy_lots + event_lots(kind, id, Side::Buy)
                    <= old.accounts@[id].exposure.open_buy_lots
                &&& self.accounts@[id].exposure.open_sell_lots + event_lots(kind, id, Side::Sell)
                    <= old.accounts@[id].exposure.open_sell_lots
            }
    }

    /// Adds executed lots of one account.
    fn add_execution(&mut self, account_id: AccountId, side: Side, quantity_lots: u64)
        requires
            old(self).position_scratch.wf(),
            old(self).netted(account_id).buys + (if side == Side::Buy {
                quantity_lots as int
            } else {
                0
            }) <= u128::MAX,
            old(self).netted(account_id).sells + (if side == Side::Sell {
                quantity_lots as int
            } else {
                0
            }) <= u128::MAX,
        ensures
            final(self).position_scratch.wf(),
            final(self).position_scratch.maximum == old(self).position_scratch.maximum,
            final(self).position_scratch.reserved == old(self).position_scratch.reserved,
            final(self).definition == old(self).definition,
            final(self).accounts == old(self).accounts,
            final(self).reservations == old(self).reservations,
            final(self).maximum_accounts == old(self).maximum_accounts,
            final(self).maximum_reservations == old(self).maximum_reservations,
            final(self).position_scratch@.dom() == old(self).position_scratch@.dom().insert(
                account_id,
            ),
            forall|id: AccountId| #[trigger]
                final(self).netted(id) == (if id == account_id {
                    match side {
                        Side::Buy => ExecutedLots {
                            buys: (old(self).netted(id).buys + quantity_lots) as u128,
                            sells: old(self).netted(id).sells,
                        },
                        Side::Sell => ExecutedLots {
                            buys: old(self).netted(id).buys,
                            sells: (old(self).netted(id).sells + quantity_lots) as u128,
                        },
                    }
                } else {
                    old(self).netted(id)
                }),
    {
        let mut delta = match self.position_scratch.get(account_id) {
            Some(delta) => delta,
            None => ExecutedLots { buys: 0, sells: 0 },
        };
        match side {
            Side::Buy => {
                delta.buys = delta.buys + quantity_lots as u128;
            },
            Side::Sell => {
                delta.sells = delta.sells + quantity_lots as u128;
            },
        }
        let _ = self.position_scratch.insert(account_id, delta);
        proof {
            assert(self.position_scratch@.dom() =~= old(self).position_scratch@.dom().insert(
                account_id,
            ));
        }
    }

    /// Reduces one traded order.
    fn apply_fill(
        &mut self,
        order_id: OrderId,
        account_id: AccountId,
        side: Side,
        trade: CallAuctionTrade,
        Ghost(orders): Ghost<ActiveOrders>,
    )
        requires
            old(self).ledger_ok(),
            old(self).reserved() == mirrored(old(self).definition, orders),
            reduced(orders, order_id, account_id, side, trade.price, trade.quantity.lots) is Some,
        ensures
            final(self).ledger_ok(),
            final(self).reserved() == mirrored(
                old(self).definition,
                reduced(
                    orders,
                    order_id,
                    account_id,
                    side,
                    trade.price,
                    trade.quantity.lots,
                )->0,
            ),
            final(self).same_profiles(old(self)),
            final(self).position_scratch == old(self).position_scratch,
            final(self).reservations.entries@.len() <= old(self).reservations.entries@.len(),
            old(self).accounts@.dom().contains(account_id),
            forall|id: AccountId| #[trigger]
                final(self).accounts@.dom().contains(id) ==> {
                    let before = old(self).accounts@[id].exposure;
                    let after = final(self).accounts@[id].exposure;
                    &&& after.open_buy_lots == before.open_buy_lots - (if id == account_id && side
                        == Side::Buy {
                        trade.quantity.lots as int
                    } else {
                        0
                    })
                    &&& after.open_sell_lots == before.open_sell_lots - (if id == account_id && side
                        == Side::Sell {
                        trade.quantity.lots as int
                    } else {
                        0
                    })
                },
    {
        let ghost entry = *self;
        proof {
            assert(orders.dom().contains(order_id));
            assert(entry.reserved().dom().contains(order_id));
            assert(entry.reserved()[order_id] == reservation_of(
                entry.definition,
                orders[order_id],
            ));
            assert(entry.reservations@.dom().contains(order_id));
            assert(entry.reservation_ok(order_id));
            lemma_covered(
                entry.reservations@,
                account_id,
                entry.accounts@[account_id],
                order_id,
            );
            let lots = trade.quantity.lots;
            let valuation = entry.reserved()[order_id].valuation_per_lot;
            let full = orders[order_id].quantity.lots;
            assert(valuation as nat * (full - lots) as nat <= valuation as nat * full as nat)
                by (nonlinear_arith)
                requires
                    lots <= full,
            ;
            assert(valuation as nat * full as nat <= u128::MAX) by (nonlinear_arith)
                requires
                    valuation <= u64::MAX,
                    full <= u64::MAX,
            ;
        }
        self.decrement_reservation(order_id, trade.quantity.lots);
        proof {
            let after = reduced(
                orders,
                order_id,
                account_id,
                side,
                trade.price,
                trade.quantity.lots,
            )->0;
            assert(self.reserved() =~= mirrored(entry.definition, after));
        }
    }

    /// Applies one event.
    fn apply_event(&mut self, kind: CallAuctionEventKind, Ghost(orders): Ghost<ActiveOrders>)
        requires
            old(self).ledger_ok(),
            old(self).netting_ok(),
            old(self).reserved() == mirrored(old(self).definition, orders),
            event_effect(orders, kind) is Some,
            kind matches CallAuctionEventKind::OrderAccepted(order) ==> {
                &&& old(self).accounts@.dom().contains(order.account_id)
                &&& exposure_fits(
                    old(self).accounts@[order.account_id].exposure,
                    reservation_of(old(self).definition, order),
                )
            },
        ensures
            final(self).ledger_ok(),
            final(self).reserved() == mirrored(
                old(self).definition,
                event_effect(orders, kind)->0,
            ),
            final(self).same_profiles(old(self)),
            forall|id: AccountId| #[trigger]
                final(self).netted(id) == (ExecutedLots {
                    buys: (old(self).netted(id).buys + event_lots(kind, id, Side::Buy)) as u128,
                    sells: (old(self).netted(id).sells + event_lots(kind, id, Side::Sell)) as u128,
                }),
            !(kind is OrderAccepted) ==> final(self).netting_ok() && final(self).consumes(
                old(self),
                kind,
            ),
            !(kind is Trade) ==> final(self).position_scratch == old(self).position_scratch,
            match kind {
                CallAuctionEventKind::OrderAccepted(order) => final(self).same_but_account(
                    old(self),
                    order.account_id,
                    exposure_with(
                        old(self).accounts@[order.account_id].exposure,
                        reservation_of(old(self).definition, order),
                    ),
                ),
                CallAuctionEventKind::OrderCancelled { order, .. } => {
                    &&& old(self).accounts@.dom().contains(order.account_id)
                    &&& exposure_covers(
                        old(self).accounts@[order.account_id].exposure,
                        reservation_of(old(self).definition, order),
                    )
                    &&& final(self).same_but_account(
                        old(self),
                        order.account_id,
                        exposure_less(
                            old(self).accounts@[order.account_id].exposure,
                            reservation_of(old(self).definition, order),
                        ),
                    )
                },
                _ => true,
            },
    {
        let ghost entry = *self;
        match kind {
            CallAuctionEventKind::OrderAccepted(order) => {
                self.insert_reservation(order);
                proof {
                    assert(self.reserved() =~= mirrored(
                        entry.definition,
                        event_effect(orders, kind)->0,
                    ));
                }
            },
            CallAuctionEventKind::OrderCancelled { order, .. } => {
                proof {
                    assert(entry.reserved()[order.order_id] == reservation_of(
                        entry.definition,
                        order,
                    ));
                    assert(entry.reserved().dom().contains(order.order_id));
                    assert(entry.reservations@.dom().contains(order.order_id));
                    assert(entry.reservation_ok(order.order_id));
                }
                let _ = self.remove_reservation(order.order_id);
                proof {
                    assert(self.reserved() =~= mirrored(
                        entry.definition,
                        event_effect(orders, kind)->0,
                    ));
                    self.lemma_netting_kept(&entry);
                }
            },
            CallAuctionEventKind::OrderAmended { order, previous_quantity, .. } => {
                proof {
                    let source = orders[order.order_id];
                    assert(entry.reserved()[order.order_id] == reservation_of(
                        entry.definition,
                        source,
                    ));
                    assert(entry.reserved().dom().contains(order.order_id));
                    assert(entry.reservations@.dom().contains(order.order_id));
                    assert(entry.reservation_ok(order.order_id));
                    lemma_covered(
                        entry.reservations@,
                        order.account_id,
                        entry.accounts@[order.account_id],
                        order.order_id,
                    );
                    let valuation = entry.reserved()[order.order_id].valuation_per_lot;
                    let full = previous_quantity.lots;
                    let part = order.quantity.lots;
                    assert(valuation as nat * part as nat <= valuation as nat * full as nat)
                        by (nonlinear_arith)
                        requires
                            part <= full,
                    ;
                    assert(valuation as nat * full as nat <= u128::MAX) by (nonlinear_arith)
                        requires
                            valuation <= u64::MAX,
                            full <= u64::MAX,
                    ;
                }
                self.decrement_reservation(
                    order.order_id,
                    previous_quantity.lots - order.quantity.lots,
                );
                proof {
                    assert(self.reserved() =~= mirrored(
                        entry.definition,
                        event_effect(orders, kind)->0,
                    ));
                    self.lemma_netting_kept(&entry);
                }
            },
            CallAuctionEventKind::Trade(trade) => {
                let ghost bought = reduced(
                    orders,
                    trade.buy_order_id,
                    trade.buy_account_id,
                    Side::Buy,
                    trade.price,
                    trade.quantity.lots,
                )->0;
                self.apply_fill(
                    trade.buy_order_id,
                    trade.buy_account_id,
                    Side::Buy,
                    trade,
                    Ghost(orders),
                );
                let ghost halfway = *self;
                self.apply_fill(
                    trade.sell_order_id,
                    trade.sell_account_id,
                    Side::Sell,
                    trade,
                    Ghost(bought),
                );
                let ghost filled = *self;
                proof {
                    let buyer = trade.buy_account_id;
                    let seller = trade.sell_account_id;
                    assert(halfway.accounts@.dom().contains(buyer));
                    assert(halfway.accounts@.dom().contains(seller));
                    assert(filled.accounts@.dom().contains(seller));
                    assert(filled.accounts@.dom().contains(buyer));
                    assert(entry.netting_fits(buyer));
                    assert(entry.netting_fits(seller));
                    assert(filled.netted(buyer) == entry.netted(buyer));
                    assert(filled.netted(seller) == entry.netted(seller));
                }
                self.add_execution(trade.buy_account_id, Side::Buy, trade.quantity.lots);
                proof {
                    assert(self.netted(trade.sell_account_id).sells == filled.netted(
                        trade.sell_account_id,
                    ).sells);
                }
                self.add_execution(trade.sell_account_id, Side::Sell, trade.quantity.lots);
                proof {
                    assert forall|id: AccountId| #[trigger] self.accounts@.dom().contains(
                        id,
                    ) implies self.netting_fits(id) && self.accounts@[id].exposure.open_buy_lots
                        + event_lots(kind, id, Side::Buy)
                        <= entry.accounts@[id].exposure.open_buy_lots
                        && self.accounts@[id].exposure.open_sell_lots + event_lots(
                        kind,
                        id,
                        Side::Sell,
                    ) <= entry.accounts@[id].exposure.open_sell_lots by {
                        assert(filled.accounts@.dom().contains(id));
                        assert(halfway.accounts@.dom().contains(id));
                        assert(entry.netting_fits(id));
                        assert(filled.netted(id) == entry.netted(id));
                        assert(self.netted(id) == self.netted(id));
                    }
                    assert forall|id: AccountId| #[trigger] self.netted(id) == (ExecutedLots {
                        buys: (entry.netted(id).buys + event_lots(kind, id, Side::Buy)) as u128,
                        sells: (entry.netted(id).sells + event_lots(kind, id, Side::Sell)) as u128,
                    }) by {
                        assert(filled.netted(id) == entry.netted(id));
                    }
                    assert forall|id: AccountId| #[trigger] self.accounts@.dom().contains(
                        id,
                    ) implies self.accounts@[id].profile == entry.accounts@[id].profile
                        && self.accounts@[id].exposure.position_lots
                        == entry.accounts@[id].exposure.position_lots by {
                        assert(filled.accounts@.dom().contains(id));
                        assert(halfway.accounts@.dom().contains(id));
                    }
                }
            },
            CallAuctionEventKind::RemainderCancelled(cancellation) => {
                proof {
                    assert(entry.reserved().dom().contains(cancellation.order_id));
                }
                let _ = self.remove_reservation(cancellation.order_id);
                proof {
                    assert(self.reserved() =~= mirrored(
                        entry.definition,
                        event_effect(orders, kind)->0,
                    ));
                    self.lemma_netting_kept(&entry);
                }
            },
            _ => {},
        }
    }

    /// Smaller exposures leave room for executed lots.
    proof fn lemma_netting_kept(&self, old: &Self)
        requires
            old.netting_ok(),
            self.position_scratch == old.position_scratch,
            self.accounts@.dom() == old.accounts@.dom(),
            forall|id: AccountId| #[trigger]
                self.accounts@.dom().contains(id) ==> self.accounts@[id].exposure.open_buy_lots
                    <= old.accounts@[id].exposure.open_buy_lots
                    && self.accounts@[id].exposure.open_sell_lots
                    <= old.accounts@[id].exposure.open_sell_lots,
        ensures
            self.netting_ok(),
    {
        assert forall|id: AccountId| #[trigger] self.accounts@.dom().contains(
            id,
        ) implies self.netting_fits(id) by {
            assert(old.netting_fits(id));
        }
    }

    /// A position does not matter to the list and the sums of an account.
    proof fn lemma_position_free(
        &self,
        id: AccountId,
        account: CallAuctionRiskAccount,
        position: i128,
    )
        requires
            account_balanced(self.reservations@, id, account),
        ensures
            account_balanced(
                self.reservations@,
                id,
                CallAuctionRiskAccount {
                    exposure: RiskSnapshot { position_lots: position, ..account.exposure },
                    ..account
                },
            ),
    {
        reveal(account_balanced);
    }

    /// Moves the position of every account by its executed lots.
    fn apply_netted_positions(&mut self)
        requires
            old(self).ledger_ok(),
            old(self).netting_ok(),
            forall|id: AccountId| #[trigger]
                old(self).accounts@.dom().contains(id) ==> {
                    let position = old(self).accounts@[id].exposure.position_lots;
                    let delta = old(self).netted(id);
                    &&& -MAX_POSITION_LOTS <= position <= MAX_POSITION_LOTS
                    &&& -MAX_POSITION_LOTS <= position + delta.buys - delta.sells
                        <= MAX_POSITION_LOTS
                },
        ensures
            final(self).ledger_ok(),
            final(self).definition == old(self).definition,
            final(self).reservations == old(self).reservations,
            final(self).maximum_accounts == old(self).maximum_accounts,
            final(self).maximum_reservations == old(self).maximum_reservations,
            final(self).accounts.maximum == old(self).accounts.maximum,
            final(self).accounts.reserved == old(self).accounts.reserved,
            final(self).accounts.entries@.len() == old(self).accounts.entries@.len(),
            final(self).position_scratch.maximum == old(self).position_scratch.maximum,
            final(self).position_scratch.reserved == old(self).position_scratch.reserved,
            final(self).position_scratch.entries@.len() == 0,
            final(self).accounts@.dom() == old(self).accounts@.dom(),
            forall|id: AccountId| #[trigger]
                final(self).accounts@.dom().contains(id) ==> final(self).accounts@[id] == old(
                    self,
                ).moved_account(id),
    {
        let ghost entry = *self;
        let mut index: usize = 0;
        while index < self.position_scratch.len()
            invariant
                entry == *old(self),
                entry.ledger_ok(),
                entry.netting_ok(),
                forall|id: AccountId| #[trigger]
                    entry.accounts@.dom().contains(id) ==> {
                        let position = entry.accounts@[id].exposure.position_lots;
                        let delta = entry.netted(id);
                        &&& -MAX_POSITION_LOTS <= position <= MAX_POSITION_LOTS
                        &&& -MAX_POSITION_LOTS <= position + delta.buys - delta.sells
                            <= MAX_POSITION_LOTS
                    },
                self.position_scratch == entry.position_scratch,
                self.definition == entry.definition,
                self.reservations == entry.reservations,
                self.maximum_accounts == entry.maximum_accounts,
                self.maximum_reservations == entry.maximum_reservations,
                self.accounts.wf(),
                self.accounts.maximum == entry.accounts.maximum,
                self.accounts.reserved == entry.accounts.reserved,
                self.accounts.entries@.len() == entry.accounts.entries@.len(),
                self.accounts@.dom() == entry.accounts@.dom(),
                index <= entry.position_scratch.entries@.len(),
                forall|id: AccountId| #[trigger]
                    self.accounts@.dom().contains(id) ==> self.accounts@[id] == (if exists|k: int|
                        0 <= k < index && (#[trigger] entry.position_scratch.entries@[k]).0 == id {
                        entry.moved_account(id)
                    } else {
                        entry.accounts@[id]
                    }),
            decreases entry.position_scratch.entries@.len() - index,
        {
            let account_id = self.position_scratch.key_at(index);
            let delta = self.position_scratch.value_at(index);
            let ghost before = self.accounts@;
            proof {
                entry.position_scratch.lemma_view();
                assert(entry.position_scratch@.dom().contains(account_id));
                assert(entry.accounts@.dom().contains(account_id));
                assert(before.dom().contains(account_id));
                assert(entry.netted(account_id) == delta);
                assert forall|k: int| 0 <= k < index implies (
                #[trigger] entry.position_scratch.entries@[k]).0 != account_id by {
                    assert(entry.position_scratch.entries@[k].0.rank()
                        < entry.position_scratch.entries@[index as int].0.rank());
                }
            }
            let mut account = self.accounts.fetch(account_id);
            account.exposure.position_lots =
            moved_position(account.exposure.position_lots, delta.buys, delta.sells);
            let _ = self.accounts.insert(account_id, account);
            proof {
                assert(self.accounts@.dom() =~= before.dom());
                assert(entry.position_scratch.entries@[index as int].0 == account_id);
                assert forall|id: AccountId| #[trigger] self.accounts@.dom().contains(
                    id,
                ) implies self.accounts@[id] == (if exists|k: int|
                    0 <= k < index + 1 && (#[trigger] entry.position_scratch.entries@[k]).0 == id {
                    entry.moved_account(id)
                } else {
                    entry.accounts@[id]
                }) by {
                    assert(before.dom().contains(id));
                    if id != account_id {
                        if exists|k: int|
                            0 <= k < index + 1 && (#[trigger] entry.position_scratch.entries@[k]).0
                                == id {
                            let k = choose|k: int|
                                0 <= k < index + 1 && (
                                #[trigger] entry.position_scratch.entries@[k]).0 == id;
                            assert(k < index);
                        }
                    }
                }
            }
            index += 1;
        }
        self.position_scratch.clear();
        proof {
            entry.position_scratch.lemma_view();
            assert forall|id: AccountId| #[trigger] self.accounts@.dom().contains(
                id,
            ) implies self.accounts@[id] == entry.moved_account(id) by {
                if entry.position_scratch@.dom().contains(id) {
                    let k = choose|k: int|
                        0 <= k < entry.position_scratch.entries@.len() && (
                        #[trigger] entry.position_scratch.entries@[k]).0 == id;
                    assert(entry.position_scratch.entries@[k].0 == id);
                } else if exists|k: int|
                    0 <= k < entry.position_scratch.entries@.len() && (
                    #[trigger] entry.position_scratch.entries@[k]).0 == id {
                    let k = choose|k: int|
                        0 <= k < entry.position_scratch.entries@.len() && (
                        #[trigger] entry.position_scratch.entries@[k]).0 == id;
                    assert(entry.position_scratch@.dom().contains(
                        entry.position_scratch.entries@[k].0,
                    ));
                }
            }
            assert forall|id: AccountId| #[trigger] self.accounts@.dom().contains(
                id,
            ) implies account_balanced(self.reservations@, id, self.accounts@[id]) by {
                entry.lemma_position_free(
                    id,
                    entry.accounts@[id],
                    self.accounts@[id].exposure.position_lots,
                );
            }
            assert forall|id: OrderId| #[trigger] self.reservations@.dom().contains(
                id,
            ) implies self.reservation_ok(id) by {
                assert(entry.reservation_ok(id));
            }
        }
    }

    /// The account with its position moved by its executed lots.
    pub open spec fn moved_account(&self, id: AccountId) -> CallAuctionRiskAccount {
        let account = self.accounts@[id];
        let delta = self.netted(id);
        CallAuctionRiskAccount {
            exposure: RiskSnapshot {
                position_lots: (account.exposure.position_lots + delta.buys - delta.sells) as i128,
                ..account.exposure
            },
            ..account
        }
    }

    /// What accepted events do: reservations mirror the active orders, and
    /// positions move by the executed lots.
    pub open spec fn follows(
        &self,
        old: &Self,
        orders: ActiveOrders,
        events: Seq<CallAuctionEvent>,
    ) -> bool {
        &&& self.definition == old.definition
        &&& self.maximum_accounts == old.maximum_accounts
        &&& self.maximum_reservations == old.maximum_reservations
        &&& self.reserved() == mirrored(self.definition, orders)
        &&& self.accounts@.dom() == old.accounts@.dom()
        &&& forall|id: AccountId| #[trigger]
            self.accounts@.dom().contains(id) ==> {
                &&& self.accounts@[id].profile == old.accounts@[id].profile
                &&& self.accounts@[id].exposure.position_lots
                    == old.accounts@[id].exposure.position_lots + executed_in(
                    events,
                    events.len(),
                    id,
                    Side::Buy,
                ) - executed_in(events, events.len(), id, Side::Sell)
            }
    }

    /// Applies the events of an accepted command.
    pub(crate) fn apply(
        &mut self,
        command: CallAuctionCommand,
        events: &[CallAuctionEvent],
        Ghost(orders): Ghost<ActiveOrders>,
    )
        requires
            old(self).wf(),
            old(self).reserved() == mirrored(old(self).definition, orders),
            admits_for(command, events@),
            old(self).replaceable(command),
            old(self).refusal(command) is None,
            events_effect(orders, events@, events@.len()) is Some,
            events_effect(orders, events@, events@.len())->0.len() <= old(
                self,
            ).maximum_reservations,
        ensures
            final(self).wf(),
            final(self).follows(
                old(self),
                events_effect(orders, events@, events@.len())->0,
                events@,
            ),
    {
        self.position_scratch.clear();
        let ghost entry = *self;
        let ghost count = events@.len();
        let ghost admits = command is Submit || command is Replace;
        proof {
            assert(entry.ledger_ok());
            assert(entry.reserved() == old(self).reserved());
            assert(entry.refusal(command) is None);
            assert forall|id: AccountId| #[trigger] entry.accounts@.dom().contains(
                id,
            ) implies entry.netting_fits(id) by {}
        }
        let mut index: usize = 0;
        while index < events.len()
            invariant
                entry.ledger_ok(),
                entry.netting_ok(),
                entry.reserved() == mirrored(entry.definition, orders),
                entry.position_scratch@ == Map::<AccountId, ExecutedLots>::empty(),
                entry.replaceable(command),
                entry.refusal(command) is None,
                admits_for(command, events@),
                admits == (command is Submit || command is Replace),
                count == events@.len(),
                events_effect(orders, events@, count) is Some,
                index <= count,
                self.ledger_ok(),
                events_effect(orders, events@, index as nat) is Some,
                self.reserved() == mirrored(
                    entry.definition,
                    events_effect(orders, events@, index as nat)->0,
                ),
                self.same_profiles(&entry),
                (!admits || index < count) ==> self.netting_ok() && self.spent(
                    &entry,
                    events@,
                    index as nat,
                ),
                forall|id: AccountId|
                    (#[trigger] self.netted(id)).buys == executed_in(
                        events@,
                        index as nat,
                        id,
                        Side::Buy,
                    ) && self.netted(id).sells == executed_in(
                        events@,
                        index as nat,
                        id,
                        Side::Sell,
                    ),
                !(command is Uncross) ==> self.position_scratch == entry.position_scratch,
                admits && index == 0 ==> *self == entry,
                (command matches CallAuctionCommand::Replace(replace) && index == 1)
                    ==> self.same_but_account(
                    &entry,
                    command->Replace_0.account_id,
                    exposure_less(
                        entry.accounts@[command->Replace_0.account_id].exposure,
                        entry.reserved()[command->Replace_0.target_order_id],
                    ),
                ),
                (admits && index == count) ==> self.admitted_on(&entry, command),
            decreases count - index,
        {
            let ghost before = *self;
            let ghost active = events_effect(orders, events@, index as nat)->0;
            let kind = events[index].kind;
            proof {
                lemma_effect_prefix(orders, events@, (index + 1) as nat, count);
                assert(events_effect(orders, events@, (index + 1) as nat) == event_effect(
                    active,
                    kind,
                ));
                entry.lemma_admission(&before, command, events@, index as nat, kind);
            }
            self.apply_event(kind, Ghost(active));
            proof {
                assert forall|id: AccountId|
                    (#[trigger] self.netted(id)).buys == executed_in(
                        events@,
                        (index + 1) as nat,
                        id,
                        Side::Buy,
                    ) && self.netted(id).sells == executed_in(
                        events@,
                        (index + 1) as nat,
                        id,
                        Side::Sell,
                    ) by {
                    assert(before.netted(id).buys == executed_in(
                        events@,
                        index as nat,
                        id,
                        Side::Buy,
                    ));
                    if before.netting_ok() && kind is Trade {
                        if before.accounts@.dom().contains(id) {
                            assert(before.netting_fits(id));
                            assert(self.accounts@.dom().contains(id));
                        } else {
                            lemma_trade_accounts(&before, active, kind, id);
                        }
                    }
                }
                assert forall|id: AccountId| #[trigger] self.accounts@.dom().contains(
                    id,
                ) implies self.accounts@[id].profile == entry.accounts@[id].profile
                    && self.accounts@[id].exposure.position_lots
                    == entry.accounts@[id].exposure.position_lots by {
                    assert(before.accounts@.dom().contains(id));
                }
                if !admits || index + 1 < count {
                    assert(!(kind is OrderAccepted));
                    assert forall|id: AccountId| #[trigger] self.accounts@.dom().contains(
                        id,
                    ) implies self.accounts@[id].exposure.open_buy_lots + executed_in(
                        events@,
                        (index + 1) as nat,
                        id,
                        Side::Buy,
                    ) <= entry.accounts@[id].exposure.open_buy_lots
                        && self.accounts@[id].exposure.open_sell_lots + executed_in(
                        events@,
                        (index + 1) as nat,
                        id,
                        Side::Sell,
                    ) <= entry.accounts@[id].exposure.open_sell_lots by {
                        assert(before.accounts@.dom().contains(id));
                    }
                }
                if admits && index + 1 == count {
                    self.lemma_admitted(&before, &entry, command, kind);
                }
                if command is Replace && index == 0 {
                    let order = kind->OrderCancelled_order;
                    assert(entry.reserved()[order.order_id] == reservation_of(
                        entry.definition,
                        order,
                    ));
                }
            }
            index += 1;
        }
        let ghost listed = *self;
        proof {
            assert(self.config_ok()) by {
                assert forall|id: AccountId| #[trigger] self.accounts@.dom().contains(
                    id,
                ) implies self.accounts@[id].profile.limits.wf() by {
                    assert(entry.accounts@.dom().contains(id));
                }
            }
            self.reservations.lemma_view();
            let after = events_effect(orders, events@, count)->0;
            assert(self.reservations@.dom() =~= self.reserved().dom());
            assert(after.dom() =~= self.reserved().dom());
        }
        let is_uncross = match command {
            CallAuctionCommand::Uncross(_) => true,
            _ => false,
        };
        if is_uncross {
            proof {
                assert forall|id: AccountId| #[trigger] listed.accounts@.dom().contains(id) implies {
                    let position = listed.accounts@[id].exposure.position_lots;
                    let delta = listed.netted(id);
                    &&& -MAX_POSITION_LOTS <= position <= MAX_POSITION_LOTS
                    &&& -MAX_POSITION_LOTS <= position + delta.buys - delta.sells
                        <= MAX_POSITION_LOTS
                } by {
                    assert(entry.accounts@.dom().contains(id));
                    assert(old(self).account_bears(id));
                    assert(entry.account_bears(id));
                    assert(listed.netted(id).buys == executed_in(events@, count, id, Side::Buy));
                }
            }
            self.apply_netted_positions();
            proof {
                assert forall|id: AccountId| #[trigger] self.accounts@.dom().contains(
                    id,
                ) implies self.account_bears(id) && self.accounts@[id].profile.limits.wf()
                    && self.accounts@[id].exposure.position_lots
                    == entry.accounts@[id].exposure.position_lots + executed_in(
                    events@,
                    count,
                    id,
                    Side::Buy,
                ) - executed_in(events@, count, id, Side::Sell) by {
                    assert(listed.accounts@.dom().contains(id));
                    assert(entry.accounts@.dom().contains(id));
                    assert(old(self).account_bears(id));
                    assert(entry.account_bears(id));
                    assert(listed.netted(id).buys == executed_in(events@, count, id, Side::Buy));
                }
                assert(self.reserved() == listed.reserved());
            }
        } else {
            proof {
                assert forall|id: AccountId| #[trigger] self.accounts@.dom().contains(
                    id,
                ) implies self.account_bears(id) && executed_in(events@, count, id, Side::Buy) == 0
                    && executed_in(events@, count, id, Side::Sell) == 0 by {
                    assert(entry.accounts@.dom().contains(id));
                    assert(old(self).account_bears(id));
                    assert(entry.account_bears(id));
                    assert(self.netted(id).buys == executed_in(events@, count, id, Side::Buy));
                }
            }
        }
    }

    /// Open lots cover what the first events executed.
    pub open spec fn spent(
        &self,
        old: &Self,
        events: Seq<CallAuctionEvent>,
        count: nat,
    ) -> bool {
        forall|id: AccountId| #[trigger]
            self.accounts@.dom().contains(id) ==> {
                &&& self.accounts@[id].exposure.open_buy_lots + executed_in(
                    events,
                    count,
                    id,
                    Side::Buy,
                ) <= old.accounts@[id].exposure.open_buy_lots
                &&& self.accounts@[id].exposure.open_sell_lots + executed_in(
                    events,
                    count,
                    id,
                    Side::Sell,
                ) <= old.accounts@[id].exposure.open_sell_lots
            }
    }

    /// Accounts after an authorized admission: one of them carries the new
    /// order on top of its earlier exposure, and its limits bear it.
    pub open spec fn admitted_on(&self, old: &Self, command: CallAuctionCommand) -> bool {
        let id = match command {
            CallAuctionCommand::Submit(submit) => submit.order.account_id,
            CallAuctionCommand::Replace(replace) => replace.account_id,
            _ => arbitrary(),
        };
        &&& forall|other: AccountId| other != id ==> #[trigger] self.accounts@[other]
            == old.accounts@[other]
        &&& self.accounts@[id].profile.limits.bears(
            self.accounts@[id].exposure.position_lots as int,
            self.accounts@[id].exposure.open_buy_lots as int,
            self.accounts@[id].exposure.open_sell_lots as int,
        )
    }

    /// An authorized admission fits.
    proof fn lemma_admission(
        &self,
        now: &Self,
        command: CallAuctionCommand,
        events: Seq<CallAuctionEvent>,
        index: nat,
        kind: CallAuctionEventKind,
    )
        requires
            self.ledger_ok(),
            self.replaceable(command),
            self.refusal(command) is None,
            admits_for(command, events),
            index < events.len(),
            kind == events[index as int].kind,
            (command is Submit && index == 0) ==> *now == *self,
            (command is Replace && index == 1) ==> now.same_but_account(
                self,
                command->Replace_0.account_id,
                exposure_less(
                    self.accounts@[command->Replace_0.account_id].exposure,
                    self.reserved()[command->Replace_0.target_order_id],
                ),
            ),
        ensures
            kind matches CallAuctionEventKind::OrderAccepted(order) ==> {
                &&& now.accounts@.dom().contains(order.account_id)
                &&& exposure_fits(
                    now.accounts@[order.account_id].exposure,
                    reservation_of(now.definition, order),
                )
            },
    {
        if let CallAuctionEventKind::OrderAccepted(order) = kind {
            match command {
                CallAuctionCommand::Submit(submit) => {},
                CallAuctionCommand::Replace(replace) => {
                    assert(index == 1);
                },
                _ => {
                    assert(!(events[index as int].kind is OrderAccepted));
                },
            }
        }
    }

    /// The limits bear an authorized admission.
    proof fn lemma_admitted(
        &self,
        before: &Self,
        entry: &Self,
        command: CallAuctionCommand,
        kind: CallAuctionEventKind,
    )
        requires
            command is Submit || command is Replace,
            entry.refusal(command) is None,
            kind matches CallAuctionEventKind::OrderAccepted(order) && {
                &&& self.same_but_account(
                    before,
                    order.account_id,
                    exposure_with(
                        before.accounts@[order.account_id].exposure,
                        reservation_of(before.definition, order),
                    ),
                )
                &&& before.definition == entry.definition
                &&& match command {
                    CallAuctionCommand::Submit(submit) => {
                        &&& accepts(order, submit.order)
                        &&& *before == *entry
                    },
                    CallAuctionCommand::Replace(replace) => {
                        &&& accepts(order, replace.replacement)
                        &&& replace.replacement.account_id == replace.account_id
                        &&& before.same_but_account(
                            entry,
                            replace.account_id,
                            exposure_less(
                                entry.accounts@[replace.account_id].exposure,
                                entry.reserved()[replace.target_order_id],
                            ),
                        )
                    },
                    _ => false,
                }
            },
        ensures
            self.admitted_on(entry, command),
    {
        let order = kind->OrderAccepted_0;
        assert forall|other: AccountId| other != order.account_id implies #[trigger]
            self.accounts@[other] == entry.accounts@[other] by {
            assert(before.accounts@[other] == entry.accounts@[other]);
        }
    }
}

/// Both accounts of a trade are registered.
proof fn lemma_trade_accounts(
    risk: &CallAuctionRiskEngine,
    orders: ActiveOrders,
    kind: CallAuctionEventKind,
    id: AccountId,
)
    requires
        risk.ledger_ok(),
        risk.reserved() == mirrored(risk.definition, orders),
        kind is Trade,
        event_effect(orders, kind) is Some,
        !risk.accounts@.dom().contains(id),
    ensures
        event_lots(kind, id, Side::Buy) == 0,
        event_lots(kind, id, Side::Sell) == 0,
{
    let trade = kind->Trade_0;
    let bought = reduced(
        orders,
        trade.buy_order_id,
        trade.buy_account_id,
        Side::Buy,
        trade.price,
        trade.quantity.lots,
    )->0;
    assert(risk.reserved().dom().contains(trade.buy_order_id));
    assert(risk.reserved().dom().contains(trade.sell_order_id));
    assert(risk.reservations@.dom().contains(trade.buy_order_id));
    assert(risk.reservations@.dom().contains(trade.sell_order_id));
    assert(risk.reservation_ok(trade.buy_order_id));
    assert(risk.reservation_ok(trade.sell_order_id));
    assert(risk.reserved()[trade.buy_order_id].account_id == orders[trade.buy_order_id].account_id);
    assert(risk.reserved()[trade.sell_order_id].account_id
        == orders[trade.sell_order_id].account_id);
    assert(bought[trade.sell_order_id].account_id == trade.sell_account_id);
}

} // verus!
