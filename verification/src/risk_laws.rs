//! What pre-trade risk promises, over limits, positions, prices and quantities.

use vstd::prelude::*;

use crate::auction::AuctionOrderConstraint;
use crate::auction_engine::{CallAuctionEngine, PreparedCallAuctionAction};
use crate::auction_risk::{
    account_balanced, account_list, exposure_covers, exposure_fits, exposure_less, exposure_with,
    notionals, reserved_by, side_lots, CallAuctionReservationSnapshot, CallAuctionRiskEngine,
    ReservationTable,
};
use crate::book_interest::ActiveOrders;
use crate::chain::member_sum;
use crate::domain::{AccountId, OrderId, Price, Side};
use crate::engine_types::{
    CallAuctionCommand, CallAuctionCommandOutcome, CallAuctionEngineError, CallAuctionEvent,
    CallAuctionEventKind, CallAuctionExecutionReport, CallAuctionRejectReason,
    CallAuctionReplaceOrder, CallAuctionSubmitOrder,
};
use crate::instrument::InstrumentDefinition;
use crate::risk::{
    conservative_notional, pretrade_fault, reach_magnitude, AccountRiskState, RiskLimits,
    RiskProfile, RiskRejectReason, RiskSnapshot,
};
use crate::risk_apply::{event_lots, executed_in};
use crate::risk_managed::CallAuctionRiskManagedEngine;

verus! {

/// An order passes the pre-trade rule exactly when the account is not blocked, an
/// account that may only reduce holds an opposite position at least as large as
/// its open interest on that side with the order, order size and notional are
/// within the order limits, open orders, lots and notional with the order are
/// within the account limits, and every outcome of the open interest with the
/// order keeps the position within its long and short limits.
pub proof fn law_pretrade_admits(
    profile: RiskProfile,
    exposure: RiskSnapshot,
    side: Side,
    lots: u64,
    notional: u128,
)
    ensures
        pretrade_fault(profile, exposure, side, lots, notional) is None <==> {
            let limits = profile.limits;
            let position = exposure.position_lots as int;
            &&& profile.state != AccountRiskState::Blocked
            &&& profile.state == AccountRiskState::ReduceOnly && side == Side::Buy ==> position < 0
                && position + exposure.open_buy_lots + lots <= 0
            &&& profile.state == AccountRiskState::ReduceOnly && side == Side::Sell ==> position > 0
                && position - exposure.open_sell_lots - lots >= 0
            &&& lots <= limits.max_order_quantity_lots
            &&& notional <= limits.max_order_notional
            &&& exposure.open_orders + 1 <= limits.max_open_orders
            &&& exposure.open_buy_lots + exposure.open_sell_lots + lots
                <= limits.max_open_quantity_lots
            &&& exposure.open_notional + notional <= limits.max_open_notional
            &&& side == Side::Buy ==> position + exposure.open_buy_lots + lots
                <= limits.max_long_position_lots && exposure.open_sell_lots - position
                <= limits.max_short_position_lots
            &&& side == Side::Sell ==> position + exposure.open_buy_lots
                <= limits.max_long_position_lots && exposure.open_sell_lots + lots - position
                <= limits.max_short_position_lots
        },
{
}

/// The pre-trade rule names the first limit that an order exceeds: account state,
/// order size, order notional, open orders, open lots, open notional, position.
/// Sums that no limit could allow are overflows.
pub proof fn law_pretrade_reasons(
    profile: RiskProfile,
    exposure: RiskSnapshot,
    side: Side,
    lots: u64,
    notional: u128,
)
    ensures
        ({
            let limits = profile.limits;
            let position = exposure.position_lots as int;
            let fault = pretrade_fault(profile, exposure, side, lots, notional);
            let open = exposure.open_buy_lots + exposure.open_sell_lots + lots;
            let reduces = match side {
                Side::Buy => position < 0 && position + exposure.open_buy_lots + lots <= 0,
                Side::Sell => position > 0 && position - exposure.open_sell_lots - lots >= 0,
            };
            let permitted = profile.state == AccountRiskState::Active || profile.state
                == AccountRiskState::ReduceOnly && reduces;
            let sized = permitted && lots <= limits.max_order_quantity_lots;
            let valued = sized && notional <= limits.max_order_notional;
            let counted = valued && exposure.open_orders + 1 <= limits.max_open_orders;
            let summed = counted && open <= limits.max_open_quantity_lots;
            let carried = summed && exposure.open_notional + notional <= limits.max_open_notional;
            &&& profile.state == AccountRiskState::Blocked ==> fault == Some(
                RiskRejectReason::AccountBlocked,
            )
            &&& profile.state == AccountRiskState::ReduceOnly && !reduces ==> fault == Some(
                RiskRejectReason::ReduceOnly,
            )
            &&& permitted && !sized ==> fault == Some(RiskRejectReason::OrderQuantityLimit)
            &&& sized && !valued ==> fault == Some(RiskRejectReason::OrderNotionalLimit)
            &&& valued && !counted ==> fault == Some(
                if exposure.open_orders == u64::MAX {
                    RiskRejectReason::ArithmeticOverflow
                } else {
                    RiskRejectReason::OpenOrderCountLimit
                },
            )
            &&& counted && !summed ==> fault == Some(
                if open > u128::MAX {
                    RiskRejectReason::ArithmeticOverflow
                } else {
                    RiskRejectReason::OpenQuantityLimit
                },
            )
            &&& summed && !carried ==> fault == Some(
                if exposure.open_notional + notional > u128::MAX {
                    RiskRejectReason::ArithmeticOverflow
                } else {
                    RiskRejectReason::OpenNotionalLimit
                },
            )
            &&& carried ==> fault is None || fault == Some(RiskRejectReason::PositionLimit)
        }),
{
}

/// An order that an account which may only reduce is granted moves its position
/// towards zero and never across it, however much of its open interest on that
/// side executes.
pub proof fn law_reduce_only_shrinks_position(
    profile: RiskProfile,
    exposure: RiskSnapshot,
    side: Side,
    lots: u64,
    notional: u128,
    executed: int,
)
    requires
        profile.state == AccountRiskState::ReduceOnly,
        pretrade_fault(profile, exposure, side, lots, notional) is None,
        0 < executed,
        side == Side::Buy ==> executed <= exposure.open_buy_lots + lots,
        side == Side::Sell ==> executed <= exposure.open_sell_lots + lots,
    ensures
        side == Side::Buy ==> exposure.position_lots < exposure.position_lots + executed <= 0,
        side == Side::Sell ==> 0 <= exposure.position_lots - executed < exposure.position_lots,
{
}

/// Whatever part of the open interest executes after an order passed the pre-trade
/// rule, the position stays within the long and short limits.
pub proof fn law_admitted_orders_keep_limits(
    profile: RiskProfile,
    exposure: RiskSnapshot,
    side: Side,
    lots: u64,
    notional: u128,
    bought: int,
    sold: int,
)
    requires
        pretrade_fault(profile, exposure, side, lots, notional) is None,
        0 <= bought <= exposure.open_buy_lots + (if side == Side::Buy { lots as int } else { 0 }),
        0 <= sold <= exposure.open_sell_lots + (if side == Side::Sell { lots as int } else { 0 }),
    ensures
        exposure.position_lots + bought - sold <= profile.limits.max_long_position_lots,
        -(profile.limits.max_short_position_lots as int) <= exposure.position_lots + bought - sold,
{
}

/// An order is valued per lot at the largest absolute price at which it can
/// execute: between the collar's minimum and a buy limit, between a sell limit and
/// the collar's maximum, and anywhere in the collar without a limit. That value is
/// the absolute value of one end of the range, and the notional is its product
/// with the lots.
pub proof fn law_notional_covers_executions(
    definition: InstrumentDefinition,
    side: Side,
    constraint: AuctionOrderConstraint,
    price: Price,
    lots: u64,
)
    ensures
        ({
            let low = match (side, constraint) {
                (Side::Sell, AuctionOrderConstraint::Limit(limit)) => limit.raw as int,
                _ => definition.price.minimum.raw as int,
            };
            let high = match (side, constraint) {
                (Side::Buy, AuctionOrderConstraint::Limit(limit)) => limit.raw as int,
                _ => definition.price.maximum.raw as int,
            };
            let value = reach_magnitude(definition, side, constraint);
            &&& low <= price.raw <= high ==> -value <= price.raw <= value
            &&& value == low || value == -low || value == high || value == -high
            &&& 0 <= value <= u64::MAX
            &&& conservative_notional(value as u64, lots) == value * lots
        }),
{
    let value = reach_magnitude(definition, side, constraint);
    assert(0 <= value * lots <= u64::MAX as int * u64::MAX as int) by (nonlinear_arith)
        requires
            0 <= value <= u64::MAX,
            0 <= lots <= u64::MAX,
    ;
}

/// One more reservation adds its lots to its side, its notional and one order to
/// an exposure, leaves the position and the other side alone, and taking it away
/// again restores the exposure.
pub proof fn law_reservation_adds_and_removes(
    exposure: RiskSnapshot,
    reservation: CallAuctionReservationSnapshot,
)
    requires
        exposure_fits(exposure, reservation),
    ensures
        ({
            let more = exposure_with(exposure, reservation);
            let lots = reservation.quantity_lots;
            &&& more.position_lots == exposure.position_lots
            &&& reservation.side == Side::Buy ==> more.open_buy_lots == exposure.open_buy_lots
                + lots && more.open_sell_lots == exposure.open_sell_lots
            &&& reservation.side == Side::Sell ==> more.open_sell_lots == exposure.open_sell_lots
                + lots && more.open_buy_lots == exposure.open_buy_lots
            &&& more.open_notional == exposure.open_notional + reservation.notional
            &&& more.open_orders == exposure.open_orders + 1
            &&& exposure_covers(more, reservation)
            &&& exposure_less(more, reservation) == exposure
        }),
{
}

/// A reservation fits exactly while the aggregates of its side, the notional and
/// the order count stay representable, and is covered exactly by an exposure that
/// holds its lots, its notional and an order.
pub proof fn law_reservation_bounds(
    exposure: RiskSnapshot,
    reservation: CallAuctionReservationSnapshot,
)
    ensures
        ({
            let own = if reservation.side == Side::Buy {
                exposure.open_buy_lots
            } else {
                exposure.open_sell_lots
            };
            &&& exposure_fits(exposure, reservation) <==> own + reservation.quantity_lots
                <= u128::MAX && exposure.open_notional + reservation.notional <= u128::MAX
                && exposure.open_orders < u64::MAX
            &&& exposure_covers(exposure, reservation) <==> reservation.quantity_lots <= own
                && reservation.notional <= exposure.open_notional && exposure.open_orders > 0
        }),
{
}

/// Lots of the listed active orders on one side.
pub open spec fn open_lots_of(active: ActiveOrders, ids: Seq<OrderId>, side: Side) -> int
    decreases ids.len(),
{
    if ids.len() == 0 {
        0
    } else {
        open_lots_of(active, ids.drop_last(), side) + if active[ids.last()].side == side {
            active[ids.last()].quantity.lots as int
        } else {
            0
        }
    }
}

/// Conservative notional of the listed active orders.
pub open spec fn open_notional_of(
    definition: InstrumentDefinition,
    active: ActiveOrders,
    ids: Seq<OrderId>,
) -> int
    decreases ids.len(),
{
    if ids.len() == 0 {
        0
    } else {
        let order = active[ids.last()];
        open_notional_of(definition, active, ids.drop_last()) + reach_magnitude(
            definition,
            order.side,
            order.constraint,
        ) * order.quantity.lots
    }
}

proof fn lemma_open_sums(
    definition: InstrumentDefinition,
    table: ReservationTable,
    active: ActiveOrders,
    ids: Seq<OrderId>,
)
    requires
        forall|i: int|
            0 <= i < ids.len() ==> {
                let order = active[#[trigger] ids[i]];
                let snapshot = table[ids[i]].snapshot;
                &&& table.dom().contains(ids[i])
                &&& snapshot.side == order.side
                &&& snapshot.quantity_lots == order.quantity.lots
                &&& snapshot.notional == reach_magnitude(definition, order.side, order.constraint)
                    * order.quantity.lots
            },
    ensures
        member_sum(side_lots(table, Side::Buy), ids) == open_lots_of(active, ids, Side::Buy),
        member_sum(side_lots(table, Side::Sell), ids) == open_lots_of(active, ids, Side::Sell),
        member_sum(notionals(table), ids) == open_notional_of(definition, active, ids),
    decreases ids.len(),
{
    if ids.len() > 0 {
        let rest = ids.drop_last();
        assert forall|i: int| 0 <= i < rest.len() implies {
            let order = active[#[trigger] rest[i]];
            let snapshot = table[rest[i]].snapshot;
            &&& table.dom().contains(rest[i])
            &&& snapshot.side == order.side
            &&& snapshot.quantity_lots == order.quantity.lots
            &&& snapshot.notional == reach_magnitude(definition, order.side, order.constraint)
                * order.quantity.lots
        } by {
            assert(rest[i] == ids[i]);
        }
        lemma_open_sums(definition, table, active, rest);
        let last = ids[ids.len() - 1];
        assert(table.dom().contains(last));
    }
}

impl CallAuctionRiskEngine {
    /// Every registered account is within its limits, and stays so whatever part
    /// of its open interest executes.
    pub proof fn law_positions_stay_within_limits(
        &self,
        account: AccountId,
        bought: int,
        sold: int,
    )
        requires
            self.wf(),
            self.accounts@.dom().contains(account),
            0 <= bought <= self.accounts@[account].exposure.open_buy_lots,
            0 <= sold <= self.accounts@[account].exposure.open_sell_lots,
        ensures
            ({
                let limits = self.accounts@[account].profile.limits;
                let position = self.accounts@[account].exposure.position_lots as int;
                &&& -(limits.max_short_position_lots as int) <= position + bought - sold
                &&& position + bought - sold <= limits.max_long_position_lots
            }),
    {
        assert(self.account_bears(account));
    }

    /// What risk says of a submission: no profile, a blocked account, an order that
    /// does not reduce where it must, or the first limit that the order exceeds on
    /// top of the account's exposure, valued at the largest price it can reach.
    pub proof fn law_submission_refusals(&self, submit: CallAuctionSubmitOrder)
        ensures
            ({
                let refusal = self.refusal(CallAuctionCommand::Submit(submit));
                let account = submit.order.account_id;
                let fault = pretrade_fault(
                    self.accounts@[account].profile,
                    self.accounts@[account].exposure,
                    submit.order.side,
                    submit.order.quantity.lots,
                    (reach_magnitude(
                        self.definition,
                        submit.order.side,
                        submit.order.constraint,
                    ) * submit.order.quantity.lots) as u128,
                );
                &&& !self.accounts@.dom().contains(account) ==> refusal == Some(
                    CallAuctionRejectReason::RiskProfileMissing,
                )
                &&& self.accounts@.dom().contains(account) ==> refusal == reported_refusal(fault)
            }),
    {
        law_notional_covers_executions(
            self.definition,
            submit.order.side,
            submit.order.constraint,
            self.definition.price.minimum,
            submit.order.quantity.lots,
        );
    }

    /// What risk says of a replacement: the same as of a submission, on top of the
    /// account's exposure without the reservation of the target.
    pub proof fn law_replacement_refusals(&self, replace: CallAuctionReplaceOrder)
        ensures
            !self.accounts@.dom().contains(replace.account_id) ==> self.refusal(
                CallAuctionCommand::Replace(replace),
            ) == Some(CallAuctionRejectReason::RiskProfileMissing),
            ({
                let account = replace.account_id;
                let target = self.reserved()[replace.target_order_id];
                let held = self.accounts@[account].exposure;
                let new = replace.replacement;
                let without = RiskSnapshot {
                    position_lots: held.position_lots,
                    open_buy_lots: (held.open_buy_lots - if target.side == Side::Buy {
                        target.quantity_lots as int
                    } else {
                        0
                    }) as u128,
                    open_sell_lots: (held.open_sell_lots - if target.side == Side::Sell {
                        target.quantity_lots as int
                    } else {
                        0
                    }) as u128,
                    open_notional: (held.open_notional - target.notional) as u128,
                    open_orders: (held.open_orders - 1) as u64,
                };
                self.accounts@.dom().contains(account) ==> self.refusal(
                    CallAuctionCommand::Replace(replace),
                ) == reported_refusal(
                    pretrade_fault(
                        self.accounts@[account].profile,
                        without,
                        new.side,
                        new.quantity.lots,
                        (reach_magnitude(self.definition, new.side, new.constraint)
                            * new.quantity.lots) as u128,
                    ),
                )
            }),
    {
        law_notional_covers_executions(
            self.definition,
            replace.replacement.side,
            replace.replacement.constraint,
            self.definition.price.minimum,
            replace.replacement.quantity.lots,
        );
    }

    /// Risk refuses submissions and replacements only.
    pub proof fn law_risk_gates_admissions_only(&self, command: CallAuctionCommand)
        ensures
            !(command is Submit) && !(command is Replace) ==> self.refusal(command) is None,
    {
    }
}

/// The auction's reject reason for each reason of the pre-trade rule.
pub open spec fn reported_refusal(fault: Option<RiskRejectReason>) -> Option<
    CallAuctionRejectReason,
> {
    match fault {
        None => None,
        Some(RiskRejectReason::AccountBlocked) => Some(CallAuctionRejectReason::RiskAccountBlocked),
        Some(RiskRejectReason::ReduceOnly) => Some(CallAuctionRejectReason::RiskReduceOnly),
        Some(RiskRejectReason::OrderQuantityLimit) => Some(
            CallAuctionRejectReason::RiskOrderQuantityLimit,
        ),
        Some(RiskRejectReason::OrderNotionalLimit) => Some(
            CallAuctionRejectReason::RiskOrderNotionalLimit,
        ),
        Some(RiskRejectReason::OpenOrderCountLimit) => Some(
            CallAuctionRejectReason::RiskOpenOrderCountLimit,
        ),
        Some(RiskRejectReason::OpenQuantityLimit) => Some(
            CallAuctionRejectReason::RiskOpenQuantityLimit,
        ),
        Some(RiskRejectReason::OpenNotionalLimit) => Some(
            CallAuctionRejectReason::RiskOpenNotionalLimit,
        ),
        Some(RiskRejectReason::PositionLimit) => Some(CallAuctionRejectReason::RiskPositionLimit),
        Some(RiskRejectReason::ArithmeticOverflow) => Some(
            CallAuctionRejectReason::RiskArithmeticOverflow,
        ),
    }
}

/// What the trades of an event list move the position of one account by.
pub open spec fn position_change(events: Seq<CallAuctionEvent>, account: AccountId) -> int
    decreases events.len(),
{
    if events.len() == 0 {
        0
    } else {
        position_change(events.drop_last(), account) + match events.last().kind {
            CallAuctionEventKind::Trade(trade) => (if trade.buy_account_id == account {
                trade.quantity.lots as int
            } else {
                0
            }) - (if trade.sell_account_id == account {
                trade.quantity.lots as int
            } else {
                0
            }),
            _ => 0,
        }
    }
}

proof fn lemma_position_change(events: Seq<CallAuctionEvent>, count: nat, account: AccountId)
    requires
        count <= events.len(),
    ensures
        position_change(events.take(count as int), account) == executed_in(
            events,
            count,
            account,
            Side::Buy,
        ) - executed_in(events, count, account, Side::Sell),
    decreases count,
{
    if count > 0 {
        lemma_position_change(events, (count - 1) as nat, account);
        assert(events.take(count as int).drop_last() =~= events.take(count - 1));
        assert(events.take(count as int).last() == events[count - 1]);
        let kind = events[count - 1].kind;
        assert(executed_in(events, count, account, Side::Buy) == executed_in(
            events,
            (count - 1) as nat,
            account,
            Side::Buy,
        ) + event_lots(kind, account, Side::Buy));
        assert(executed_in(events, count, account, Side::Sell) == executed_in(
            events,
            (count - 1) as nat,
            account,
            Side::Sell,
        ) + event_lots(kind, account, Side::Sell));
    }
}

impl CallAuctionRiskManagedEngine {
    /// A shard holds one reservation for each active order, of its account, side,
    /// constraint and quantity, at the order's conservative value.
    pub proof fn law_active_orders_are_reserved(&self, id: OrderId)
        requires
            self.wf(),
        ensures
            self.risk.reserved().dom().contains(id) <==> self.engine.book.active().dom().contains(
                id,
            ),
            self.engine.book.active().dom().contains(id) ==> {
                let order = self.engine.book.active()[id];
                let reservation = self.risk.reserved()[id];
                let value = reach_magnitude(
                    self.engine.book.definition,
                    order.side,
                    order.constraint,
                );
                &&& reservation.account_id == order.account_id
                &&& reservation.side == order.side
                &&& reservation.constraint == order.constraint
                &&& reservation.quantity_lots == order.quantity.lots
                &&& reservation.valuation_per_lot == value
                &&& reservation.notional == value * order.quantity.lots
                &&& self.risk.accounts@.dom().contains(order.account_id)
            },
    {
        if self.engine.book.active().dom().contains(id) {
            let order = self.engine.book.active()[id];
            law_notional_covers_executions(
                self.engine.book.definition,
                order.side,
                order.constraint,
                self.engine.book.definition.price.minimum,
                order.quantity.lots,
            );
            assert(self.risk.reserved().dom().contains(id));
            assert(self.risk.reservations@.dom().contains(id));
            assert(self.risk.reservation_ok(id));
        }
    }

    /// The open exposure of an account counts and sums exactly its active orders:
    /// their number, their lots by side and their conservative notional.
    pub proof fn law_exposure_sums_active_orders(&self, account: AccountId) -> (ids: Seq<OrderId>)
        requires
            self.wf(),
            self.risk.accounts@.dom().contains(account),
        ensures
            ids.no_duplicates(),
            forall|id: OrderId| #[trigger]
                ids.contains(id) <==> self.engine.book.active().dom().contains(id)
                    && self.engine.book.active()[id].account_id == account,
            ({
                let exposure = self.risk.accounts@[account].exposure;
                let active = self.engine.book.active();
                &&& exposure.open_orders == ids.len()
                &&& exposure.open_buy_lots == open_lots_of(active, ids, Side::Buy)
                &&& exposure.open_sell_lots == open_lots_of(active, ids, Side::Sell)
                &&& exposure.open_notional == open_notional_of(
                    self.engine.book.definition,
                    active,
                    ids,
                )
            }),
    {
        let table = self.risk.reservations@;
        let active = self.engine.book.active();
        assert(account_balanced(table, account, self.risk.accounts@[account]));
        reveal(account_balanced);
        let ids = account_list(table, self.risk.accounts@[account]);
        let members = reserved_by(table, account);
        assert forall|id: OrderId| #[trigger] ids.contains(id) <==> active.dom().contains(id)
            && active[id].account_id == account by {
            self.law_active_orders_are_reserved(id);
            assert(members.contains(id) <==> table.dom().contains(id)
                && table[id].snapshot.account_id == account);
            if ids.contains(id) {
                let i = choose|i: int| 0 <= i < ids.len() && ids[i] == id;
                assert(members.contains(ids[i]));
            }
            if table.dom().contains(id) {
                assert(self.risk.reserved()[id] == table[id].snapshot);
            }
        }
        assert forall|i: int| 0 <= i < ids.len() implies {
            let order = active[#[trigger] ids[i]];
            let snapshot = table[ids[i]].snapshot;
            &&& table.dom().contains(ids[i])
            &&& snapshot.side == order.side
            &&& snapshot.quantity_lots == order.quantity.lots
            &&& snapshot.notional == reach_magnitude(
                self.engine.book.definition,
                order.side,
                order.constraint,
            ) * order.quantity.lots
        } by {
            assert(members.contains(ids[i]));
            assert(ids.contains(ids[i]));
            self.law_active_orders_are_reserved(ids[i]);
            assert(self.risk.reserved()[ids[i]] == table[ids[i]].snapshot);
        }
        lemma_open_sums(self.engine.book.definition, table, active, ids);
        ids
    }

    /// What a shard sequences is what its engine alone would do, unless risk
    /// refuses an admission that the engine would accept: that is rejected for the
    /// reason of the refusal, and orders, phase and risk stay as they were.
    pub proof fn law_refusal_is_the_only_difference(
        &self,
        after: &Self,
        command: CallAuctionCommand,
        report: CallAuctionExecutionReport,
    )
        requires
            after.sequences_from(self, command, report),
        ensures
            ({
                let accepts = self.engine.decide(command) == Ok::<
                    Option<CallAuctionRejectReason>,
                    CallAuctionEngineError,
                >(None);
                match self.risk.refusal(command) {
                    Some(reason) if accepts => {
                        &&& report.outcome == CallAuctionCommandOutcome::Rejected(reason)
                        &&& after.engine.book.active() == self.engine.book.active()
                        &&& after.engine.book.accepted() == self.engine.book.accepted()
                        &&& after.engine.book.state_revision == self.engine.book.state_revision
                        &&& after.engine.phase == self.engine.phase
                        &&& after.engine.phase_revision == self.engine.phase_revision
                        &&& after.risk == self.risk
                        &&& report.events@.len() == 1
                        &&& report.events@[0].kind == CallAuctionEventKind::CommandRejected(reason)
                    },
                    _ => after.engine.submits_from(&self.engine, command, report),
                }
            }),
    {
        let refusal = self.risk.refusal(command);
        let action = choose|action: PreparedCallAuctionAction| #[trigger]
            self.engine.action_matches(command, action) && after.engine.settles_from(
                &self.engine,
                command,
                CallAuctionEngine::gated(
                    action,
                    if action is Rejected {
                        None
                    } else {
                        refusal
                    },
                ),
                report,
            );
        assert(self.engine.action_matches(command, action));
    }

    /// A sequenced command moves each account's position by the lots that its
    /// reported trades buy for the account less those they sell, keeps every
    /// profile, and a rejected one moves nothing.
    pub proof fn law_positions_follow_trades(
        &self,
        after: &Self,
        command: CallAuctionCommand,
        report: CallAuctionExecutionReport,
        account: AccountId,
    )
        requires
            after.sequences_from(self, command, report),
        ensures
            after.risk.accounts@.dom() == self.risk.accounts@.dom(),
            self.risk.accounts@.dom().contains(account) ==> {
                let before = self.risk.accounts@[account];
                let now = after.risk.accounts@[account];
                &&& now.profile == before.profile
                &&& report.outcome == CallAuctionCommandOutcome::Accepted
                    ==> now.exposure.position_lots == before.exposure.position_lots
                    + position_change(report.events@, account)
                &&& report.outcome != CallAuctionCommandOutcome::Accepted ==> now == before
            },
    {
        let events = report.events@;
        lemma_position_change(events, events.len(), account);
        assert(events.take(events.len() as int) =~= events);
        if self.risk.accounts@.dom().contains(account) {
            assert(after.risk.accounts@.dom().contains(account));
        }
    }
}

impl RiskLimits {
    /// Limits hold a position exactly between the short and the long limit, and
    /// bear open interest exactly when they hold every position that executing
    /// some of its buys and some of its sells can lead to.
    pub proof fn law_limits_bear_every_outcome(self, position: int, buys: int, sells: int)
        requires
            0 <= buys,
            0 <= sells,
        ensures
            self.holds(position) <==> -(self.max_short_position_lots as int) <= position
                && position <= self.max_long_position_lots,
            self.bears(position, buys, sells) <==> forall|bought: int, sold: int|
                0 <= bought <= buys && 0 <= sold <= sells ==> {
                    &&& #[trigger] (position + bought - sold) <= self.max_long_position_lots
                    &&& -(self.max_short_position_lots as int) <= position + bought - sold
                },
    {
        if forall|bought: int, sold: int|
            0 <= bought <= buys && 0 <= sold <= sells ==> {
                &&& #[trigger] (position + bought - sold) <= self.max_long_position_lots
                &&& -(self.max_short_position_lots as int) <= position + bought - sold
            } {
            assert(position + buys - 0 <= self.max_long_position_lots);
            assert(-(self.max_short_position_lots as int) <= position + 0 - sells);
        }
    }
}

} // verus!
