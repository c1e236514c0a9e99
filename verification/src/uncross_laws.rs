//! What an uncross does to the orders of a collection, over their constraints,
//! sides, accounts and quantities.

use vstd::prelude::*;

use crate::allocation::{
    eligible, fills_sound, is_allocation, order_before, AuctionAllocationLimits, AuctionOrderFill,
};
use crate::allocation_laws::{
    law_better_ranks_fill_first, law_one_side_is_exhausted, ranks_ahead, taken,
};
use crate::auction::{
    AuctionClearing, AuctionOrder, AuctionOrderConstraint, AuctionPriceBand, AuctionPricePolicy,
};
use crate::book_interest::{canonical_side, side_orders, ActiveOrders};
use crate::book_state::CallAuctionBook;
use crate::book_types::{
    CallAuctionCommitError, CallAuctionIndicative, CallAuctionOrderSnapshot, CallAuctionPlanError,
    CallAuctionPrepareError, CallAuctionRemainderPolicy, CallAuctionSelfTradePolicy,
    CallAuctionTrade, CallAuctionUncrossPolicy,
};
use crate::book_uncross::{
    cancels_order, executed_lots, fill_pairs, fills_order, fills_positive, first_self_trade,
    law_pairs_reconcile, lemma_executed_fill, lemma_executed_listed, lemma_plan_cancellations,
    lemma_side_distinct, lots_at, pair_trades, pairs_from, plan_executed, side_cancellations,
    AuctionPair, PreparedCallAuctionUncross,
};
use crate::domain::{OrderId, Price, Side};
use crate::instrument::InstrumentDefinition;
use crate::projection_laws::{law_pairs_execute_fills, lemma_side_cancellation_fields, pairs_take};

verus! {

/// Lots that a trade list buys or sells for one order.
pub open spec fn traded_lots(trades: Seq<CallAuctionTrade>, id: OrderId) -> int
    decreases trades.len(),
{
    if trades.len() == 0 {
        0
    } else {
        traded_lots(trades.drop_last(), id) + (if trades.last().buy_order_id == id {
            trades.last().quantity.lots as int
        } else {
            0
        }) + (if trades.last().sell_order_id == id {
            trades.last().quantity.lots as int
        } else {
            0
        })
    }
}

proof fn lemma_traded_pairs(
    active: ActiveOrders,
    definition: InstrumentDefinition,
    first: int,
    price: Price,
    pairs: Seq<AuctionPair>,
    count: nat,
    id: OrderId,
)
    requires
        count <= pairs.len(),
    ensures
        traded_lots(pair_trades(active, definition, first, price, pairs).take(count as int), id)
            == pairs_take(pairs, id, count),
    decreases count,
{
    let trades = pair_trades(active, definition, first, price, pairs);
    if count > 0 {
        lemma_traded_pairs(active, definition, first, price, pairs, (count - 1) as nat, id);
        assert(trades.take(count as int).drop_last() =~= trades.take(count - 1));
        assert(trades.take(count as int).last() == trades[count - 1]);
    }
}

/// What a sound fill list executes of a listed order is what it takes of it.
proof fn lemma_executed_taken(
    list: Seq<AuctionOrder>,
    fills: Seq<AuctionOrderFill>,
    index: int,
)
    requires
        forall|k: int|
            0 <= k < fills.len() ==> {
                &&& (#[trigger] fills[k]).source_index < list.len()
                &&& fills[k].order_id == list[fills[k].source_index as int].order_id
            },
        forall|i: int, j: int|
            0 <= i < list.len() && 0 <= j < list.len() && (#[trigger] list[i]).order_id == (
            #[trigger] list[j]).order_id ==> i == j,
        0 <= index < list.len(),
    ensures
        executed_lots(fills, list[index].order_id) == taken(fills, index),
    decreases fills.len(),
{
    if fills.len() > 0 {
        let rest = fills.drop_last();
        assert forall|k: int| 0 <= k < rest.len() implies {
            &&& (#[trigger] rest[k]).source_index < list.len()
            &&& rest[k].order_id == list[rest[k].source_index as int].order_id
        } by {
            assert(rest[k] == fills[k]);
        }
        lemma_executed_taken(list, rest, index);
        let last = fills[fills.len() - 1];
        assert(last.order_id == list[last.source_index as int].order_id);
        assert(last.order_id == list[index].order_id <==> last.source_index == index);
    }
}

impl CallAuctionBook {
    /// A valid preparation trades what its plan executes.
    pub(crate) proof fn lemma_prepared_trades(
        &self,
        prepared: PreparedCallAuctionUncross,
        id: OrderId,
    )
        requires
            self.wf(),
            self.prepared_valid(prepared),
        ensures
            traded_lots(prepared.buffers.trades@, id) == plan_executed(prepared.buffers.plan, id),
            0 <= executed_lots(prepared.buffers.plan.buy_fills@, id),
            0 <= executed_lots(prepared.buffers.plan.sell_fills@, id),
            self.active().dom().contains(id) ==> plan_executed(prepared.buffers.plan, id)
                <= self.active()[id].quantity.lots,
            self.active().dom().contains(id) && self.active()[id].side == Side::Buy
                ==> plan_executed(prepared.buffers.plan, id) == executed_lots(
                prepared.buffers.plan.buy_fills@,
                id,
            ),
            self.active().dom().contains(id) && self.active()[id].side == Side::Sell
                ==> plan_executed(prepared.buffers.plan, id) == executed_lots(
                prepared.buffers.plan.sell_fills@,
                id,
            ),
            !self.active().dom().contains(id) ==> plan_executed(prepared.buffers.plan, id) == 0,
    {
        let plan = prepared.buffers.plan;
        let active = self.active();
        let pairs = fill_pairs(plan.buy_fills@, plan.sell_fills@);
        self.lemma_sides_listed();
        assert(fills_positive(plan.buy_fills@));
        assert(fills_positive(plan.sell_fills@));
        law_pairs_execute_fills(plan.buy_fills@, plan.sell_fills@, id);
        lemma_traded_pairs(
            active,
            self.definition,
            self.next_trade_id as int,
            plan.clearing.price,
            pairs,
            pairs.len(),
            id,
        );
        let trades = prepared.buffers.trades@;
        assert(trades.take(pairs.len() as int) =~= trades);
        lemma_executed_listed(
            active,
            Side::Buy,
            side_orders(active, Side::Buy),
            plan.buy_fills@,
            id,
        );
        lemma_executed_listed(
            active,
            Side::Sell,
            side_orders(active, Side::Sell),
            plan.sell_fills@,
            id,
        );
    }

    /// An uncross settles every order by its trades and the remainder policy: no
    /// order trades more than it holds; a completely filled order leaves; of the
    /// others, retaining everything keeps them all, cancelling market remainders
    /// removes the market orders and keeps the limit orders, and cancelling
    /// everything removes them all. A kept order holds its unfilled lots and is
    /// otherwise as it was, and no order joins.
    pub proof fn law_uncross_settles_orders(
        &self,
        after: &Self,
        prepared: PreparedCallAuctionUncross,
        id: OrderId,
    )
        requires
            self.wf(),
            self.commit_fault(prepared) is None,
            after.uncrosses_from(self, prepared),
        ensures
            ({
                let active = self.active();
                let traded = traded_lots(prepared.buffers.trades@, id);
                let kept = match (prepared.policy.remainder, active[id].constraint) {
                    (CallAuctionRemainderPolicy::RetainAll, _) => true,
                    (
                        CallAuctionRemainderPolicy::CancelMarket,
                        AuctionOrderConstraint::Limit(_),
                    ) => true,
                    (
                        CallAuctionRemainderPolicy::CancelMarket,
                        AuctionOrderConstraint::Market,
                    ) => false,
                    (CallAuctionRemainderPolicy::CancelAll, _) => false,
                };
                &&& !active.dom().contains(id) ==> traded == 0 && !after.active().dom().contains(id)
                &&& active.dom().contains(id) ==> 0 <= traded <= active[id].quantity.lots
                &&& active.dom().contains(id) && traded == active[id].quantity.lots
                    ==> !after.active().dom().contains(id)
                &&& active.dom().contains(id) && traded < active[id].quantity.lots && !kept
                    ==> !after.active().dom().contains(id)
                &&& active.dom().contains(id) && traded < active[id].quantity.lots && kept ==> {
                    let left = after.active()[id];
                    &&& after.active().dom().contains(id)
                    &&& left.quantity.lots == active[id].quantity.lots - traded
                    &&& left.order_id == active[id].order_id
                    &&& left.account_id == active[id].account_id
                    &&& left.side == active[id].side
                    &&& left.constraint == active[id].constraint
                    &&& left.priority_class == active[id].priority_class
                    &&& left.priority_sequence == active[id].priority_sequence
                }
            }),
    {
        self.lemma_prepared_trades(prepared, id);
    }

    /// After an uncross that cancels market remainders no market order is active,
    /// and every limit order that was not completely filled is active with its
    /// unfilled lots.
    pub proof fn law_market_remainders_leave(
        &self,
        after: &Self,
        prepared: PreparedCallAuctionUncross,
        id: OrderId,
    )
        requires
            self.wf(),
            self.commit_fault(prepared) is None,
            after.uncrosses_from(self, prepared),
            prepared.policy.remainder == CallAuctionRemainderPolicy::CancelMarket,
        ensures
            after.active().dom().contains(id) ==> after.active()[id].constraint
                != AuctionOrderConstraint::Market,
            ({
                let traded = traded_lots(prepared.buffers.trades@, id);
                self.active().dom().contains(id) && self.active()[id].constraint
                    != AuctionOrderConstraint::Market && traded < self.active()[id].quantity.lots
                    ==> after.active().dom().contains(id) && after.active()[id].quantity.lots
                    == self.active()[id].quantity.lots - traded
            }),
    {
        self.law_uncross_settles_orders(after, prepared, id);
    }

    /// Every trade of an uncross is at the clearing price, between an active buy
    /// and an active sell order with their accounts, for a positive quantity and
    /// in the book's instrument; trades carry consecutive identities, after which
    /// the book continues; and revision moves by one.
    pub proof fn law_trades_name_counterparties(
        &self,
        after: &Self,
        prepared: PreparedCallAuctionUncross,
        k: int,
    )
        requires
            self.wf(),
            self.commit_fault(prepared) is None,
            after.uncrosses_from(self, prepared),
            0 <= k < prepared.buffers.trades@.len(),
        ensures
            ({
                let trade = prepared.buffers.trades@[k];
                let active = self.active();
                &&& trade.price == prepared.buffers.plan.clearing.price
                &&& trade.quantity.lots > 0
                &&& active.dom().contains(trade.buy_order_id)
                &&& active[trade.buy_order_id].side == Side::Buy
                &&& active[trade.buy_order_id].account_id == trade.buy_account_id
                &&& active.dom().contains(trade.sell_order_id)
                &&& active[trade.sell_order_id].side == Side::Sell
                &&& active[trade.sell_order_id].account_id == trade.sell_account_id
                &&& trade.instrument_id == self.definition.instrument_id
                &&& trade.instrument_version == self.definition.version
                &&& trade.trade_id.value == self.next_trade_id + k
            }),
            after.next_trade_id == self.next_trade_id + prepared.buffers.trades@.len(),
            after.state_revision == self.state_revision + 1,
            after.next_priority_sequence == self.next_priority_sequence,
            after.accepted() == self.accepted(),
    {
        let plan = prepared.buffers.plan;
        let pairs = fill_pairs(plan.buy_fills@, plan.sell_fills@);
        self.lemma_pair_sides(prepared, k);
        assert(prepared.next_trade_id == self.next_trade_id + pairs.len());
    }

    /// Both orders of a pair are active on their sides.
    pub(crate) proof fn lemma_pair_sides(&self, prepared: PreparedCallAuctionUncross, k: int)
        requires
            self.wf(),
            self.prepared_valid(prepared),
            0 <= k < prepared.buffers.trades@.len(),
        ensures
            ({
                let plan = prepared.buffers.plan;
                let trade = prepared.buffers.trades@[k];
                &&& trade.quantity.lots > 0
                &&& fills_order(plan.buy_fills@, trade.buy_order_id)
                &&& fills_order(plan.sell_fills@, trade.sell_order_id)
                &&& self.active().dom().contains(trade.buy_order_id)
                &&& self.active()[trade.buy_order_id].side == Side::Buy
                &&& self.active().dom().contains(trade.sell_order_id)
                &&& self.active()[trade.sell_order_id].side == Side::Sell
            }),
    {
        let plan = prepared.buffers.plan;
        let active = self.active();
        let buys = plan.buy_fills@;
        let sells = plan.sell_fills@;
        let pairs = fill_pairs(buys, sells);
        let trade = prepared.buffers.trades@[k];
        self.lemma_sides_listed();
        assert(fills_positive(buys));
        assert(fills_positive(sells));
        law_pairs_reconcile(buys, sells);
        assert(pairs[k].lots > 0);
        let buy = choose|i: int|
            0 <= i < buys.len() && (#[trigger] buys[i]).order_id == trade.buy_order_id;
        let sell = choose|i: int|
            0 <= i < sells.len() && (#[trigger] sells[i]).order_id == trade.sell_order_id;
        lemma_executed_fill(active, Side::Buy, side_orders(active, Side::Buy), buys, buy);
        lemma_executed_fill(active, Side::Sell, side_orders(active, Side::Sell), sells, sell);
    }

    /// An uncross names exactly the remainders that its policy cancels, each with
    /// the order's account, side and constraint, what it traded and what is left.
    pub proof fn law_cancellations_name_remainders(
        &self,
        prepared: PreparedCallAuctionUncross,
        id: OrderId,
        k: int,
    )
        requires
            self.wf(),
            self.commit_fault(prepared) is None,
        ensures
            ({
                let named = prepared.buffers.cancellations@;
                let active = self.active();
                (exists|i: int| 0 <= i < named.len() && (#[trigger] named[i]).order_id == id) <==> {
                    &&& active.dom().contains(id)
                    &&& traded_lots(prepared.buffers.trades@, id) < active[id].quantity.lots
                    &&& match prepared.policy.remainder {
                        CallAuctionRemainderPolicy::RetainAll => false,
                        CallAuctionRemainderPolicy::CancelMarket => active[id].constraint is Market,
                        CallAuctionRemainderPolicy::CancelAll => true,
                    }
                }
            }),
            0 <= k < prepared.buffers.cancellations@.len() ==> {
                let cancellation = prepared.buffers.cancellations@[k];
                let order = self.active()[cancellation.order_id];
                let traded = traded_lots(prepared.buffers.trades@, cancellation.order_id);
                &&& self.active().dom().contains(cancellation.order_id)
                &&& cancellation.account_id == order.account_id
                &&& cancellation.side == order.side
                &&& cancellation.constraint == order.constraint
                &&& cancellation.executed_quantity_lots == traded
                &&& cancellation.quantity.lots == order.quantity.lots - traded
            },
    {
        let plan = prepared.buffers.plan;
        let policy = prepared.policy.remainder;
        let active = self.active();
        let named = prepared.buffers.cancellations@;
        let buys = side_orders(active, Side::Buy);
        let sells = side_orders(active, Side::Sell);
        self.lemma_sides_listed();
        self.lemma_prepared_trades(prepared, id);
        lemma_plan_cancellations(active, plan, policy);
        assert(cancels_order(named, id) <==> exists|i: int|
            0 <= i < named.len() && (#[trigger] named[i]).order_id == id);
        if 0 <= k < named.len() {
            let first = side_cancellations(
                active,
                buys,
                plan.buy_fills@,
                policy,
                buys.len(),
            );
            let second = side_cancellations(
                active,
                sells,
                plan.sell_fills@,
                policy,
                sells.len(),
            );
            lemma_side_cancellation_fields(
                active,
                Side::Buy,
                buys,
                plan.buy_fills@,
                policy,
                buys.len(),
            );
            lemma_side_cancellation_fields(
                active,
                Side::Sell,
                sells,
                plan.sell_fills@,
                policy,
                sells.len(),
            );
            self.lemma_prepared_trades(prepared, named[k].order_id);
            assert(named =~= first + second);
            if k < first.len() {
                assert(named[k] == first[k]);
            } else {
                assert(named[k] == second[k - first.len()]);
            }
        }
    }

    /// The plan of a preparation is the allocation of the observed clearing over
    /// the active orders.
    pub open spec fn planned_for(
        &self,
        prepared: PreparedCallAuctionUncross,
        indicative: CallAuctionIndicative,
        policy: CallAuctionUncrossPolicy,
    ) -> bool {
        &&& self.prepare_fault(indicative, policy) is None
        &&& prepared.policy == policy
        &&& prepared.buffers.plan.clearing == indicative.clearing
        &&& prepared.buffers.plan.buy_fills@ == self.side_fills(
            Side::Buy,
            indicative.clearing,
            policy.allocation,
        )
        &&& prepared.buffers.plan.sell_fills@ == self.side_fills(
            Side::Sell,
            indicative.clearing,
            policy.allocation,
        )
        &&& self.prepared_valid(prepared)
    }

    /// No trade is worse than an order's limit: the clearing price is at most the
    /// buyer's and at least the seller's.
    pub proof fn law_trades_respect_limits(
        &self,
        prepared: PreparedCallAuctionUncross,
        indicative: CallAuctionIndicative,
        policy: CallAuctionUncrossPolicy,
        k: int,
    )
        requires
            self.wf(),
            indicative.clearing.wf(),
            self.planned_for(prepared, indicative, policy),
            0 <= k < prepared.buffers.trades@.len(),
        ensures
            ({
                let trade = prepared.buffers.trades@[k];
                &&& match self.active()[trade.buy_order_id].constraint {
                    AuctionOrderConstraint::Market => true,
                    AuctionOrderConstraint::Limit(limit) => trade.price.raw <= limit.raw,
                }
                &&& match self.active()[trade.sell_order_id].constraint {
                    AuctionOrderConstraint::Market => true,
                    AuctionOrderConstraint::Limit(limit) => trade.price.raw >= limit.raw,
                }
            }),
    {
        let clearing = indicative.clearing;
        let trade = prepared.buffers.trades@[k];
        let buys = prepared.buffers.plan.buy_fills@;
        let sells = prepared.buffers.plan.sell_fills@;
        self.lemma_pair_sides(prepared, k);
        self.lemma_fills_eligible(Side::Buy, clearing, policy.allocation);
        self.lemma_fills_eligible(Side::Sell, clearing, policy.allocation);
        let buy = choose|i: int|
            0 <= i < buys.len() && (#[trigger] buys[i]).order_id == trade.buy_order_id;
        let sell = choose|i: int|
            0 <= i < sells.len() && (#[trigger] sells[i]).order_id == trade.sell_order_id;
        assert(eligible(
            self.active()[buys[buy].order_id].auction_order(),
            Side::Buy,
            clearing.price,
        ));
        assert(eligible(
            self.active()[sells[sell].order_id].auction_order(),
            Side::Sell,
            clearing.price,
        ));
    }

    /// Where self trades abort, no trade has one account on both sides; where they
    /// are permitted, none is refused for that; and a refusal names two active
    /// orders of the account.
    pub proof fn law_self_trades_abort(
        &self,
        prepared: PreparedCallAuctionUncross,
        indicative: CallAuctionIndicative,
        policy: CallAuctionUncrossPolicy,
        k: int,
    )
        requires
            self.wf(),
            indicative.clearing.wf(),
        ensures
            self.planned_for(prepared, indicative, policy) && policy.self_trade
                == CallAuctionSelfTradePolicy::Abort && 0 <= k < prepared.buffers.trades@.len()
                ==> prepared.buffers.trades@[k].buy_account_id
                != prepared.buffers.trades@[k].sell_account_id,
            match self.prepare_fault(indicative, policy) {
                Some(
                    CallAuctionPrepareError::SelfTradeWouldOccur {
                        account_id,
                        buy_order_id,
                        sell_order_id,
                        ..
                    },
                ) => {
                    &&& policy.self_trade == CallAuctionSelfTradePolicy::Abort
                    &&& self.active()[buy_order_id].account_id == account_id
                    &&& self.active()[sell_order_id].account_id == account_id
                },
                _ => true,
            },
    {
        let pairs = self.clearing_pairs(indicative.clearing, policy.allocation);
        if policy.self_trade == CallAuctionSelfTradePolicy::Abort {
            lemma_first_self_trade(self.active(), pairs, 0, k);
        }
    }

    /// Allocation laws apply to the plan of a preparation.
    proof fn lemma_planned(
        &self,
        prepared: PreparedCallAuctionUncross,
        indicative: CallAuctionIndicative,
        policy: CallAuctionUncrossPolicy,
    )
        requires
            self.wf(),
            indicative.clearing.wf(),
            self.planned_for(prepared, indicative, policy),
        ensures
            is_allocation(
                side_orders(self.active(), Side::Buy),
                side_orders(self.active(), Side::Sell),
                indicative.clearing,
                policy.allocation,
                self.definition.quantity.increment,
                prepared.buffers.plan,
            ),
            canonical_side(self.active(), Side::Buy, side_orders(self.active(), Side::Buy)),
            canonical_side(self.active(), Side::Sell, side_orders(self.active(), Side::Sell)),
    {
        self.lemma_sides_listed();
    }

    /// The place of an active order in its side's list, with what it trades.
    proof fn lemma_listed_taken(&self, prepared: PreparedCallAuctionUncross, id: OrderId) -> (index:
        int)
        requires
            self.wf(),
            self.prepared_valid(prepared),
            self.active().dom().contains(id),
        ensures
            ({
                let list = side_orders(self.active(), self.active()[id].side);
                let fills = match self.active()[id].side {
                    Side::Buy => prepared.buffers.plan.buy_fills@,
                    Side::Sell => prepared.buffers.plan.sell_fills@,
                };
                &&& 0 <= index < list.len()
                &&& list[index] == self.active()[id].auction_order()
                &&& taken(fills, index) == traded_lots(prepared.buffers.trades@, id)
            }),
    {
        let active = self.active();
        let side = active[id].side;
        let list = side_orders(active, side);
        let fills = match side {
            Side::Buy => prepared.buffers.plan.buy_fills@,
            Side::Sell => prepared.buffers.plan.sell_fills@,
        };
        self.lemma_sides_listed();
        let index = choose|i: int| 0 <= i < list.len() && (#[trigger] list[i]).order_id == id;
        lemma_side_distinct(active, side, list);
        assert(fills_sound(list, fills));
        lemma_executed_taken(list, fills, index);
        self.lemma_prepared_trades(prepared, id);
        index
    }

    /// Whoever trades in an uncross, every active order of its side that ranks
    /// ahead by constraint, price or class trades completely.
    pub proof fn law_better_orders_trade_first(
        &self,
        prepared: PreparedCallAuctionUncross,
        indicative: CallAuctionIndicative,
        policy: CallAuctionUncrossPolicy,
        ahead: OrderId,
        behind: OrderId,
    )
        requires
            self.wf(),
            indicative.clearing.wf(),
            self.planned_for(prepared, indicative, policy),
            self.active().dom().contains(ahead),
            self.active().dom().contains(behind),
            self.active()[ahead].side == self.active()[behind].side,
            match (self.active()[ahead].constraint, self.active()[behind].constraint) {
                (AuctionOrderConstraint::Market, AuctionOrderConstraint::Limit(_)) => true,
                (AuctionOrderConstraint::Limit(_), AuctionOrderConstraint::Market) => false,
                (AuctionOrderConstraint::Market, AuctionOrderConstraint::Market) => {
                    self.active()[ahead].priority_class.value
                        < self.active()[behind].priority_class.value
                },
                (AuctionOrderConstraint::Limit(own), AuctionOrderConstraint::Limit(other)) => {
                    ||| self.active()[ahead].side == Side::Buy && own.raw > other.raw
                    ||| self.active()[ahead].side == Side::Sell && own.raw < other.raw
                    ||| own.raw == other.raw && self.active()[ahead].priority_class.value
                        < self.active()[behind].priority_class.value
                },
            },
            traded_lots(prepared.buffers.trades@, behind) > 0,
        ensures
            traded_lots(prepared.buffers.trades@, ahead) == self.active()[ahead].quantity.lots,
    {
        let active = self.active();
        let side = active[ahead].side;
        self.lemma_planned(prepared, indicative, policy);
        let first = self.lemma_listed_taken(prepared, ahead);
        let second = self.lemma_listed_taken(prepared, behind);
        let list = side_orders(active, side);
        assert(ranks_ahead(list[first], list[second], side));
        law_better_ranks_fill_first(
            side_orders(active, Side::Buy),
            side_orders(active, Side::Sell),
            self.grid,
            indicative.clearing,
            policy.allocation,
            self.definition.quantity.increment,
            AuctionAllocationLimits { max_orders_per_side: self.limits.active_orders },
            prepared.buffers.plan,
            first,
            second,
        );
    }

    /// An uncross leaves no trade undone: a buy and a sell order that both accept
    /// the clearing price are never both left with lots.
    pub proof fn law_uncross_exhausts_one_side(
        &self,
        prepared: PreparedCallAuctionUncross,
        indicative: CallAuctionIndicative,
        policy: CallAuctionUncrossPolicy,
        buy: OrderId,
        sell: OrderId,
    )
        requires
            self.wf(),
            indicative.clearing.wf(),
            self.planned_for(prepared, indicative, policy),
            self.active().dom().contains(buy),
            self.active().dom().contains(sell),
            self.active()[buy].side == Side::Buy,
            self.active()[sell].side == Side::Sell,
            match self.active()[buy].constraint {
                AuctionOrderConstraint::Market => true,
                AuctionOrderConstraint::Limit(limit) => limit.raw
                    >= indicative.clearing.price.raw,
            },
            match self.active()[sell].constraint {
                AuctionOrderConstraint::Market => true,
                AuctionOrderConstraint::Limit(limit) => limit.raw
                    <= indicative.clearing.price.raw,
            },
        ensures
            traded_lots(prepared.buffers.trades@, buy) == self.active()[buy].quantity.lots
                || traded_lots(prepared.buffers.trades@, sell)
                == self.active()[sell].quantity.lots,
    {
        let active = self.active();
        let buys = side_orders(active, Side::Buy);
        let sells = side_orders(active, Side::Sell);
        self.lemma_planned(prepared, indicative, policy);
        self.lemma_side_lots(Side::Buy, buys);
        self.lemma_side_lots(Side::Sell, sells);
        let bid = self.lemma_listed_taken(prepared, buy);
        let ask = self.lemma_listed_taken(prepared, sell);
        law_one_side_is_exhausted(
            buys,
            sells,
            self.grid,
            indicative.clearing,
            policy.allocation,
            self.definition.quantity.increment,
            AuctionAllocationLimits { max_orders_per_side: self.limits.active_orders },
            prepared.buffers.plan,
            bid,
            ask,
        );
    }
}

/// Whether an active order comes before another of its side: a market order
/// before a limit order, then the higher bid or lower ask, the lower class, the
/// earlier sequence.
pub open spec fn comes_before(
    left: CallAuctionOrderSnapshot,
    right: CallAuctionOrderSnapshot,
) -> bool {
    let tied = left.priority_class.value < right.priority_class.value || left.priority_class
        == right.priority_class && (left.priority_sequence < right.priority_sequence
        || left.priority_sequence == right.priority_sequence && left.order_id.value
        < right.order_id.value);
    match (left.constraint, right.constraint) {
        (AuctionOrderConstraint::Market, AuctionOrderConstraint::Limit(_)) => true,
        (AuctionOrderConstraint::Limit(_), AuctionOrderConstraint::Market) => false,
        (AuctionOrderConstraint::Market, AuctionOrderConstraint::Market) => tied,
        (AuctionOrderConstraint::Limit(own), AuctionOrderConstraint::Limit(other)) => {
            ||| left.side == Side::Buy && own.raw > other.raw
            ||| left.side == Side::Sell && own.raw < other.raw
            ||| own.raw == other.raw && tied
        },
    }
}

/// Pairs run through both fill lists without turning back.
proof fn lemma_pairs_advance(
    buys: Seq<AuctionOrderFill>,
    sells: Seq<AuctionOrderFill>,
    buy_index: int,
    sell_index: int,
    buy_left: int,
    sell_left: int,
)
    requires
        0 <= buy_index,
        0 <= sell_index,
        forall|i: int, j: int|
            0 <= i < j < buys.len() ==> (#[trigger] buys[i]).order_id != (
            #[trigger] buys[j]).order_id,
        forall|i: int, j: int|
            0 <= i < j < sells.len() ==> (#[trigger] sells[i]).order_id != (
            #[trigger] sells[j]).order_id,
    ensures
        ({
            let pairs = pairs_from(buys, sells, buy_index, sell_index, buy_left, sell_left);
            &&& forall|m: int, a: int|
                0 <= m < pairs.len() && 0 <= a < buys.len() && (
                #[trigger] pairs[m]).buy_order_id == (#[trigger] buys[a]).order_id ==> a
                    >= buy_index
            &&& forall|m: int, a: int|
                0 <= m < pairs.len() && 0 <= a < sells.len() && (
                #[trigger] pairs[m]).sell_order_id == (#[trigger] sells[a]).order_id ==> a
                    >= sell_index
            &&& forall|j: int, k: int, a: int, b: int|
                0 <= j < k < pairs.len() && 0 <= a < buys.len() && 0 <= b < buys.len() && (
                #[trigger] pairs[j]).buy_order_id == (#[trigger] buys[a]).order_id && (
                #[trigger] pairs[k]).buy_order_id == (#[trigger] buys[b]).order_id ==> a <= b
            &&& forall|j: int, k: int, a: int, b: int|
                0 <= j < k < pairs.len() && 0 <= a < sells.len() && 0 <= b < sells.len() && (
                #[trigger] pairs[j]).sell_order_id == (#[trigger] sells[a]).order_id && (
                #[trigger] pairs[k]).sell_order_id == (#[trigger] sells[b]).order_id ==> a <= b
        }),
    decreases (buys.len() - buy_index) + (sells.len() - sell_index),
{
    let pairs = pairs_from(buys, sells, buy_index, sell_index, buy_left, sell_left);
    if pairs.len() > 0 {
        let lots = if buy_left < sell_left {
            buy_left
        } else {
            sell_left
        };
        let next_buy = if buy_left == lots {
            buy_index + 1
        } else {
            buy_index
        };
        let next_sell = if sell_left == lots {
            sell_index + 1
        } else {
            sell_index
        };
        let new_buy = if buy_left == lots {
            lots_at(buys, next_buy)
        } else {
            buy_left - lots
        };
        let new_sell = if sell_left == lots {
            lots_at(sells, next_sell)
        } else {
            sell_left - lots
        };
        let rest = pairs_from(buys, sells, next_buy, next_sell, new_buy, new_sell);
        lemma_pairs_advance(buys, sells, next_buy, next_sell, new_buy, new_sell);
        assert(pairs[0].buy_order_id == buys[buy_index].order_id);
        assert(pairs[0].sell_order_id == sells[sell_index].order_id);
        assert forall|m: int| 0 < m < pairs.len() implies (#[trigger] pairs[m]) == rest[m
            - 1] by {}
        assert forall|m: int, a: int|
            0 <= m < pairs.len() && 0 <= a < buys.len() && (#[trigger] pairs[m]).buy_order_id == (
            #[trigger] buys[a]).order_id implies a >= buy_index by {
            if m > 0 {
                assert(rest[m - 1].buy_order_id == buys[a].order_id);
            } else if a < buy_index {
                assert(buys[a].order_id != buys[buy_index].order_id);
            }
        }
        assert forall|m: int, a: int|
            0 <= m < pairs.len() && 0 <= a < sells.len() && (#[trigger] pairs[m]).sell_order_id
                == (#[trigger] sells[a]).order_id implies a >= sell_index by {
            if m > 0 {
                assert(rest[m - 1].sell_order_id == sells[a].order_id);
            } else if a < sell_index {
                assert(sells[a].order_id != sells[sell_index].order_id);
            }
        }
        assert forall|j: int, k: int, a: int, b: int|
            0 <= j < k < pairs.len() && 0 <= a < buys.len() && 0 <= b < buys.len() && (
            #[trigger] pairs[j]).buy_order_id == (#[trigger] buys[a]).order_id && (
            #[trigger] pairs[k]).buy_order_id == (#[trigger] buys[b]).order_id implies a <= b by {
            if j > 0 {
                assert(rest[j - 1].buy_order_id == buys[a].order_id);
                assert(rest[k - 1].buy_order_id == buys[b].order_id);
            } else if a > buy_index {
                assert(buys[buy_index].order_id != buys[a].order_id);
            }
        }
        assert forall|j: int, k: int, a: int, b: int|
            0 <= j < k < pairs.len() && 0 <= a < sells.len() && 0 <= b < sells.len() && (
            #[trigger] pairs[j]).sell_order_id == (#[trigger] sells[a]).order_id && (
            #[trigger] pairs[k]).sell_order_id == (#[trigger] sells[b]).order_id implies a <= b by {
            if j > 0 {
                assert(rest[j - 1].sell_order_id == sells[a].order_id);
                assert(rest[k - 1].sell_order_id == sells[b].order_id);
            } else if a > sell_index {
                assert(sells[sell_index].order_id != sells[a].order_id);
            }
        }
    }
}

impl CallAuctionBook {
    /// The trades of an uncross take buyers and sellers in priority order: a later
    /// trade has the same buy order as an earlier one or one that comes behind it,
    /// and likewise on the sell side.
    pub proof fn law_trades_follow_priority(
        &self,
        prepared: PreparedCallAuctionUncross,
        j: int,
        k: int,
    )
        requires
            self.wf(),
            self.prepared_valid(prepared),
            0 <= j < k < prepared.buffers.trades@.len(),
        ensures
            ({
                let first = prepared.buffers.trades@[j];
                let second = prepared.buffers.trades@[k];
                &&& first.buy_order_id == second.buy_order_id || comes_before(
                    self.active()[first.buy_order_id],
                    self.active()[second.buy_order_id],
                )
                &&& first.sell_order_id == second.sell_order_id || comes_before(
                    self.active()[first.sell_order_id],
                    self.active()[second.sell_order_id],
                )
            }),
    {
        let plan = prepared.buffers.plan;
        let active = self.active();
        let buys = plan.buy_fills@;
        let sells = plan.sell_fills@;
        let buy_list = side_orders(active, Side::Buy);
        let sell_list = side_orders(active, Side::Sell);
        let first = prepared.buffers.trades@[j];
        let second = prepared.buffers.trades@[k];
        self.lemma_sides_listed();
        self.lemma_pair_sides(prepared, j);
        self.lemma_pair_sides(prepared, k);
        lemma_fills_distinct(active, Side::Buy, buy_list, buys);
        lemma_fills_distinct(active, Side::Sell, sell_list, sells);
        lemma_pairs_advance(buys, sells, 0, 0, lots_at(buys, 0), lots_at(sells, 0));
        let pairs = fill_pairs(buys, sells);
        assert(pairs[j].buy_order_id == first.buy_order_id);
        assert(pairs[k].buy_order_id == second.buy_order_id);
        assert(pairs[j].sell_order_id == first.sell_order_id);
        assert(pairs[k].sell_order_id == second.sell_order_id);
        let a = choose|i: int|
            0 <= i < buys.len() && (#[trigger] buys[i]).order_id == first.buy_order_id;
        let b = choose|i: int|
            0 <= i < buys.len() && (#[trigger] buys[i]).order_id == second.buy_order_id;
        lemma_fill_priority(active, Side::Buy, buy_list, buys, a, b);
        let c = choose|i: int|
            0 <= i < sells.len() && (#[trigger] sells[i]).order_id == first.sell_order_id;
        let d = choose|i: int|
            0 <= i < sells.len() && (#[trigger] sells[i]).order_id == second.sell_order_id;
        lemma_fill_priority(active, Side::Sell, sell_list, sells, c, d);
    }
}

proof fn lemma_fills_distinct(
    active: ActiveOrders,
    side: Side,
    list: Seq<AuctionOrder>,
    fills: Seq<AuctionOrderFill>,
)
    requires
        canonical_side(active, side, list),
        fills_sound(list, fills),
    ensures
        forall|i: int, j: int|
            0 <= i < j < fills.len() ==> (#[trigger] fills[i]).order_id != (
            #[trigger] fills[j]).order_id,
{
    assert forall|i: int, j: int| 0 <= i < j < fills.len() implies (#[trigger] fills[i]).order_id
        != (#[trigger] fills[j]).order_id by {
        lemma_executed_fill(active, side, list, fills, i);
    }
}

proof fn lemma_fill_priority(
    active: ActiveOrders,
    side: Side,
    list: Seq<AuctionOrder>,
    fills: Seq<AuctionOrderFill>,
    first: int,
    second: int,
)
    requires
        canonical_side(active, side, list),
        fills_sound(list, fills),
        0 <= first <= second < fills.len(),
    ensures
        fills[first].order_id == fills[second].order_id || comes_before(
            active[fills[first].order_id],
            active[fills[second].order_id],
        ),
{
    let left = fills[first];
    let right = fills[second];
    if first < second {
        assert(left.source_index < right.source_index);
        assert(order_before(list[left.source_index as int], list[right.source_index as int], side));
        assert(list[left.source_index as int] == active[left.order_id].auction_order());
        assert(list[right.source_index as int] == active[right.order_id].auction_order());
    }
}

/// Where no pair is a self trade, buyer and seller of every pair differ; one that
/// is found has one account on both sides.
pub(crate) proof fn lemma_first_self_trade(
    active: ActiveOrders,
    pairs: Seq<AuctionPair>,
    from: int,
    k: int,
)
    requires
        0 <= from <= pairs.len(),
    ensures
        first_self_trade(active, pairs, from) is None && from <= k < pairs.len()
            ==> active[pairs[k].buy_order_id].account_id
            != active[pairs[k].sell_order_id].account_id,
        match first_self_trade(active, pairs, from) {
            Some(
                CallAuctionPrepareError::SelfTradeWouldOccur {
                    account_id,
                    buy_order_id,
                    sell_order_id,
                    ..
                },
            ) => {
                &&& active[buy_order_id].account_id == account_id
                &&& active[sell_order_id].account_id == account_id
            },
            Some(_) => false,
            None => true,
        },
    decreases pairs.len() - from,
{
    if from < pairs.len() {
        lemma_first_self_trade(active, pairs, from + 1, k);
    }
}

impl CallAuctionBook {
    /// An observation can be uncrossed only in the book and at the revision that
    /// it was made of, while the revision can move and a buffer set is free.
    pub proof fn law_stale_observation_is_refused(
        &self,
        indicative: CallAuctionIndicative,
        policy: CallAuctionUncrossPolicy,
    )
        ensures
            ({
                let fault = self.prepare_fault(indicative, policy);
                let moves = self.state_revision < u64::MAX;
                let own = moves && indicative.book_instance_id == self.instance_id;
                let fresh = own && indicative.state_revision == self.state_revision;
                let free = fresh && self.uncross_pool.available@.len() > 0;
                &&& fault is None ==> free
                &&& !moves ==> fault == Some(CallAuctionPrepareError::StateRevisionExhausted)
                &&& moves && !own ==> fault == Some(
                    CallAuctionPrepareError::Plan(CallAuctionPlanError::ForeignBook),
                )
                &&& own && !fresh ==> fault == Some(
                    CallAuctionPrepareError::Plan(
                        CallAuctionPlanError::StaleRevision {
                            observed: indicative.state_revision,
                            current: self.state_revision,
                        },
                    ),
                )
                &&& fresh && !free ==> fault == Some(
                    CallAuctionPrepareError::PreparationCapacityExhausted {
                        maximum: self.limits.prepared_uncrosses,
                    },
                )
            }),
    {
    }

    /// A preparation can be committed only to the book and at the revision that it
    /// was made for.
    pub proof fn law_stale_preparation_is_refused(&self, prepared: PreparedCallAuctionUncross)
        ensures
            ({
                let fault = self.commit_fault(prepared);
                let own = prepared.book_instance_id == self.instance_id;
                let fresh = own && prepared.state_revision == self.state_revision;
                &&& fault is None ==> fresh && prepared.next_state_revision == self.state_revision
                    + 1
                &&& !own ==> fault == Some(CallAuctionCommitError::ForeignPreparation)
                &&& own && !fresh ==> fault == Some(
                    CallAuctionCommitError::StalePreparation {
                        observed: prepared.state_revision,
                        current: self.state_revision,
                    },
                )
            }),
    {
    }

    /// What a book observes of itself is neither foreign nor stale to it.
    pub proof fn law_own_observation_is_current(
        &self,
        clearing: AuctionClearing,
        policy: CallAuctionUncrossPolicy,
    )
        ensures
            !(self.prepare_fault(self.observed(clearing), policy) matches Some(
                CallAuctionPrepareError::Plan(CallAuctionPlanError::ForeignBook),
            )),
            !(self.prepare_fault(self.observed(clearing), policy) matches Some(
                CallAuctionPrepareError::Plan(CallAuctionPlanError::StaleRevision { .. }),
            )),
    {
        let pairs = self.clearing_pairs(clearing, policy.allocation);
        lemma_first_self_trade(self.active(), pairs, 0, 0);
    }
}

impl CallAuctionBook {
    /// Where self trades are permitted, or no pair of the plan has one account on
    /// both sides, what a book has just observed of itself is prepared as long as
    /// its revision can move, a buffer set is free and trade identities are left.
    pub proof fn law_settleable_uncross_is_prepared(
        &self,
        band: AuctionPriceBand,
        reference: Price,
        price_policy: AuctionPricePolicy,
        clearing: AuctionClearing,
        policy: CallAuctionUncrossPolicy,
    )
        requires
            self.wf(),
            self.clearing_discovered(band, reference, price_policy, Ok(Some(clearing))),
            self.state_revision < u64::MAX,
            self.uncross_pool.available@.len() > 0,
            self.next_trade_id + self.clearing_pairs(clearing, policy.allocation).len() <= u64::MAX,
            policy.self_trade == CallAuctionSelfTradePolicy::Permit || forall|k: int|
                0 <= k < self.clearing_pairs(clearing, policy.allocation).len() ==> {
                    let pair = #[trigger] self.clearing_pairs(clearing, policy.allocation)[k];
                    self.active()[pair.buy_order_id].account_id
                        != self.active()[pair.sell_order_id].account_id
                },
        ensures
            self.prepare_fault(self.observed(clearing), policy) is None,
    {
        let pairs = self.clearing_pairs(clearing, policy.allocation);
        self.law_observed_uncross_reaches_pairing(band, reference, price_policy, clearing, policy);
        if policy.self_trade == CallAuctionSelfTradePolicy::Abort {
            lemma_no_self_trade(self.active(), pairs, 0);
        }
    }
}

proof fn lemma_no_self_trade(active: ActiveOrders, pairs: Seq<AuctionPair>, from: int)
    requires
        0 <= from <= pairs.len(),
        forall|k: int|
            0 <= k < pairs.len() ==> active[(#[trigger] pairs[k]).buy_order_id].account_id
                != active[pairs[k].sell_order_id].account_id,
    ensures
        first_self_trade(active, pairs, from) is None,
    decreases pairs.len() - from,
{
    if from < pairs.len() {
        assert(active[pairs[from].buy_order_id].account_id
            != active[pairs[from].sell_order_id].account_id);
        lemma_no_self_trade(active, pairs, from + 1);
    }
}

} // verus!
