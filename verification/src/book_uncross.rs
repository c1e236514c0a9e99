//! Preparing and committing one uncross of the collected interest.

use vstd::prelude::*;

use crate::allocation::{
    allocate_clearing_reusing, allocate_clearing_with_policy, allocation_fault, eligible, fill_lots,
    fills_sound, law_fills_keep_quantum, law_fills_reconcile, lemma_eligible_aligned,
    lemma_multiple_sum, order_before, policy_fills, quanta_aligned, AuctionAllocationError,
    AuctionAllocationLimits, AuctionAllocationMethod, AuctionAllocationPlan,
    AuctionAllocationPolicy, AuctionOrderFill,
};
use crate::auction::{AuctionClearing, AuctionOrder, AuctionOrderConstraint};
use crate::book_interest::{canonical_side, side_orders, ActiveOrders};
use crate::book_state::{account_ok, queue_ok, CallAuctionBook, CallAuctionUncrossBuffers};
use crate::book_types::{
    CallAuctionCancellation, CallAuctionCommitError, CallAuctionIndicative,
    CallAuctionOrderSnapshot, CallAuctionPlanError, CallAuctionPrepareError,
    CallAuctionRemainderPolicy, CallAuctionSelfTradePolicy, CallAuctionTrade,
    CallAuctionUncrossPolicy,
};
use crate::chain::lemma_distinct_members;
use crate::domain::{AccountId, OrderId, Price, Quantity, Side, TradeId};
use crate::instrument::InstrumentDefinition;

verus! {

/// One matched quantity of a buy and a sell order.
#[derive(Clone, Copy, Debug, PartialEq, Eq, Structural)]
pub struct AuctionPair {
    /// Buy order.
    pub buy_order_id: OrderId,
    /// Sell order.
    pub sell_order_id: OrderId,
    /// Matched lots.
    pub lots: u64,
}

/// Lots of the fill at one position, zero past the end.
pub open spec fn lots_at(fills: Seq<AuctionOrderFill>, index: int) -> int {
    if 0 <= index < fills.len() {
        fills[index].quantity_lots as int
    } else {
        0
    }
}

/// Pairs both fill lists from the given positions on: the current buy and sell
/// fills match the smaller of their remaining lots, and an exhausted fill makes
/// way for the next one.
pub open spec fn pairs_from(
    buys: Seq<AuctionOrderFill>,
    sells: Seq<AuctionOrderFill>,
    buy_index: int,
    sell_index: int,
    buy_left: int,
    sell_left: int,
) -> Seq<AuctionPair>
    decreases (buys.len() - buy_index) + (sells.len() - sell_index),
{
    if buy_index < 0 || sell_index < 0 || buy_index >= buys.len() || sell_index >= sells.len()
        || buy_left <= 0 || sell_left <= 0 {
        Seq::empty()
    } else {
        let lots = if buy_left < sell_left {
            buy_left
        } else {
            sell_left
        };
        let next_buy = if buy_left == lots {
            buy_index + 1
        } else {
            buy_index
        };
        let next_sell = if sell_left == lots {
            sell_index + 1
        } else {
            sell_index
        };
        seq![
            AuctionPair {
                buy_order_id: buys[buy_index].order_id,
                sell_order_id: sells[sell_index].order_id,
                lots: lots as u64,
            },
        ] + pairs_from(
            buys,
            sells,
            next_buy,
            next_sell,
            if buy_left == lots {
                lots_at(buys, next_buy)
            } else {
                buy_left - lots
            },
            if sell_left == lots {
                lots_at(sells, next_sell)
            } else {
                sell_left - lots
            },
        )
    }
}

/// The deterministic counterparty pairs of two fill lists.
pub open spec fn fill_pairs(buys: Seq<AuctionOrderFill>, sells: Seq<AuctionOrderFill>) -> Seq<
    AuctionPair,
> {
    pairs_from(buys, sells, 0, 0, lots_at(buys, 0), lots_at(sells, 0))
}

/// Sum of the matched lots.
pub open spec fn pair_lots(pairs: Seq<AuctionPair>) -> int
    decreases pairs.len(),
{
    if pairs.len() == 0 {
        0
    } else {
        pairs[0].lots + pair_lots(pairs.subrange(1, pairs.len() as int))
    }
}

/// Lots of the fills from one position on.
pub open spec fn tail_lots(fills: Seq<AuctionOrderFill>, index: int) -> int
    decreases fills.len() - index,
{
    if index < 0 || index >= fills.len() {
        0
    } else {
        fills[index].quantity_lots + tail_lots(fills, index + 1)
    }
}

pub proof fn lemma_tail_lots(fills: Seq<AuctionOrderFill>, index: int)
    requires
        0 <= index <= fills.len(),
    ensures
        fill_lots(fills.take(index)) + tail_lots(fills, index) == fill_lots(fills),
        0 <= tail_lots(fills, index),
    decreases fills.len() - index,
{
    if index < fills.len() {
        lemma_tail_lots(fills, index + 1);
        assert(fills.take(index + 1).drop_last() =~= fills.take(index));
    } else {
        assert(fills.take(index) =~= fills);
    }
}

/// Every fill is positive.
pub open spec fn fills_positive(fills: Seq<AuctionOrderFill>) -> bool {
    forall|i: int| 0 <= i < fills.len() ==> (#[trigger] fills[i]).quantity_lots > 0
}

/// Whether a fill list holds an order.
pub open spec fn fills_order(fills: Seq<AuctionOrderFill>, id: OrderId) -> bool {
    exists|i: int| 0 <= i < fills.len() && (#[trigger] fills[i]).order_id == id
}

/// What is left to pair at one position.
pub open spec fn cursor_ok(fills: Seq<AuctionOrderFill>, index: int, left: int) -> bool {
    &&& 0 <= index <= fills.len()
    &&& index < fills.len() ==> 0 < left <= fills[index].quantity_lots
    &&& index == fills.len() ==> left == 0
}

proof fn lemma_pairs_from(
    buys: Seq<AuctionOrderFill>,
    sells: Seq<AuctionOrderFill>,
    buy_index: int,
    sell_index: int,
    buy_left: int,
    sell_left: int,
)
    requires
        fills_positive(buys),
        fills_positive(sells),
        cursor_ok(buys, buy_index, buy_left),
        cursor_ok(sells, sell_index, sell_left),
        buy_left + tail_lots(buys, buy_index + 1) == sell_left + tail_lots(sells, sell_index + 1),
    ensures
        ({
            let pairs = pairs_from(buys, sells, buy_index, sell_index, buy_left, sell_left);
            &&& pair_lots(pairs) == buy_left + tail_lots(buys, buy_index + 1)
            &&& pairs.len() <= (buys.len() - buy_index) + (sells.len() - sell_index)
            &&& forall|k: int|
                0 <= k < pairs.len() ==> (#[trigger] pairs[k]).lots > 0 && fills_order(
                    buys,
                    pairs[k].buy_order_id,
                ) && fills_order(sells, pairs[k].sell_order_id)
        }),
    decreases (buys.len() - buy_index) + (sells.len() - sell_index),
{
    let pairs = pairs_from(buys, sells, buy_index, sell_index, buy_left, sell_left);
    if buy_index < buys.len() && sell_index < sells.len() {
        let lots = if buy_left < sell_left {
            buy_left
        } else {
            sell_left
        };
        let next_buy = if buy_left == lots {
            buy_index + 1
        } else {
            buy_index
        };
        let next_sell = if sell_left == lots {
            sell_index + 1
        } else {
            sell_index
        };
        let next_buy_left = if buy_left == lots {
            lots_at(buys, next_buy)
        } else {
            buy_left - lots
        };
        let next_sell_left = if sell_left == lots {
            lots_at(sells, next_sell)
        } else {
            sell_left - lots
        };
        if next_buy < buys.len() {
            assert(buys[next_buy].quantity_lots > 0);
        }
        if next_sell < sells.len() {
            assert(sells[next_sell].quantity_lots > 0);
        }
        lemma_pairs_from(buys, sells, next_buy, next_sell, next_buy_left, next_sell_left);
        let rest = pairs_from(buys, sells, next_buy, next_sell, next_buy_left, next_sell_left);
        assert(pairs.subrange(1, pairs.len() as int) =~= rest);
        assert forall|k: int| 0 <= k < pairs.len() implies (#[trigger] pairs[k]).lots > 0
            && fills_order(buys, pairs[k].buy_order_id) && fills_order(
            sells,
            pairs[k].sell_order_id,
        ) by {
            if k == 0 {
                assert(buys[buy_index].order_id == pairs[0].buy_order_id);
                assert(sells[sell_index].order_id == pairs[0].sell_order_id);
            } else {
                assert(pairs[k] == rest[k - 1]);
            }
        }
    } else {
        lemma_tail_lots(buys, buy_index);
        lemma_tail_lots(sells, sell_index);
        if buy_index < buys.len() {
            lemma_tail_lots(buys, buy_index + 1);
        }
        if sell_index < sells.len() {
            lemma_tail_lots(sells, sell_index + 1);
        }
    }
}

/// Two fill lists of equal total pair completely: every matched quantity is
/// positive, the matched quantities add up to that total, and every pair comes
/// from the two lists.
pub proof fn law_pairs_reconcile(buys: Seq<AuctionOrderFill>, sells: Seq<AuctionOrderFill>)
    requires
        fills_positive(buys),
        fills_positive(sells),
        fill_lots(buys) == fill_lots(sells),
    ensures
        pair_lots(fill_pairs(buys, sells)) == fill_lots(buys),
        fill_pairs(buys, sells).len() <= buys.len() + sells.len(),
        forall|k: int|
            0 <= k < fill_pairs(buys, sells).len() ==> (#[trigger] fill_pairs(buys, sells)[k]).lots
                > 0 && fills_order(buys, fill_pairs(buys, sells)[k].buy_order_id) && fills_order(
                sells,
                fill_pairs(buys, sells)[k].sell_order_id,
            ),
{
    lemma_tail_lots(buys, 0);
    lemma_tail_lots(sells, 0);
    assert(buys.take(0) =~= Seq::<AuctionOrderFill>::empty());
    assert(sells.take(0) =~= Seq::<AuctionOrderFill>::empty());
    if buys.len() > 0 {
        assert(buys[0].quantity_lots > 0);
    }
    if sells.len() > 0 {
        assert(sells[0].quantity_lots > 0);
    }
    lemma_pairs_from(buys, sells, 0, 0, lots_at(buys, 0), lots_at(sells, 0));
}

/// Pairs two fill lists.
fn collect_pairs(buys: &[AuctionOrderFill], sells: &[AuctionOrderFill]) -> (r: Vec<AuctionPair>)
    ensures
        r@ == fill_pairs(buys@, sells@),
{
    let mut pairs: Vec<AuctionPair> = Vec::new();
    let ghost all = fill_pairs(buys@, sells@);
    let mut buy_index: usize = 0;
    let mut sell_index: usize = 0;
    let mut buy_left: u64 = if buys.len() > 0 {
        buys[0].quantity_lots
    } else {
        0
    };
    let mut sell_left: u64 = if sells.len() > 0 {
        sells[0].quantity_lots
    } else {
        0
    };
    proof {
        assert(pairs@ + all =~= all);
    }
    while buy_index < buys.len() && sell_index < sells.len() && buy_left != 0 && sell_left != 0
        invariant
            all == fill_pairs(buys@, sells@),
            buy_index <= buys@.len(),
            sell_index <= sells@.len(),
            pairs@ + pairs_from(
                buys@,
                sells@,
                buy_index as int,
                sell_index as int,
                buy_left as int,
                sell_left as int,
            ) == all,
        decreases (buys@.len() - buy_index) + (sells@.len() - sell_index),
    {
        let lots: u64 = if buy_left < sell_left {
            buy_left
        } else {
            sell_left
        };
        let pair = AuctionPair {
            buy_order_id: buys[buy_index].order_id,
            sell_order_id: sells[sell_index].order_id,
            lots,
        };
        let ghost before = pairs@;
        let buy_done = buy_left == lots;
        let sell_done = sell_left == lots;
        if buy_done {
            buy_index += 1;
            buy_left = if buy_index < buys.len() {
                buys[buy_index].quantity_lots
            } else {
                0
            };
        } else {
            buy_left = buy_left - lots;
        }
        if sell_done {
            sell_index += 1;
            sell_left = if sell_index < sells.len() {
                sells[sell_index].quantity_lots
            } else {
                0
            };
        } else {
            sell_left = sell_left - lots;
        }
        pairs.push(pair);
        proof {
            let rest = pairs_from(
                buys@,
                sells@,
                buy_index as int,
                sell_index as int,
                buy_left as int,
                sell_left as int,
            );
            assert(before + (seq![pair] + rest) =~= before.push(pair) + rest);
        }
    }
    proof {
        assert(pairs@ + Seq::<AuctionPair>::empty() =~= pairs@);
    }
    pairs
}

/// The trade that one pair becomes.
pub open spec fn pair_trade(
    active: ActiveOrders,
    definition: InstrumentDefinition,
    trade_id: int,
    price: Price,
    pair: AuctionPair,
) -> CallAuctionTrade {
    CallAuctionTrade {
        trade_id: TradeId { value: trade_id as u64 },
        instrument_id: definition.instrument_id,
        instrument_version: definition.version,
        buy_order_id: pair.buy_order_id,
        buy_account_id: active[pair.buy_order_id].account_id,
        sell_order_id: pair.sell_order_id,
        sell_account_id: active[pair.sell_order_id].account_id,
        price,
        quantity: Quantity { lots: pair.lots },
    }
}

/// The trades of a list of pairs, numbered from `first_trade_id` on.
pub open spec fn pair_trades(
    active: ActiveOrders,
    definition: InstrumentDefinition,
    first_trade_id: int,
    price: Price,
    pairs: Seq<AuctionPair>,
) -> Seq<CallAuctionTrade> {
    Seq::new(
        pairs.len(),
        |k: int| pair_trade(active, definition, first_trade_id + k, price, pairs[k]),
    )
}

/// The first pair from `index` on whose buyer and seller are one account.
pub open spec fn first_self_trade(
    active: ActiveOrders,
    pairs: Seq<AuctionPair>,
    index: int,
) -> Option<CallAuctionPrepareError>
    decreases pairs.len() - index,
{
    if index < 0 || index >= pairs.len() {
        None
    } else {
        let pair = pairs[index];
        if active[pair.buy_order_id].account_id == active[pair.sell_order_id].account_id {
            Some(
                CallAuctionPrepareError::SelfTradeWouldOccur {
                    account_id: active[pair.buy_order_id].account_id,
                    buy_order_id: pair.buy_order_id,
                    sell_order_id: pair.sell_order_id,
                    quantity: Quantity { lots: pair.lots },
                },
            )
        } else {
            first_self_trade(active, pairs, index + 1)
        }
    }
}

/// Lots that a fill list executes of one order.
pub open spec fn executed_lots(fills: Seq<AuctionOrderFill>, id: OrderId) -> int
    decreases fills.len(),
{
    if fills.len() == 0 {
        0
    } else {
        executed_lots(fills.drop_last(), id) + if fills.last().order_id == id {
            fills.last().quantity_lots as int
        } else {
            0
        }
    }
}

/// Remainder cancellations of the first `count` orders of one side.
pub open spec fn side_cancellations(
    active: ActiveOrders,
    list: Seq<AuctionOrder>,
    fills: Seq<AuctionOrderFill>,
    policy: CallAuctionRemainderPolicy,
    count: nat,
) -> Seq<CallAuctionCancellation>
    decreases count,
{
    if count == 0 {
        Seq::empty()
    } else {
        let rest = side_cancellations(active, list, fills, policy, (count - 1) as nat);
        let order = list[count - 1];
        let executed = executed_lots(fills, order.order_id);
        if executed < order.quantity.lots && policy.drops(order.constraint) {
            rest.push(
                CallAuctionCancellation {
                    order_id: order.order_id,
                    account_id: active[order.order_id].account_id,
                    side: active[order.order_id].side,
                    constraint: order.constraint,
                    quantity: Quantity { lots: (order.quantity.lots - executed) as u64 },
                    executed_quantity_lots: executed as u64,
                },
            )
        } else {
            rest
        }
    }
}

/// Remainder cancellations of both sides.
pub open spec fn remainder_cancellations(
    active: ActiveOrders,
    buy_fills: Seq<AuctionOrderFill>,
    sell_fills: Seq<AuctionOrderFill>,
    policy: CallAuctionRemainderPolicy,
) -> Seq<CallAuctionCancellation> {
    let buys = side_orders(active, Side::Buy);
    let sells = side_orders(active, Side::Sell);
    side_cancellations(active, buys, buy_fills, policy, buys.len()) + side_cancellations(
        active,
        sells,
        sell_fills,
        policy,
        sells.len(),
    )
}

/// Remainder cancellations of a plan.
pub open spec fn plan_cancellations(
    active: ActiveOrders,
    plan: AuctionAllocationPlan,
    policy: CallAuctionRemainderPolicy,
) -> Seq<CallAuctionCancellation> {
    remainder_cancellations(active, plan.buy_fills@, plan.sell_fills@, policy)
}

/// Lots that a plan executes of one order.
pub open spec fn plan_executed(plan: AuctionAllocationPlan, id: OrderId) -> int {
    executed_lots(plan.buy_fills@, id) + executed_lots(plan.sell_fills@, id)
}

/// Active orders after a plan has been executed and remainders dropped.
pub open spec fn uncrossed(
    active: ActiveOrders,
    plan: AuctionAllocationPlan,
    policy: CallAuctionRemainderPolicy,
) -> ActiveOrders {
    Map::new(
        |id: OrderId|
            active.dom().contains(id) && plan_executed(plan, id) < active[id].quantity.lots
                && !policy.drops(active[id].constraint),
        |id: OrderId|
            CallAuctionOrderSnapshot {
                quantity: Quantity {
                    lots: (active[id].quantity.lots - plan_executed(plan, id)) as u64,
                },
                ..active[id]
            },
    )
}

/// An immutable, revision-bound auction uncross preparation.
///
/// It holds one leased buffer set of its book. Hand it to
/// [`CallAuctionBook::commit_uncross`] or back to
/// [`CallAuctionBook::release_prepared`].
#[derive(Debug)]
pub struct PreparedCallAuctionUncross {
    /// Identity of the prepared book.
    pub book_instance_id: u64,
    /// Source revision.
    pub state_revision: u64,
    /// Revision after commit.
    pub next_state_revision: u64,
    /// Next trade identifier after commit.
    pub next_trade_id: u64,
    /// Uncross policy.
    pub policy: CallAuctionUncrossPolicy,
    /// Leased plan, pairs and cancellations.
    pub buffers: CallAuctionUncrossBuffers,
}

impl PreparedCallAuctionUncross {
    /// Returns the exact source collection revision.
    pub fn state_revision(&self) -> (r: u64)
        ensures
            r == self.state_revision,
    {
        self.state_revision
    }

    /// Returns the explicit uncross policy.
    pub fn policy(&self) -> (r: CallAuctionUncrossPolicy)
        ensures
            r == self.policy,
    {
        self.policy
    }

    /// Returns the immutable order-level allocation plan.
    pub fn allocation_plan(&self) -> (r: &AuctionAllocationPlan)
        ensures
            *r == self.buffers.plan,
    {
        &self.buffers.plan
    }

    /// Returns proposed counterparty pairs in deterministic priority-walk order.
    pub fn trades(&self) -> (r: &[CallAuctionTrade])
        ensures
            r@ == self.buffers.trades@,
    {
        self.buffers.trades.as_slice()
    }

    /// Returns proposed policy-driven remainder cancellations.
    pub fn cancellations(&self) -> (r: &[CallAuctionCancellation])
        ensures
            r@ == self.buffers.cancellations@,
    {
        self.buffers.cancellations.as_slice()
    }
}

/// One atomically committed call-auction uncross result.
///
/// It holds the leased buffer set of its preparation until it is handed back to
/// [`CallAuctionBook::release_uncross`].
#[derive(Debug)]
pub struct CallAuctionUncross {
    /// Identity of the uncrossed book.
    pub book_instance_id: u64,
    /// Revision after commit.
    pub state_revision: u64,
    /// Applied policy.
    pub policy: CallAuctionUncrossPolicy,
    /// Leased plan, pairs and cancellations.
    pub buffers: CallAuctionUncrossBuffers,
}

impl CallAuctionUncross {
    /// Returns the collection revision after atomic commit.
    pub fn state_revision(&self) -> (r: u64)
        ensures
            r == self.state_revision,
    {
        self.state_revision
    }

    /// Returns the applied policy.
    pub fn policy(&self) -> (r: CallAuctionUncrossPolicy)
        ensures
            r == self.policy,
    {
        self.policy
    }

    /// Returns the allocation consumed by this commit.
    pub fn allocation_plan(&self) -> (r: &AuctionAllocationPlan)
        ensures
            *r == self.buffers.plan,
    {
        &self.buffers.plan
    }

    /// Returns deterministic counterparty pairs.
    pub fn trades(&self) -> (r: &[CallAuctionTrade])
        ensures
            r@ == self.buffers.trades@,
    {
        self.buffers.trades.as_slice()
    }

    /// Returns remainders canceled by policy.
    pub fn cancellations(&self) -> (r: &[CallAuctionCancellation])
        ensures
            r@ == self.buffers.cancellations@,
    {
        self.buffers.cancellations.as_slice()
    }
}

/// A refused commit with the preparation that was handed in.
#[derive(Debug)]
pub struct CallAuctionCommitRejection {
    /// Why the preparation was refused.
    pub error: CallAuctionCommitError,
    /// The unchanged preparation.
    pub prepared: PreparedCallAuctionUncross,
}

/// An order that occurs once is executed by its one fill.
proof fn lemma_executed_once(fills: Seq<AuctionOrderFill>, id: OrderId, index: int)
    requires
        forall|k: int|
            0 <= k < fills.len() ==> ((#[trigger] fills[k]).order_id == id <==> k == index),
    ensures
        executed_lots(fills, id) == lots_at(fills, index),
    decreases fills.len(),
{
    if fills.len() > 0 {
        let rest = fills.drop_last();
        let last = fills.len() - 1;
        assert(fills[last].order_id == id <==> last == index);
        let rest_index = if index == last {
            -1
        } else {
            index
        };
        assert forall|k: int| 0 <= k < rest.len() implies ((#[trigger] rest[k]).order_id == id <==> k
            == rest_index) by {
            assert(rest[k] == fills[k]);
        }
        lemma_executed_once(rest, id, rest_index);
    }
}

/// Executed lots are never negative.
proof fn lemma_executed_nonnegative(fills: Seq<AuctionOrderFill>, id: OrderId)
    ensures
        executed_lots(fills, id) >= 0,
    decreases fills.len(),
{
    if fills.len() > 0 {
        lemma_executed_nonnegative(fills.drop_last(), id);
    }
}

/// No order occurs twice in a list of a side.
pub(crate) proof fn lemma_side_distinct(active: ActiveOrders, side: Side, list: Seq<AuctionOrder>)
    requires
        canonical_side(active, side, list),
    ensures
        forall|i: int, j: int|
            0 <= i < list.len() && 0 <= j < list.len() && (#[trigger] list[i]).order_id == (
            #[trigger] list[j]).order_id ==> i == j,
{
    assert forall|i: int, j: int|
        0 <= i < list.len() && 0 <= j < list.len() && (#[trigger] list[i]).order_id == (
        #[trigger] list[j]).order_id implies i == j by {
        if i < j {
            assert(order_before(list[i], list[j], side));
            assert(list[i] == list[j]);
        } else if j < i {
            assert(order_before(list[j], list[i], side));
            assert(list[i] == list[j]);
        }
    }
}

/// What a sound fill list executes of one listed order.
pub proof fn lemma_executed_listed(
    active: ActiveOrders,
    side: Side,
    list: Seq<AuctionOrder>,
    fills: Seq<AuctionOrderFill>,
    id: OrderId,
)
    requires
        canonical_side(active, side, list),
        fills_sound(list, fills),
    ensures
        0 <= executed_lots(fills, id),
        active.dom().contains(id) && active[id].side == side ==> executed_lots(fills, id)
            <= active[id].quantity.lots,
        !(active.dom().contains(id) && active[id].side == side) ==> executed_lots(fills, id) == 0,
{
    lemma_side_distinct(active, side, list);
    lemma_executed_nonnegative(fills, id);
    if fills_order(fills, id) {
        let index = choose|i: int| 0 <= i < fills.len() && (#[trigger] fills[i]).order_id == id;
        lemma_executed_fill(active, side, list, fills, index);
    } else {
        assert forall|k: int| 0 <= k < fills.len() implies ((#[trigger] fills[k]).order_id == id
            <==> k == -1) by {}
        lemma_executed_once(fills, id, -1);
    }
}

/// A sound fill list executes of an order what its fill says.
pub proof fn lemma_executed_fill(
    active: ActiveOrders,
    side: Side,
    list: Seq<AuctionOrder>,
    fills: Seq<AuctionOrderFill>,
    index: int,
)
    requires
        canonical_side(active, side, list),
        fills_sound(list, fills),
        0 <= index < fills.len(),
    ensures
        executed_lots(fills, fills[index].order_id) == fills[index].quantity_lots,
        active.dom().contains(fills[index].order_id),
        active[fills[index].order_id].side == side,
        active[fills[index].order_id].quantity.lots >= fills[index].quantity_lots,
        forall|k: int|
            0 <= k < fills.len() && k != index ==> (#[trigger] fills[k]).order_id
                != fills[index].order_id,
{
    lemma_side_distinct(active, side, list);
    let id = fills[index].order_id;
    assert(list[fills[index].source_index as int].order_id == id);
    assert forall|k: int| 0 <= k < fills.len() implies ((#[trigger] fills[k]).order_id == id <==> k
        == index) by {
        assert(list[fills[k].source_index as int].order_id == fills[k].order_id);
        if fills[k].order_id == id {
            assert(fills[k].source_index == fills[index].source_index);
            if k < index {
                assert(fills[k].source_index < fills[index].source_index);
            } else if index < k {
                assert(fills[index].source_index < fills[k].source_index);
            }
        }
    }
    lemma_executed_once(fills, id, index);
}

/// A list of a side is no longer than the active orders.
pub(crate) proof fn lemma_side_bounded(book: &CallAuctionBook, side: Side, list: Seq<AuctionOrder>)
    requires
        book.wf(),
        canonical_side(book.active(), side, list),
    ensures
        list.len() <= book.limits.active_orders,
{
    lemma_side_distinct(book.active(), side, list);
    let ids = list.map_values(|order: AuctionOrder| order.order_id);
    book.orders.lemma_view();
    assert forall|i: int| 0 <= i < ids.len() implies book.orders@.dom().contains(
        #[trigger] ids[i],
    ) by {
        assert(ids[i] == list[i].order_id);
        assert(book.active().dom().contains(list[i].order_id));
    }
    assert forall|i: int, j: int| 0 <= i < j < ids.len() implies #[trigger] ids[i]
        != #[trigger] ids[j] by {
        assert(ids[i] == list[i].order_id && ids[j] == list[j].order_id);
    }
    lemma_distinct_members(ids, book.orders@.dom());
}

/// A sound fill list is no longer than its order list.
proof fn lemma_fills_bounded(orders: Seq<AuctionOrder>, fills: Seq<AuctionOrderFill>, count: int)
    requires
        fills_sound(orders, fills),
        0 <= count <= fills.len(),
    ensures
        count <= orders.len(),
        count > 0 ==> fills[count - 1].source_index >= count - 1,
    decreases count,
{
    if count > 0 {
        lemma_fills_bounded(orders, fills, count - 1);
        assert(fills[count - 1].source_index < orders.len());
        if count > 1 {
            assert(fills[count - 2].source_index < fills[count - 1].source_index);
        }
    }
}

/// Every fill is a multiple of the lot increment.
pub open spec fn fills_aligned(fills: Seq<AuctionOrderFill>, increment: int) -> bool {
    forall|k: int|
        0 <= k < fills.len() ==> (#[trigger] fills[k]).quantity_lots as int % increment == 0
}

impl CallAuctionBook {
    /// Identity, configuration and the number of buffer sets are unchanged.
    pub open spec fn same_frame(&self, other: &Self) -> bool {
        &&& self.instance_id == other.instance_id
        &&& self.definition == other.definition
        &&& self.limits == other.limits
        &&& self.grid == other.grid
        &&& self.instrument_band == other.instrument_band
        &&& self.uncross_pool.capacity == other.uncross_pool.capacity
        &&& self.uncross_pool.buffer_capacity == other.uncross_pool.buffer_capacity
    }

    /// Everything but scratch contents and leases is unchanged.
    pub open spec fn same_but_leases(&self, other: &Self) -> bool {
        &&& self.instance_id == other.instance_id
        &&& self.definition == other.definition
        &&& self.limits == other.limits
        &&& self.grid == other.grid
        &&& self.instrument_band == other.instrument_band
        &&& self.orders == other.orders
        &&& self.account_orders == other.account_orders
        &&& self.seen_order_ids == other.seen_order_ids
        &&& self.bids == other.bids
        &&& self.asks == other.asks
        &&& self.market_buys == other.market_buys
        &&& self.market_sells == other.market_sells
        &&& self.next_priority_sequence == other.next_priority_sequence
        &&& self.next_trade_id == other.next_trade_id
        &&& self.state_revision == other.state_revision
        &&& self.bid_level_scratch.reserved == other.bid_level_scratch.reserved
        &&& self.ask_level_scratch.reserved == other.ask_level_scratch.reserved
        &&& self.buy_order_scratch.reserved == other.buy_order_scratch.reserved
        &&& self.sell_order_scratch.reserved == other.sell_order_scratch.reserved
        &&& self.uncross_pool.capacity == other.uncross_pool.capacity
        &&& self.uncross_pool.buffer_capacity == other.uncross_pool.buffer_capacity
    }

    /// Well-formedness does not depend on the leases.
    proof fn lemma_leases(&self, other: &Self)
        requires
            other.wf(),
            self.same_but_leases(other),
            self.uncross_pool.wf(),
        ensures
            self.wf(),
            self.active() == other.active(),
    {
        assert forall|side: Side, constraint: AuctionOrderConstraint| queue_ok(
            self.orders@,
            #[trigger] self.queue_of(side, constraint),
            side,
            constraint,
        ) by {
            assert(self.queue_of(side, constraint) == other.queue_of(side, constraint));
        }
        assert forall|account: AccountId, side: Side| account_ok(
            self.orders@,
            #[trigger] self.account_side(account, side),
            account,
            side,
        ) by {
            assert(self.account_side(account, side) == other.account_side(account, side));
        }
        assert forall|id: OrderId| #[trigger] self.orders@.dom().contains(id) implies self.order_ok(
            id,
        ) by {
            assert(other.order_ok(id));
        }
    }

    /// Why an indicative result cannot be used with the current interest.
    pub open spec fn indicative_fault(&self, indicative: CallAuctionIndicative) -> Option<
        CallAuctionPlanError,
    > {
        if indicative.book_instance_id != self.instance_id {
            Some(CallAuctionPlanError::ForeignBook)
        } else if indicative.state_revision != self.state_revision {
            Some(
                CallAuctionPlanError::StaleRevision {
                    observed: indicative.state_revision,
                    current: self.state_revision,
                },
            )
        } else {
            None
        }
    }

    /// Why the allocator refuses a clearing of the current interest.
    pub open spec fn clearing_fault(
        &self,
        clearing: AuctionClearing,
        policy: AuctionAllocationPolicy,
    ) -> Option<AuctionAllocationError> {
        allocation_fault(
            side_orders(self.active(), Side::Buy),
            side_orders(self.active(), Side::Sell),
            self.grid,
            clearing,
            policy,
            self.definition.quantity.increment,
            AuctionAllocationLimits { max_orders_per_side: self.limits.active_orders },
        )
    }

    /// Fills of one side of the current interest.
    pub open spec fn side_fills(
        &self,
        side: Side,
        clearing: AuctionClearing,
        policy: AuctionAllocationPolicy,
    ) -> Seq<AuctionOrderFill> {
        policy_fills(
            side_orders(self.active(), side),
            side,
            clearing.price,
            clearing.executable_quantity as int,
            policy,
            self.definition.quantity.increment as int,
        )
    }

    /// Counterparty pairs of the current interest.
    pub open spec fn clearing_pairs(
        &self,
        clearing: AuctionClearing,
        policy: AuctionAllocationPolicy,
    ) -> Seq<AuctionPair> {
        fill_pairs(
            self.side_fills(Side::Buy, clearing, policy),
            self.side_fills(Side::Sell, clearing, policy),
        )
    }

    /// The fills of one side fit the current interest.
    pub open spec fn fills_fit(
        &self,
        side: Side,
        fills: Seq<AuctionOrderFill>,
        executable: int,
    ) -> bool {
        &&& fills_sound(side_orders(self.active(), side), fills)
        &&& fills_aligned(fills, self.definition.quantity.increment as int)
        &&& fill_lots(fills) == executable
    }

    /// Fills of an accepted clearing fit the current interest.
    proof fn lemma_fills_fit(
        &self,
        side: Side,
        list: Seq<AuctionOrder>,
        clearing: AuctionClearing,
        policy: AuctionAllocationPolicy,
    )
        requires
            self.wf(),
            clearing.wf(),
            canonical_side(self.active(), side, list),
            list == side_orders(self.active(), side),
            self.clearing_fault(clearing, policy) is None,
            list.len() <= usize::MAX,
            clearing.executable_quantity as int % self.definition.quantity.increment as int == 0,
        ensures
            self.fills_fit(
                side,
                self.side_fills(side, clearing, policy),
                clearing.executable_quantity as int,
            ),
            self.side_fills(side, clearing, policy).len() <= list.len(),
    {
        let increment = self.definition.quantity.increment as int;
        let fills = self.side_fills(side, clearing, policy);
        self.lemma_side_lots(side, list);
        law_fills_reconcile(
            list,
            side,
            clearing.price,
            clearing.executable_quantity as int,
            policy,
            increment,
        );
        law_fills_keep_quantum(
            list,
            side,
            clearing.price,
            clearing.executable_quantity as int,
            policy,
            increment,
        );
        assert(fills_aligned(fills, increment));
        lemma_fills_bounded(list, fills, fills.len() as int);
    }

    /// Fills of an accepted clearing go to orders that its price satisfies.
    pub proof fn lemma_fills_eligible(
        &self,
        side: Side,
        clearing: AuctionClearing,
        policy: AuctionAllocationPolicy,
    )
        requires
            self.wf(),
            clearing.wf(),
            self.clearing_fault(clearing, policy) is None,
        ensures
            forall|k: int|
                0 <= k < self.side_fills(side, clearing, policy).len() ==> eligible(
                    self.active()[(#[trigger] self.side_fills(
                        side,
                        clearing,
                        policy,
                    )[k]).order_id].auction_order(),
                    side,
                    clearing.price,
                ),
    {
        let list = side_orders(self.active(), side);
        let increment = self.definition.quantity.increment as int;
        self.lemma_sides_listed();
        self.lemma_executable_aligned(clearing, policy);
        self.lemma_side_lots(side, list);
        lemma_side_bounded(self, side, list);
        law_fills_reconcile(
            list,
            side,
            clearing.price,
            clearing.executable_quantity as int,
            policy,
            increment,
        );
        let fills = self.side_fills(side, clearing, policy);
        assert forall|k: int| 0 <= k < fills.len() implies eligible(
            self.active()[(#[trigger] fills[k]).order_id].auction_order(),
            side,
            clearing.price,
        ) by {
            let source = fills[k].source_index as int;
            assert(list[source].order_id == fills[k].order_id);
        }
    }

    /// Listed orders hold positive multiples of the lot increment.
    pub(crate) proof fn lemma_side_lots(&self, side: Side, list: Seq<AuctionOrder>)
        requires
            self.wf(),
            canonical_side(self.active(), side, list),
        ensures
            forall|i: int| 0 <= i < list.len() ==> (#[trigger] list[i]).quantity.wf(),
            quanta_aligned(list, self.definition.quantity.increment as int),
    {
        assert forall|i: int| 0 <= i < list.len() implies (#[trigger] list[i]).quantity.wf()
            && list[i].quantity.lots as int % self.definition.quantity.increment as int == 0 by {
            let id = list[i].order_id;
            assert(self.active().dom().contains(id));
            assert(self.order_ok(id));
        }
    }

    /// An accepted clearing executes a multiple of the lot increment.
    proof fn lemma_executable_aligned(
        &self,
        clearing: AuctionClearing,
        policy: AuctionAllocationPolicy,
    )
        requires
            self.wf(),
            clearing.wf(),
            canonical_side(self.active(), Side::Buy, side_orders(self.active(), Side::Buy)),
            canonical_side(self.active(), Side::Sell, side_orders(self.active(), Side::Sell)),
            self.clearing_fault(clearing, policy) is None,
        ensures
            clearing.executable_quantity as int % self.definition.quantity.increment as int == 0,
            clearing.executable_quantity > 0,
    {
        let increment = self.definition.quantity.increment as int;
        let buys = side_orders(self.active(), Side::Buy);
        let sells = side_orders(self.active(), Side::Sell);
        self.lemma_side_lots(Side::Buy, buys);
        self.lemma_side_lots(Side::Sell, sells);
        lemma_eligible_aligned(buys, Side::Buy, clearing.price, increment);
        lemma_eligible_aligned(sells, Side::Sell, clearing.price, increment);
    }

    /// Allocates an indicative clearing over the current canonical interest
    /// without changing the collection.
    ///
    /// Whether storage for the fills can be reserved depends on the allocator.
    pub fn allocation_plan(
        &mut self,
        indicative: CallAuctionIndicative,
        policy: AuctionAllocationPolicy,
    ) -> (r: Result<AuctionAllocationPlan, CallAuctionPlanError>)
        requires
            old(self).wf(),
            indicative.clearing.wf(),
        ensures
            final(self).wf(),
            final(self).same_but_scratch(old(self)),
            final(self).active() == old(self).active(),
            match r {
                Ok(plan) => {
                    &&& old(self).indicative_fault(indicative) is None
                    &&& old(self).clearing_fault(indicative.clearing, policy) is None
                    &&& plan.clearing == indicative.clearing
                    &&& plan.buy_fills@ == old(self).side_fills(
                        Side::Buy,
                        indicative.clearing,
                        policy,
                    )
                    &&& plan.sell_fills@ == old(self).side_fills(
                        Side::Sell,
                        indicative.clearing,
                        policy,
                    )
                },
                Err(error) => if old(self).indicative_fault(indicative) is Some {
                    old(self).indicative_fault(indicative) == Some(error)
                } else if old(self).clearing_fault(indicative.clearing, policy) is Some {
                    error == CallAuctionPlanError::Allocation(
                        old(self).clearing_fault(indicative.clearing, policy)->0,
                    )
                } else {
                    &&& error is Allocation
                    &&& error->Allocation_0 is CapacityReservationFailed
                },
            },
    {
        if indicative.book_instance_id != self.instance_id {
            return Err(CallAuctionPlanError::ForeignBook);
        }
        if indicative.state_revision != self.state_revision {
            return Err(
                CallAuctionPlanError::StaleRevision {
                    observed: indicative.state_revision,
                    current: self.state_revision,
                },
            );
        }
        self.rebuild_order_scratch();
        let limits = AuctionAllocationLimits { max_orders_per_side: self.limits.active_orders };
        match allocate_clearing_with_policy(
            self.buy_order_scratch.as_slice(),
            self.sell_order_scratch.as_slice(),
            self.grid,
            indicative.clearing,
            policy,
            self.definition.quantity.increment,
            limits,
        ) {
            Ok(plan) => Ok(plan),
            Err(error) => Err(CallAuctionPlanError::Allocation(error)),
        }
    }
}

impl CallAuctionBook {
    /// Cancels the remainders of one side that the policy drops.
    fn append_side_cancellations(
        &self,
        list: &[AuctionOrder],
        side: Side,
        fills: &[AuctionOrderFill],
        policy: CallAuctionRemainderPolicy,
        cancellations: &mut Vec<CallAuctionCancellation>,
    )
        requires
            self.wf(),
            canonical_side(self.active(), side, list@),
            fills_sound(list@, fills@),
        ensures
            final(cancellations)@ == old(cancellations)@ + side_cancellations(
                self.active(),
                list@,
                fills@,
                policy,
                list@.len(),
            ),
    {
        let ghost active = self.active();
        let ghost start = cancellations@;
        let mut index: usize = 0;
        let mut fill_index: usize = 0;
        proof {
            assert(start + Seq::<CallAuctionCancellation>::empty() =~= start);
        }
        while index < list.len()
            invariant
                self.wf(),
                active == self.active(),
                canonical_side(active, side, list@),
                fills_sound(list@, fills@),
                index <= list@.len(),
                fill_index <= fills@.len(),
                forall|k: int| 0 <= k < fill_index ==> (#[trigger] fills@[k]).source_index < index,
                forall|k: int|
                    fill_index <= k < fills@.len() ==> (#[trigger] fills@[k]).source_index >= index,
                cancellations@ == start + side_cancellations(
                    active,
                    list@,
                    fills@,
                    policy,
                    index as nat,
                ),
            decreases list@.len() - index,
        {
            let order = list[index];
            let ghost first = fill_index as int;
            proof {
                lemma_side_distinct(active, side, list@);
                assert(active.dom().contains(order.order_id));
                self.orders.lemma_view();
            }
            let mut executed: u64 = 0;
            if fill_index < fills.len() && fills[fill_index].source_index == index {
                executed = fills[fill_index].quantity_lots;
                proof {
                    lemma_executed_fill(active, side, list@, fills@, fill_index as int);
                    assert forall|k: int| fill_index < k < fills@.len() implies (
                    #[trigger] fills@[k]).source_index > index by {
                        assert(fills@[fill_index as int].source_index < fills@[k].source_index);
                    }
                }
                fill_index += 1;
            } else {
                proof {
                    assert forall|k: int| 0 <= k < fills@.len() implies (
                    #[trigger] fills@[k]).source_index != index by {
                        if k >= first && first < fills@.len() {
                            if k > first {
                                assert(fills@[first].source_index < fills@[k].source_index);
                            }
                        }
                    }
                    assert forall|k: int| 0 <= k < fills@.len() implies ((
                    #[trigger] fills@[k]).order_id == order.order_id <==> k == -1) by {
                        assert(list@[fills@[k].source_index as int].order_id == fills@[k].order_id);
                    }
                    lemma_executed_once(fills@, order.order_id, -1);
                }
            }
            assert(executed == executed_lots(fills@, order.order_id));
            if executed < order.quantity.lots && policy.cancels(order.constraint) {
                let resting = self.orders.fetch(order.order_id);
                cancellations.push(
                    CallAuctionCancellation {
                        order_id: order.order_id,
                        account_id: resting.account_id,
                        side: resting.side,
                        constraint: order.constraint,
                        quantity: Quantity { lots: order.quantity.lots - executed },
                        executed_quantity_lots: executed,
                    },
                );
            }
            index += 1;
        }
    }

    /// Both canonical lists of the collection, as held in scratch storage.
    pub open spec fn scratch_current(&self) -> bool {
        &&& self.buy_order_scratch@ == side_orders(self.active(), Side::Buy)
        &&& self.sell_order_scratch@ == side_orders(self.active(), Side::Sell)
        &&& canonical_side(self.active(), Side::Buy, self.buy_order_scratch@)
        &&& canonical_side(self.active(), Side::Sell, self.sell_order_scratch@)
    }

    /// Cancels the remainders of both sides that the policy drops.
    fn prepare_remainder_cancellations(
        &self,
        plan: &AuctionAllocationPlan,
        policy: CallAuctionRemainderPolicy,
        cancellations: &mut Vec<CallAuctionCancellation>,
    )
        requires
            self.wf(),
            self.scratch_current(),
            fills_sound(self.buy_order_scratch@, plan.buy_fills@),
            fills_sound(self.sell_order_scratch@, plan.sell_fills@),
        ensures
            final(cancellations)@ == plan_cancellations(self.active(), *plan, policy),
    {
        cancellations.clear();
        self.append_side_cancellations(
            self.buy_order_scratch.as_slice(),
            Side::Buy,
            plan.buy_fills.as_slice(),
            policy,
            cancellations,
        );
        self.append_side_cancellations(
            self.sell_order_scratch.as_slice(),
            Side::Sell,
            plan.sell_fills.as_slice(),
            policy,
            cancellations,
        );
        proof {
            assert(cancellations@ =~= plan_cancellations(self.active(), *plan, policy));
        }
    }

    /// Why pairing cannot be prepared.
    pub open spec fn pairing_fault(
        &self,
        pairs: Seq<AuctionPair>,
        self_trade: CallAuctionSelfTradePolicy,
    ) -> Option<CallAuctionPrepareError> {
        if self.next_trade_id + pairs.len() > u64::MAX {
            Some(CallAuctionPrepareError::TradeIdentifierExhausted)
        } else if self_trade == CallAuctionSelfTradePolicy::Abort {
            first_self_trade(self.active(), pairs, 0)
        } else {
            None
        }
    }

    /// Whether both orders of every pair are active.
    pub open spec fn pairs_active(&self, pairs: Seq<AuctionPair>) -> bool {
        forall|k: int|
            0 <= k < pairs.len() ==> self.active().dom().contains(
                (#[trigger] pairs[k]).buy_order_id,
            ) && self.active().dom().contains(pairs[k].sell_order_id)
    }

    /// Turns the fills of a plan into numbered trades.
    fn prepare_trade_pairs(
        &self,
        plan: &AuctionAllocationPlan,
        self_trade: CallAuctionSelfTradePolicy,
        trades: &mut Vec<CallAuctionTrade>,
    ) -> (r: Result<u64, CallAuctionPrepareError>)
        requires
            self.wf(),
            self.pairs_active(fill_pairs(plan.buy_fills@, plan.sell_fills@)),
        ensures
            ({
                let pairs = fill_pairs(plan.buy_fills@, plan.sell_fills@);
                match r {
                    Ok(next_trade_id) => {
                        &&& self.pairing_fault(pairs, self_trade) is None
                        &&& next_trade_id == self.next_trade_id + pairs.len()
                        &&& final(trades)@ == pair_trades(
                            self.active(),
                            self.definition,
                            self.next_trade_id as int,
                            plan.clearing.price,
                            pairs,
                        )
                    },
                    Err(error) => self.pairing_fault(pairs, self_trade) == Some(error),
                }
            }),
    {
        trades.clear();
        let pairs = collect_pairs(plan.buy_fills.as_slice(), plan.sell_fills.as_slice());
        let next_trade_id: u64 = match self.next_trade_id.checked_add(pairs.len() as u64) {
            Some(value) => value,
            None => {
                return Err(CallAuctionPrepareError::TradeIdentifierExhausted);
            },
        };
        let aborts = match self_trade {
            CallAuctionSelfTradePolicy::Permit => false,
            CallAuctionSelfTradePolicy::Abort => true,
        };
        let mut index: usize = 0;
        while index < pairs.len()
            invariant
                self.wf(),
                pairs@ == fill_pairs(plan.buy_fills@, plan.sell_fills@),
                self.pairs_active(pairs@),
                index <= pairs@.len(),
                self.next_trade_id + pairs@.len() == next_trade_id,
                aborts == (self_trade == CallAuctionSelfTradePolicy::Abort),
                aborts ==> first_self_trade(self.active(), pairs@, 0) == first_self_trade(
                    self.active(),
                    pairs@,
                    index as int,
                ),
                trades@ == pair_trades(
                    self.active(),
                    self.definition,
                    self.next_trade_id as int,
                    plan.clearing.price,
                    pairs@.take(index as int),
                ),
            decreases pairs@.len() - index,
        {
            let pair = pairs[index];
            proof {
                self.orders.lemma_view();
                assert(self.pairs_active(pairs@));
                assert(self.active().dom().contains(pairs@[index as int].buy_order_id));
            }
            let buy = self.orders.fetch(pair.buy_order_id);
            let sell = self.orders.fetch(pair.sell_order_id);
            if aborts && buy.account_id == sell.account_id {
                return Err(
                    CallAuctionPrepareError::SelfTradeWouldOccur {
                        account_id: buy.account_id,
                        buy_order_id: pair.buy_order_id,
                        sell_order_id: pair.sell_order_id,
                        quantity: Quantity { lots: pair.lots },
                    },
                );
            }
            trades.push(
                CallAuctionTrade {
                    trade_id: TradeId { value: self.next_trade_id + index as u64 },
                    instrument_id: self.definition.instrument_id,
                    instrument_version: self.definition.version,
                    buy_order_id: pair.buy_order_id,
                    buy_account_id: buy.account_id,
                    sell_order_id: pair.sell_order_id,
                    sell_account_id: sell.account_id,
                    price: plan.clearing.price,
                    quantity: Quantity { lots: pair.lots },
                },
            );
            index += 1;
            proof {
                assert(trades@ =~= pair_trades(
                    self.active(),
                    self.definition,
                    self.next_trade_id as int,
                    plan.clearing.price,
                    pairs@.take(index as int),
                ));
            }
        }
        proof {
            assert(pairs@.take(index as int) =~= pairs@);
        }
        Ok(next_trade_id)
    }

    /// The first reason why an uncross cannot be prepared.
    pub open spec fn prepare_fault(
        &self,
        indicative: CallAuctionIndicative,
        policy: CallAuctionUncrossPolicy,
    ) -> Option<CallAuctionPrepareError> {
        if self.state_revision == u64::MAX {
            Some(CallAuctionPrepareError::StateRevisionExhausted)
        } else if self.indicative_fault(indicative) is Some {
            Some(CallAuctionPrepareError::Plan(self.indicative_fault(indicative)->0))
        } else if self.uncross_pool.available@.len() == 0 {
            Some(
                CallAuctionPrepareError::PreparationCapacityExhausted {
                    maximum: self.limits.prepared_uncrosses,
                },
            )
        } else if self.clearing_fault(indicative.clearing, policy.allocation) is Some {
            Some(
                CallAuctionPrepareError::Plan(
                    CallAuctionPlanError::Allocation(
                        self.clearing_fault(indicative.clearing, policy.allocation)->0,
                    ),
                ),
            )
        } else {
            self.pairing_fault(
                self.clearing_pairs(indicative.clearing, policy.allocation),
                policy.self_trade,
            )
        }
    }

    /// The plan of a preparation fits the current interest and its trades and
    /// cancellations are the ones that follow from it.
    pub open spec fn prepared_valid(&self, prepared: PreparedCallAuctionUncross) -> bool {
        let plan = prepared.buffers.plan;
        let executable = plan.clearing.executable_quantity as int;
        let pairs = fill_pairs(plan.buy_fills@, plan.sell_fills@);
        &&& prepared.next_state_revision == self.state_revision + 1
        &&& self.fills_fit(Side::Buy, plan.buy_fills@, executable)
        &&& self.fills_fit(Side::Sell, plan.sell_fills@, executable)
        &&& prepared.next_trade_id == self.next_trade_id + pairs.len()
        &&& prepared.buffers.trades@ == pair_trades(
            self.active(),
            self.definition,
            self.next_trade_id as int,
            plan.clearing.price,
            pairs,
        )
        &&& prepared.buffers.cancellations@ == plan_cancellations(
            self.active(),
            plan,
            prepared.policy.remainder,
        )
    }

    /// Fills that fit name active orders only.
    proof fn lemma_pairs_active(&self, plan: AuctionAllocationPlan, executable: int)
        requires
            self.wf(),
            canonical_side(self.active(), Side::Buy, side_orders(self.active(), Side::Buy)),
            canonical_side(self.active(), Side::Sell, side_orders(self.active(), Side::Sell)),
            self.fills_fit(Side::Buy, plan.buy_fills@, executable),
            self.fills_fit(Side::Sell, plan.sell_fills@, executable),
        ensures
            self.pairs_active(fill_pairs(plan.buy_fills@, plan.sell_fills@)),
            pair_lots(fill_pairs(plan.buy_fills@, plan.sell_fills@)) == executable,
    {
        let buys = plan.buy_fills@;
        let sells = plan.sell_fills@;
        law_pairs_reconcile(buys, sells);
        let pairs = fill_pairs(buys, sells);
        assert forall|k: int| 0 <= k < pairs.len() implies self.active().dom().contains(
            (#[trigger] pairs[k]).buy_order_id,
        ) && self.active().dom().contains(pairs[k].sell_order_id) by {
            assert(fills_order(buys, pairs[k].buy_order_id));
            let i = choose|i: int|
                0 <= i < buys.len() && (#[trigger] buys[i]).order_id == pairs[k].buy_order_id;
            let j = choose|j: int|
                0 <= j < sells.len() && (#[trigger] sells[j]).order_id == pairs[k].sell_order_id;
            lemma_executed_fill(
                self.active(),
                Side::Buy,
                side_orders(self.active(), Side::Buy),
                buys,
                i,
            );
            lemma_executed_fill(
                self.active(),
                Side::Sell,
                side_orders(self.active(), Side::Sell),
                sells,
                j,
            );
        }
    }

    /// A valid preparation trades exactly its executable quantity.
    pub proof fn lemma_prepared_pairs(&self, prepared: PreparedCallAuctionUncross)
        requires
            self.wf(),
            self.prepared_valid(prepared),
            canonical_side(self.active(), Side::Buy, side_orders(self.active(), Side::Buy)),
            canonical_side(self.active(), Side::Sell, side_orders(self.active(), Side::Sell)),
        ensures
            ({
                let plan = prepared.buffers.plan;
                pair_lots(fill_pairs(plan.buy_fills@, plan.sell_fills@))
                    == plan.clearing.executable_quantity
            }),
    {
        let plan = prepared.buffers.plan;
        self.lemma_pairs_active(plan, plan.clearing.executable_quantity as int);
    }

    /// Takes a leased buffer set back.
    fn return_buffers(&mut self, buffers: CallAuctionUncrossBuffers)
        requires
            old(self).wf(),
            old(self).uncross_pool.available@.len() < old(self).uncross_pool.capacity,
        ensures
            final(self).wf(),
            final(self).same_but_leases(old(self)),
            final(self).active() == old(self).active(),
            final(self).uncross_pool.available@.len() == old(self).uncross_pool.available@.len()
                + 1,
    {
        let ghost entry = *self;
        self.uncross_pool.release(buffers);
        proof {
            self.lemma_leases(&entry);
        }
    }

    /// Prepares allocation, pairing and remainder cancellation of one uncross.
    ///
    /// The collection stays as it is. Success leases one buffer set; a refusal
    /// leaves every set in the pool.
    pub fn prepare_uncross(
        &mut self,
        indicative: CallAuctionIndicative,
        policy: CallAuctionUncrossPolicy,
    ) -> (r: Result<PreparedCallAuctionUncross, CallAuctionPrepareError>)
        requires
            old(self).wf(),
            indicative.clearing.wf(),
        ensures
            final(self).wf(),
            final(self).same_but_leases(old(self)),
            final(self).active() == old(self).active(),
            match r {
                Ok(prepared) => {
                    &&& old(self).prepare_fault(indicative, policy) is None
                    &&& final(self).uncross_pool.available@.len() == old(
                        self,
                    ).uncross_pool.available@.len() - 1
                    &&& prepared.book_instance_id == old(self).instance_id
                    &&& prepared.state_revision == old(self).state_revision
                    &&& prepared.policy == policy
                    &&& prepared.buffers.plan.clearing == indicative.clearing
                    &&& prepared.buffers.plan.buy_fills@ == old(self).side_fills(
                        Side::Buy,
                        indicative.clearing,
                        policy.allocation,
                    )
                    &&& prepared.buffers.plan.sell_fills@ == old(self).side_fills(
                        Side::Sell,
                        indicative.clearing,
                        policy.allocation,
                    )
                    &&& old(self).prepared_valid(prepared)
                    &&& final(self).prepared_valid(prepared)
                },
                Err(error) => {
                    &&& old(self).prepare_fault(indicative, policy) == Some(error)
                    &&& final(self).same_but_scratch(old(self))
                },
            },
    {
        let ghost entry = *self;
        let next_state_revision: u64 = match self.state_revision.checked_add(1) {
            Some(value) => value,
            None => {
                return Err(CallAuctionPrepareError::StateRevisionExhausted);
            },
        };
        if indicative.book_instance_id != self.instance_id {
            return Err(CallAuctionPrepareError::Plan(CallAuctionPlanError::ForeignBook));
        }
        if indicative.state_revision != self.state_revision {
            return Err(
                CallAuctionPrepareError::Plan(
                    CallAuctionPlanError::StaleRevision {
                        observed: indicative.state_revision,
                        current: self.state_revision,
                    },
                ),
            );
        }
        let mut buffers = match self.uncross_pool.acquire() {
            Some(buffers) => buffers,
            None => {
                proof {
                    self.lemma_leases(&entry);
                }
                return Err(
                    CallAuctionPrepareError::PreparationCapacityExhausted {
                        maximum: self.limits.prepared_uncrosses,
                    },
                );
            },
        };
        proof {
            self.lemma_leases(&entry);
        }
        self.rebuild_order_scratch();
        let limits = AuctionAllocationLimits { max_orders_per_side: self.limits.active_orders };
        let increment: u64 = self.definition.quantity.increment;
        let outcome = allocate_clearing_reusing(
            self.buy_order_scratch.as_slice(),
            self.sell_order_scratch.as_slice(),
            self.grid,
            indicative.clearing,
            AuctionAllocationMethod::new(policy.allocation, increment),
            limits,
            self.uncross_pool.buffer_capacity,
            &mut buffers.plan,
        );
        proof {
            if entry.clearing_fault(indicative.clearing, policy.allocation) is None {
                self.lemma_executable_aligned(indicative.clearing, policy.allocation);
                self.lemma_fills_fit(
                    Side::Buy,
                    self.buy_order_scratch@,
                    indicative.clearing,
                    policy.allocation,
                );
                self.lemma_fills_fit(
                    Side::Sell,
                    self.sell_order_scratch@,
                    indicative.clearing,
                    policy.allocation,
                );
                lemma_side_bounded(self, Side::Buy, self.buy_order_scratch@);
                lemma_side_bounded(self, Side::Sell, self.sell_order_scratch@);
            }
        }
        match outcome {
            Ok(_) => {},
            Err(error) => {
                self.return_buffers(buffers);
                return Err(CallAuctionPrepareError::Plan(CallAuctionPlanError::Allocation(error)));
            },
        }
        proof {
            self.lemma_pairs_active(
                buffers.plan,
                indicative.clearing.executable_quantity as int,
            );
        }
        let next_trade_id: u64 = match self.prepare_trade_pairs(
            &buffers.plan,
            policy.self_trade,
            &mut buffers.trades,
        ) {
            Ok(value) => value,
            Err(error) => {
                self.return_buffers(buffers);
                return Err(error);
            },
        };
        self.prepare_remainder_cancellations(
            &buffers.plan,
            policy.remainder,
            &mut buffers.cancellations,
        );
        Ok(
            PreparedCallAuctionUncross {
                book_instance_id: self.instance_id,
                state_revision: self.state_revision,
                next_state_revision,
                next_trade_id,
                policy,
                buffers,
            },
        )
    }
}

/// Compares two trade lists.
fn same_trades(left: &[CallAuctionTrade], right: &[CallAuctionTrade]) -> (r: bool)
    ensures
        r == (left@ == right@),
{
    if left.len() != right.len() {
        return false;
    }
    let mut index: usize = 0;
    while index < left.len()
        invariant
            left@.len() == right@.len(),
            index <= left@.len(),
            forall|k: int| 0 <= k < index ==> left@[k] == right@[k],
        decreases left@.len() - index,
    {
        if left[index] != right[index] {
            return false;
        }
        index += 1;
    }
    assert(left@ =~= right@);
    true
}

/// Compares two cancellation lists.
fn same_cancellations(left: &[CallAuctionCancellation], right: &[CallAuctionCancellation]) -> (r:
    bool)
    ensures
        r == (left@ == right@),
{
    if left.len() != right.len() {
        return false;
    }
    let mut index: usize = 0;
    while index < left.len()
        invariant
            left@.len() == right@.len(),
            index <= left@.len(),
            forall|k: int| 0 <= k < index ==> left@[k] == right@[k],
        decreases left@.len() - index,
    {
        if left[index] != right[index] {
            return false;
        }
        index += 1;
    }
    assert(left@ =~= right@);
    true
}

/// Checks fills against the canonical orders of their side.
fn validate_prepared_fills(
    list: &[AuctionOrder],
    fills: &[AuctionOrderFill],
    increment: u64,
    executable: u128,
) -> (r: bool)
    requires
        increment > 0,
    ensures
        r == (fills_sound(list@, fills@) && fills_aligned(fills@, increment as int) && fill_lots(
            fills@,
        ) == executable),
{
    let mut index: usize = 0;
    let mut total: u128 = 0;
    while index < fills.len()
        invariant
            increment > 0,
            index <= fills@.len(),
            fills_sound(list@, fills@.take(index as int)),
            fills_aligned(fills@.take(index as int), increment as int),
            total == fill_lots(fills@.take(index as int)),
        decreases fills@.len() - index,
    {
        let fill = fills[index];
        proof {
            assert(fills@.take(index + 1).drop_last() =~= fills@.take(index as int));
            assert(fills@.take(index + 1).last() == fill);
            lemma_fill_lots_prefix(fills@, index + 1);
        }
        if fill.source_index >= list.len() {
            return false;
        }
        let order = list[fill.source_index];
        if fill.order_id != order.order_id || fill.quantity_lots == 0 || fill.quantity_lots
            > order.quantity.lots {
            return false;
        }
        if fill.quantity_lots % increment != 0 {
            return false;
        }
        if index > 0 && fills[index - 1].source_index >= fill.source_index {
            return false;
        }
        total = match total.checked_add(fill.quantity_lots as u128) {
            Some(value) => value,
            None => {
                return false;
            },
        };
        proof {
            let before = fills@.take(index as int);
            let after = fills@.take(index + 1);
            assert forall|k: int| 0 <= k < after.len() implies {
                let fill = #[trigger] after[k];
                &&& fill.source_index < list@.len()
                &&& fill.order_id == list@[fill.source_index as int].order_id
                &&& 0 < fill.quantity_lots <= list@[fill.source_index as int].quantity.lots
                &&& fill.quantity_lots as int % increment as int == 0
            } by {
                if k < index {
                    assert(after[k] == before[k]);
                }
            }
            assert forall|j: int, k: int| 0 <= j < k < after.len() implies (
            #[trigger] after[j]).source_index < (#[trigger] after[k]).source_index by {
                assert(after[j] == before[j]);
                if k < index {
                    assert(after[k] == before[k]);
                } else if j < index - 1 {
                    assert(before[j].source_index < before[index - 1].source_index);
                }
            }
        }
        index += 1;
    }
    proof {
        assert(fills@.take(index as int) =~= fills@);
    }
    total == executable
}

proof fn lemma_fill_lots_prefix(fills: Seq<AuctionOrderFill>, count: int)
    requires
        0 <= count <= fills.len(),
    ensures
        0 <= fill_lots(fills.take(count)) <= fill_lots(fills),
{
    lemma_tail_lots(fills, count);
    lemma_tail_lots(fills.take(count), 0);
    assert(fills.take(count).take(0) =~= Seq::<AuctionOrderFill>::empty());
}

/// Active orders after a list of fills.
pub open spec fn filled(active: ActiveOrders, fills: Seq<AuctionOrderFill>) -> ActiveOrders {
    Map::new(
        |id: OrderId|
            active.dom().contains(id) && executed_lots(fills, id) < active[id].quantity.lots,
        |id: OrderId|
            CallAuctionOrderSnapshot {
                quantity: Quantity {
                    lots: (active[id].quantity.lots - executed_lots(fills, id)) as u64,
                },
                ..active[id]
            },
    )
}

/// Whether a cancellation list names an order.
pub open spec fn cancels_order(
    cancellations: Seq<CallAuctionCancellation>,
    id: OrderId,
) -> bool {
    exists|k: int| 0 <= k < cancellations.len() && (#[trigger] cancellations[k]).order_id == id
}

/// Which orders of a side are named, each once.
proof fn lemma_side_cancellations(
    active: ActiveOrders,
    side: Side,
    list: Seq<AuctionOrder>,
    fills: Seq<AuctionOrderFill>,
    policy: CallAuctionRemainderPolicy,
    count: nat,
)
    requires
        canonical_side(active, side, list),
        count <= list.len(),
    ensures
        ({
            let named = side_cancellations(active, list, fills, policy, count);
            &&& forall|id: OrderId| #[trigger]
                cancels_order(named, id) <==> exists|i: int|
                    0 <= i < count && (#[trigger] list[i]).order_id == id && executed_lots(
                        fills,
                        id,
                    ) < list[i].quantity.lots && policy.drops(list[i].constraint)
            &&& forall|j: int, k: int|
                0 <= j < k < named.len() ==> (#[trigger] named[j]).order_id != (
                #[trigger] named[k]).order_id
        }),
    decreases count,
{
    let named = side_cancellations(active, list, fills, policy, count);
    if count > 0 {
        let before = (count - 1) as nat;
        lemma_side_cancellations(active, side, list, fills, policy, before);
        lemma_side_distinct(active, side, list);
        let rest = side_cancellations(active, list, fills, policy, before);
        let order = list[count - 1];
        let dropped = executed_lots(fills, order.order_id) < order.quantity.lots && policy.drops(
            order.constraint,
        );
        assert(!cancels_order(rest, order.order_id));
        assert forall|id: OrderId| #[trigger] cancels_order(named, id) <==> exists|i: int|
            0 <= i < count && (#[trigger] list[i]).order_id == id && executed_lots(fills, id)
                < list[i].quantity.lots && policy.drops(list[i].constraint) by {
            if cancels_order(named, id) {
                let k = choose|k: int| 0 <= k < named.len() && (#[trigger] named[k]).order_id == id;
                if k < rest.len() {
                    assert(rest[k].order_id == id);
                    assert(cancels_order(rest, id));
                } else {
                    assert(list[count - 1].order_id == id);
                }
            }
            if exists|i: int|
                0 <= i < count && (#[trigger] list[i]).order_id == id && executed_lots(fills, id)
                    < list[i].quantity.lots && policy.drops(list[i].constraint) {
                let i = choose|i: int|
                    0 <= i < count && (#[trigger] list[i]).order_id == id && executed_lots(fills, id)
                        < list[i].quantity.lots && policy.drops(list[i].constraint);
                if i < before {
                    assert(cancels_order(rest, id));
                    let k = choose|k: int|
                        0 <= k < rest.len() && (#[trigger] rest[k]).order_id == id;
                    assert(named[k].order_id == id);
                } else {
                    assert(named[rest.len() as int].order_id == id);
                }
            }
        }
        assert forall|j: int, k: int| 0 <= j < k < named.len() implies (
        #[trigger] named[j]).order_id != (#[trigger] named[k]).order_id by {
            assert(named[j] == rest[j]);
            if k < rest.len() {
                assert(named[k] == rest[k]);
            } else if rest[j].order_id == order.order_id {
                assert(cancels_order(rest, order.order_id));
            }
        }
    }
}

/// Which orders a plan cancels, each once.
pub proof fn lemma_plan_cancellations(
    active: ActiveOrders,
    plan: AuctionAllocationPlan,
    policy: CallAuctionRemainderPolicy,
)
    requires
        canonical_side(active, Side::Buy, side_orders(active, Side::Buy)),
        canonical_side(active, Side::Sell, side_orders(active, Side::Sell)),
        fills_sound(side_orders(active, Side::Buy), plan.buy_fills@),
        fills_sound(side_orders(active, Side::Sell), plan.sell_fills@),
    ensures
        ({
            let named = plan_cancellations(active, plan, policy);
            &&& forall|id: OrderId| #[trigger]
                cancels_order(named, id) <==> active.dom().contains(id) && plan_executed(plan, id)
                    < active[id].quantity.lots && policy.drops(active[id].constraint)
            &&& forall|j: int, k: int|
                0 <= j < k < named.len() ==> (#[trigger] named[j]).order_id != (
                #[trigger] named[k]).order_id
        }),
{
    let buys = side_orders(active, Side::Buy);
    let sells = side_orders(active, Side::Sell);
    let buy_named = side_cancellations(active, buys, plan.buy_fills@, policy, buys.len());
    let sell_named = side_cancellations(active, sells, plan.sell_fills@, policy, sells.len());
    let named = plan_cancellations(active, plan, policy);
    lemma_side_cancellations(active, Side::Buy, buys, plan.buy_fills@, policy, buys.len());
    lemma_side_cancellations(active, Side::Sell, sells, plan.sell_fills@, policy, sells.len());
    assert(named == buy_named + sell_named);
    assert forall|id: OrderId| cancels_order(buy_named, id) implies active.dom().contains(id)
        && active[id].side == Side::Buy by {}
    assert forall|id: OrderId| cancels_order(sell_named, id) implies active.dom().contains(id)
        && active[id].side == Side::Sell by {}
    assert forall|id: OrderId| #[trigger] cancels_order(named, id) <==> active.dom().contains(id)
        && plan_executed(plan, id) < active[id].quantity.lots && policy.drops(
        active[id].constraint,
    ) by {
        lemma_executed_listed(active, Side::Buy, buys, plan.buy_fills@, id);
        lemma_executed_listed(active, Side::Sell, sells, plan.sell_fills@, id);
        if cancels_order(named, id) {
            let k = choose|k: int| 0 <= k < named.len() && (#[trigger] named[k]).order_id == id;
            if k < buy_named.len() {
                assert(buy_named[k].order_id == id);
                assert(cancels_order(buy_named, id));
            } else {
                assert(sell_named[k - buy_named.len()].order_id == id);
                assert(cancels_order(sell_named, id));
            }
        }
        if active.dom().contains(id) && plan_executed(plan, id) < active[id].quantity.lots
            && policy.drops(active[id].constraint) {
            if active[id].side == Side::Buy {
                let i = choose|i: int| 0 <= i < buys.len() && (#[trigger] buys[i]).order_id == id;
                assert(buys[i] == active[id].auction_order());
                assert(cancels_order(buy_named, id));
                let k = choose|k: int|
                    0 <= k < buy_named.len() && (#[trigger] buy_named[k]).order_id == id;
                assert(named[k].order_id == id);
            } else {
                let i = choose|i: int| 0 <= i < sells.len() && (#[trigger] sells[i]).order_id == id;
                assert(sells[i] == active[id].auction_order());
                assert(cancels_order(sell_named, id));
                let k = choose|k: int|
                    0 <= k < sell_named.len() && (#[trigger] sell_named[k]).order_id == id;
                assert(named[k + buy_named.len()].order_id == id);
            }
        }
    }
    assert forall|j: int, k: int| 0 <= j < k < named.len() implies (#[trigger] named[j]).order_id
        != (#[trigger] named[k]).order_id by {
        if k < buy_named.len() {
            assert(named[j] == buy_named[j] && named[k] == buy_named[k]);
        } else if j >= buy_named.len() {
            assert(named[j] == sell_named[j - buy_named.len()]);
            assert(named[k] == sell_named[k - buy_named.len()]);
        } else {
            assert(named[j] == buy_named[j]);
            assert(named[k] == sell_named[k - buy_named.len()]);
            assert(cancels_order(buy_named, named[j].order_id));
            assert(cancels_order(sell_named, named[k].order_id));
        }
    }
}

impl CallAuctionBook {
    /// Two books differ in order state only.
    pub open spec fn same_but_orders(&self, other: &Self) -> bool {
        &&& self.same_shell(other)
        &&& self.seen_order_ids == other.seen_order_ids
        &&& self.next_priority_sequence == other.next_priority_sequence
        &&& self.next_trade_id == other.next_trade_id
        &&& self.state_revision == other.state_revision
    }

    /// Whether every fill can be applied to the active orders, each order once.
    spec fn fills_apply(&self, fills: Seq<AuctionOrderFill>) -> bool {
        &&& forall|k: int|
            0 <= k < fills.len() ==> {
                let fill = #[trigger] fills[k];
                &&& self.active().dom().contains(fill.order_id)
                &&& 0 < fill.quantity_lots <= self.active()[fill.order_id].quantity.lots
            }
        &&& fills_aligned(fills, self.definition.quantity.increment as int)
        &&& forall|j: int, k: int|
            0 <= j < k < fills.len() ==> (#[trigger] fills[j]).order_id != (
            #[trigger] fills[k]).order_id
    }

    /// Reduces or removes the order of one fill.
    fn apply_fill(&mut self, fill: AuctionOrderFill)
        requires
            old(self).wf(),
            old(self).active().dom().contains(fill.order_id),
            0 < fill.quantity_lots <= old(self).active()[fill.order_id].quantity.lots,
            fill.quantity_lots as int % old(self).definition.quantity.increment as int == 0,
        ensures
            final(self).wf(),
            final(self).same_but_orders(old(self)),
            final(self).active() == if fill.quantity_lots == old(
                self,
            ).active()[fill.order_id].quantity.lots {
                old(self).active().remove(fill.order_id)
            } else {
                old(self).active().insert(
                    fill.order_id,
                    CallAuctionOrderSnapshot {
                        quantity: Quantity {
                            lots: (old(self).active()[fill.order_id].quantity.lots
                                - fill.quantity_lots) as u64,
                        },
                        ..old(self).active()[fill.order_id]
                    },
                )
            },
    {
        let order = self.orders.fetch(fill.order_id);
        assert(self.order_ok(fill.order_id));
        if order.quantity.lots == fill.quantity_lots {
            self.remove_active_order(fill.order_id);
        } else {
            proof {
                lemma_multiple_sum(
                    order.quantity.lots as int,
                    fill.quantity_lots as int,
                    self.definition.quantity.increment as int,
                );
            }
            let remaining = Quantity { lots: order.quantity.lots - fill.quantity_lots };
            self.resize_order(fill.order_id, remaining);
        }
    }

    /// Applies every fill of one side.
    fn apply_fills(&mut self, fills: &[AuctionOrderFill])
        requires
            old(self).wf(),
            old(self).fills_apply(fills@),
        ensures
            final(self).wf(),
            final(self).same_but_orders(old(self)),
            final(self).active() == filled(old(self).active(), fills@),
    {
        let ghost entry = *self;
        let ghost start = self.active();
        proof {
            assert(fills@.take(0) =~= Seq::<AuctionOrderFill>::empty());
            assert forall|id: OrderId| #[trigger] start.dom().contains(id) implies start[id].quantity.lots
                > 0 by {
                assert(self.order_ok(id));
            }
            assert(filled(start, fills@.take(0)) =~= start);
        }
        let mut index: usize = 0;
        while index < fills.len()
            invariant
                self.wf(),
                self.same_but_orders(&entry),
                entry.active() == start,
                entry.fills_apply(fills@),
                index <= fills@.len(),
                self.active() == filled(start, fills@.take(index as int)),
            decreases fills@.len() - index,
        {
            let fill = fills[index];
            let ghost before = fills@.take(index as int);
            let ghost after = fills@.take(index + 1);
            proof {
                assert(after.drop_last() =~= before);
                assert forall|k: int| 0 <= k < before.len() implies ((
                #[trigger] before[k]).order_id == fill.order_id <==> k == -1) by {
                    assert(before[k] == fills@[k]);
                }
                lemma_executed_once(before, fill.order_id, -1);
                assert(fills@[index as int] == fill);
            }
            let ghost middle = self.active();
            self.apply_fill(fill);
            proof {
                assert forall|id: OrderId| executed_lots(after, id) == executed_lots(before, id) + (
                if id == fill.order_id {
                    fill.quantity_lots as int
                } else {
                    0
                }) by {}
                assert(self.active() =~= filled(start, after));
            }
            index += 1;
        }
        proof {
            assert(fills@.take(index as int) =~= fills@);
        }
    }

    /// Removes every order that a cancellation list names.
    fn apply_cancellations(&mut self, cancellations: &[CallAuctionCancellation])
        requires
            old(self).wf(),
            forall|k: int|
                0 <= k < cancellations@.len() ==> old(self).active().dom().contains(
                    (#[trigger] cancellations@[k]).order_id,
                ),
            forall|j: int, k: int|
                0 <= j < k < cancellations@.len() ==> (#[trigger] cancellations@[j]).order_id != (
                #[trigger] cancellations@[k]).order_id,
        ensures
            final(self).wf(),
            final(self).same_but_orders(old(self)),
            forall|id: OrderId| #[trigger]
                final(self).active().dom().contains(id) <==> old(self).active().dom().contains(id)
                    && !cancels_order(cancellations@, id),
            forall|id: OrderId| #[trigger]
                final(self).active().dom().contains(id) ==> final(self).active()[id] == old(
                    self,
                ).active()[id],
    {
        let ghost entry = *self;
        let ghost start = self.active();
        let mut index: usize = 0;
        while index < cancellations.len()
            invariant
                self.wf(),
                self.same_but_orders(&entry),
                entry.active() == start,
                index <= cancellations@.len(),
                forall|k: int|
                    0 <= k < cancellations@.len() ==> start.dom().contains(
                        (#[trigger] cancellations@[k]).order_id,
                    ),
                forall|j: int, k: int|
                    0 <= j < k < cancellations@.len() ==> (#[trigger] cancellations@[j]).order_id
                        != (#[trigger] cancellations@[k]).order_id,
                forall|id: OrderId| #[trigger]
                    self.active().dom().contains(id) <==> start.dom().contains(id)
                        && !cancels_order(cancellations@.take(index as int), id),
                forall|id: OrderId| #[trigger]
                    self.active().dom().contains(id) ==> self.active()[id] == start[id],
            decreases cancellations@.len() - index,
        {
            let order_id = cancellations[index].order_id;
            let ghost before = cancellations@.take(index as int);
            let ghost after = cancellations@.take(index + 1);
            proof {
                assert(start.dom().contains(cancellations@[index as int].order_id));
                if cancels_order(before, order_id) {
                    let k = choose|k: int|
                        0 <= k < before.len() && (#[trigger] before[k]).order_id == order_id;
                    assert(cancellations@[k].order_id == order_id);
                }
                assert(self.active().dom().contains(order_id));
            }
            self.remove_active_order(order_id);
            proof {
                assert forall|id: OrderId| cancels_order(after, id) <==> cancels_order(before, id)
                    || id == order_id by {
                    if cancels_order(after, id) {
                        let k = choose|k: int|
                            0 <= k < after.len() && (#[trigger] after[k]).order_id == id;
                        if k < index {
                            assert(before[k].order_id == id);
                        }
                    }
                    if cancels_order(before, id) {
                        let k = choose|k: int|
                            0 <= k < before.len() && (#[trigger] before[k]).order_id == id;
                        assert(after[k].order_id == id);
                    }
                    assert(after[index as int].order_id == order_id);
                }
            }
            index += 1;
        }
        proof {
            assert(cancellations@.take(index as int) =~= cancellations@);
        }
    }

    /// Checks a preparation of this book and revision against the collection.
    fn validate_uncross_preparation(&self, prepared: &PreparedCallAuctionUncross) -> (r: bool)
        requires
            self.wf(),
            self.scratch_current(),
        ensures
            r == self.prepared_valid(*prepared),
    {
        let plan = &prepared.buffers.plan;
        let executable: u128 = plan.clearing.executable_quantity;
        let increment: u64 = self.definition.quantity.increment;
        match self.state_revision.checked_add(1) {
            Some(value) => {
                if value != prepared.next_state_revision {
                    return false;
                }
            },
            None => {
                return false;
            },
        }
        if !validate_prepared_fills(
            self.buy_order_scratch.as_slice(),
            plan.buy_fills.as_slice(),
            increment,
            executable,
        ) || !validate_prepared_fills(
            self.sell_order_scratch.as_slice(),
            plan.sell_fills.as_slice(),
            increment,
            executable,
        ) {
            return false;
        }
        proof {
            self.lemma_pairs_active(*plan, executable as int);
        }
        self.validate_prepared_trades(prepared) && self.validate_prepared_cancellations(prepared)
    }

    /// Checks the trades of a preparation against the pairs of its fills.
    fn validate_prepared_trades(&self, prepared: &PreparedCallAuctionUncross) -> (r: bool)
        requires
            self.wf(),
            self.pairs_active(
                fill_pairs(prepared.buffers.plan.buy_fills@, prepared.buffers.plan.sell_fills@),
            ),
        ensures
            ({
                let plan = prepared.buffers.plan;
                let pairs = fill_pairs(plan.buy_fills@, plan.sell_fills@);
                r == (prepared.next_trade_id == self.next_trade_id + pairs.len()
                    && prepared.buffers.trades@ == pair_trades(
                    self.active(),
                    self.definition,
                    self.next_trade_id as int,
                    plan.clearing.price,
                    pairs,
                ))
            }),
    {
        let mut trades: Vec<CallAuctionTrade> = Vec::new();
        match self.prepare_trade_pairs(
            &prepared.buffers.plan,
            CallAuctionSelfTradePolicy::Permit,
            &mut trades,
        ) {
            Ok(next_trade_id) => next_trade_id == prepared.next_trade_id && same_trades(
                trades.as_slice(),
                prepared.buffers.trades.as_slice(),
            ),
            Err(_) => false,
        }
    }

    /// Checks the cancellations of a preparation against the remainders of its
    /// fills.
    fn validate_prepared_cancellations(&self, prepared: &PreparedCallAuctionUncross) -> (r: bool)
        requires
            self.wf(),
            self.scratch_current(),
            fills_sound(self.buy_order_scratch@, prepared.buffers.plan.buy_fills@),
            fills_sound(self.sell_order_scratch@, prepared.buffers.plan.sell_fills@),
        ensures
            r == (prepared.buffers.cancellations@ == plan_cancellations(
                self.active(),
                prepared.buffers.plan,
                prepared.policy.remainder,
            )),
    {
        let mut cancellations: Vec<CallAuctionCancellation> = Vec::new();
        self.prepare_remainder_cancellations(
            &prepared.buffers.plan,
            prepared.policy.remainder,
            &mut cancellations,
        );
        same_cancellations(cancellations.as_slice(), prepared.buffers.cancellations.as_slice())
    }

    /// The first reason why a preparation is refused.
    pub open spec fn commit_fault(&self, prepared: PreparedCallAuctionUncross) -> Option<
        CallAuctionCommitError,
    > {
        if prepared.book_instance_id != self.instance_id {
            Some(CallAuctionCommitError::ForeignPreparation)
        } else if prepared.state_revision != self.state_revision {
            Some(
                CallAuctionCommitError::StalePreparation {
                    observed: prepared.state_revision,
                    current: self.state_revision,
                },
            )
        } else if !self.prepared_valid(prepared) {
            Some(CallAuctionCommitError::InternalInvariantViolation)
        } else {
            None
        }
    }

    /// What a committed preparation changes.
    pub open spec fn uncrosses_from(&self, old: &Self, prepared: PreparedCallAuctionUncross) -> bool {
        &&& self.same_shell(old)
        &&& self.seen_order_ids == old.seen_order_ids
        &&& self.next_priority_sequence == old.next_priority_sequence
        &&& self.active() == uncrossed(
            old.active(),
            prepared.buffers.plan,
            prepared.policy.remainder,
        )
        &&& self.next_trade_id == prepared.next_trade_id
        &&& self.state_revision == prepared.next_state_revision
    }

    /// Commits one preparation of this book and revision.
    ///
    /// Fills reduce or remove orders, dropped remainders are removed, and trade
    /// and revision counters advance together. A refused preparation is handed
    /// back and leaves the collection as it was.
    pub fn commit_uncross(&mut self, prepared: PreparedCallAuctionUncross) -> (r: Result<
        CallAuctionUncross,
        CallAuctionCommitRejection,
    >)
        requires
            old(self).wf(),
        ensures
            final(self).wf(),
            match r {
                Ok(uncross) => {
                    &&& old(self).commit_fault(prepared) is None
                    &&& final(self).uncrosses_from(old(self), prepared)
                    &&& uncross.book_instance_id == prepared.book_instance_id
                    &&& uncross.state_revision == prepared.next_state_revision
                    &&& uncross.policy == prepared.policy
                    &&& uncross.buffers == prepared.buffers
                },
                Err(rejection) => {
                    &&& old(self).commit_fault(prepared) == Some(rejection.error)
                    &&& rejection.prepared == prepared
                    &&& final(self).same_but_scratch(old(self))
                    &&& final(self).active() == old(self).active()
                },
            },
    {
        if prepared.book_instance_id != self.instance_id {
            return Err(
                CallAuctionCommitRejection {
                    error: CallAuctionCommitError::ForeignPreparation,
                    prepared,
                },
            );
        }
        if prepared.state_revision != self.state_revision {
            return Err(
                CallAuctionCommitRejection {
                    error: CallAuctionCommitError::StalePreparation {
                        observed: prepared.state_revision,
                        current: self.state_revision,
                    },
                    prepared,
                },
            );
        }
        let ghost start = self.active();
        let ghost plan = prepared.buffers.plan;
        self.rebuild_order_scratch();
        if !self.validate_uncross_preparation(&prepared) {
            return Err(
                CallAuctionCommitRejection {
                    error: CallAuctionCommitError::InternalInvariantViolation,
                    prepared,
                },
            );
        }
        proof {
            self.lemma_fills_apply(Side::Buy, plan.buy_fills@);
            lemma_plan_cancellations(start, plan, prepared.policy.remainder);
        }
        let ghost checked = *self;
        self.apply_fills(prepared.buffers.plan.buy_fills.as_slice());
        proof {
            self.lemma_other_side_applies(&checked, plan);
        }
        self.apply_fills(prepared.buffers.plan.sell_fills.as_slice());
        let ghost reduced = self.active();
        proof {
            lemma_both_filled(start, plan);
            let named = prepared.buffers.cancellations@;
            assert forall|k: int| 0 <= k < named.len() implies reduced.dom().contains(
                (#[trigger] named[k]).order_id,
            ) by {
                assert(cancels_order(named, named[k].order_id));
            }
        }
        self.apply_cancellations(prepared.buffers.cancellations.as_slice());
        let ghost committed = *self;
        self.next_trade_id = prepared.next_trade_id;
        self.state_revision = prepared.next_state_revision;
        proof {
            self.lemma_counters(&committed);
            assert(self.active() =~= uncrossed(start, plan, prepared.policy.remainder));
        }
        Ok(
            CallAuctionUncross {
                book_instance_id: prepared.book_instance_id,
                state_revision: prepared.next_state_revision,
                policy: prepared.policy,
                buffers: prepared.buffers,
            },
        )
    }

    /// Fills that fit a side can be applied.
    proof fn lemma_fills_apply(&self, side: Side, fills: Seq<AuctionOrderFill>)
        requires
            self.wf(),
            canonical_side(self.active(), side, side_orders(self.active(), side)),
            fills_sound(side_orders(self.active(), side), fills),
            fills_aligned(fills, self.definition.quantity.increment as int),
        ensures
            self.fills_apply(fills),
    {
        let list = side_orders(self.active(), side);
        assert forall|k: int| 0 <= k < fills.len() implies {
            let fill = #[trigger] fills[k];
            &&& self.active().dom().contains(fill.order_id)
            &&& 0 < fill.quantity_lots <= self.active()[fill.order_id].quantity.lots
        } by {
            lemma_executed_fill(self.active(), side, list, fills, k);
        }
        assert forall|j: int, k: int| 0 <= j < k < fills.len() implies (
        #[trigger] fills[j]).order_id != (#[trigger] fills[k]).order_id by {
            lemma_executed_fill(self.active(), side, list, fills, k);
        }
    }

    /// Sell fills still apply after the buy fills.
    proof fn lemma_other_side_applies(&self, before: &Self, plan: AuctionAllocationPlan)
        requires
            before.wf(),
            canonical_side(before.active(), Side::Buy, side_orders(before.active(), Side::Buy)),
            canonical_side(before.active(), Side::Sell, side_orders(before.active(), Side::Sell)),
            fills_sound(side_orders(before.active(), Side::Buy), plan.buy_fills@),
            fills_sound(side_orders(before.active(), Side::Sell), plan.sell_fills@),
            fills_aligned(plan.sell_fills@, before.definition.quantity.increment as int),
            self.definition == before.definition,
            self.active() == filled(before.active(), plan.buy_fills@),
        ensures
            self.fills_apply(plan.sell_fills@),
    {
        let active = before.active();
        let fills = plan.sell_fills@;
        before.lemma_fills_apply(Side::Sell, fills);
        assert forall|k: int| 0 <= k < fills.len() implies {
            let fill = #[trigger] fills[k];
            &&& self.active().dom().contains(fill.order_id)
            &&& 0 < fill.quantity_lots <= self.active()[fill.order_id].quantity.lots
        } by {
            lemma_executed_fill(active, Side::Sell, side_orders(active, Side::Sell), fills, k);
            lemma_executed_listed(
                active,
                Side::Buy,
                side_orders(active, Side::Buy),
                plan.buy_fills@,
                fills[k].order_id,
            );
        }
    }

    /// Takes the buffer set of an unused preparation back.
    ///
    /// A preparation of another book, and one that this book has no room for,
    /// is handed back.
    pub fn release_prepared(&mut self, prepared: PreparedCallAuctionUncross) -> (r: Result<
        (),
        PreparedCallAuctionUncross,
    >)
        requires
            old(self).wf(),
        ensures
            final(self).wf(),
            final(self).same_but_leases(old(self)),
            final(self).active() == old(self).active(),
            match r {
                Ok(_) => {
                    &&& prepared.book_instance_id == old(self).instance_id
                    &&& final(self).uncross_pool.available@.len() == old(
                        self,
                    ).uncross_pool.available@.len() + 1
                },
                Err(returned) => {
                    &&& returned == prepared
                    &&& prepared.book_instance_id != old(self).instance_id || old(
                        self,
                    ).uncross_pool.available@.len() == old(self).uncross_pool.capacity
                    &&& *final(self) == *old(self)
                },
            },
    {
        if prepared.book_instance_id != self.instance_id || self.uncross_pool.available.len()
            >= self.uncross_pool.capacity {
            return Err(prepared);
        }
        self.return_buffers(prepared.buffers);
        Ok(())
    }

    /// Takes the buffer set of a committed uncross back.
    ///
    /// A result of another book, and one that this book has no room for, is
    /// handed back.
    pub fn release_uncross(&mut self, uncross: CallAuctionUncross) -> (r: Result<
        (),
        CallAuctionUncross,
    >)
        requires
            old(self).wf(),
        ensures
            final(self).wf(),
            final(self).same_but_leases(old(self)),
            final(self).active() == old(self).active(),
            match r {
                Ok(_) => {
                    &&& uncross.book_instance_id == old(self).instance_id
                    &&& final(self).uncross_pool.available@.len() == old(
                        self,
                    ).uncross_pool.available@.len() + 1
                },
                Err(returned) => {
                    &&& returned == uncross
                    &&& uncross.book_instance_id != old(self).instance_id || old(
                        self,
                    ).uncross_pool.available@.len() == old(self).uncross_pool.capacity
                    &&& *final(self) == *old(self)
                },
            },
    {
        if uncross.book_instance_id != self.instance_id || self.uncross_pool.available.len()
            >= self.uncross_pool.capacity {
            return Err(uncross);
        }
        self.return_buffers(uncross.buffers);
        Ok(())
    }
}

/// Applying both sides executes what the plan says of every order.
proof fn lemma_both_filled(active: ActiveOrders, plan: AuctionAllocationPlan)
    requires
        canonical_side(active, Side::Buy, side_orders(active, Side::Buy)),
        canonical_side(active, Side::Sell, side_orders(active, Side::Sell)),
        fills_sound(side_orders(active, Side::Buy), plan.buy_fills@),
        fills_sound(side_orders(active, Side::Sell), plan.sell_fills@),
    ensures
        ({
            let reduced = filled(filled(active, plan.buy_fills@), plan.sell_fills@);
            forall|id: OrderId|
                (#[trigger] reduced.dom().contains(id) <==> active.dom().contains(id)
                    && plan_executed(plan, id) < active[id].quantity.lots) && (
                reduced.dom().contains(id) ==> reduced[id] == (CallAuctionOrderSnapshot {
                    quantity: Quantity {
                        lots: (active[id].quantity.lots - plan_executed(plan, id)) as u64,
                    },
                    ..active[id]
                }))
        }),
{
    let reduced = filled(filled(active, plan.buy_fills@), plan.sell_fills@);
    assert forall|id: OrderId|
        (#[trigger] reduced.dom().contains(id) <==> active.dom().contains(id) && plan_executed(
            plan,
            id,
        ) < active[id].quantity.lots) && (reduced.dom().contains(id) ==> reduced[id] == (
        CallAuctionOrderSnapshot {
            quantity: Quantity {
                lots: (active[id].quantity.lots - plan_executed(plan, id)) as u64,
            },
            ..active[id]
        })) by {
        lemma_executed_listed(
            active,
            Side::Buy,
            side_orders(active, Side::Buy),
            plan.buy_fills@,
            id,
        );
        lemma_executed_listed(
            active,
            Side::Sell,
            side_orders(active, Side::Sell),
            plan.sell_fills@,
            id,
        );
    }
}

} // verus!
