//! A gap-detecting consumer of public call-auction market data.

use vstd::prelude::*;

use crate::auction::AuctionOrderConstraint;
use crate::domain::{Price, Quantity, Side, TradeId};
use crate::engine_types::{CallAuctionPhase, CallAuctionPhaseSnapshot};
use crate::instrument::InstrumentDefinition;
use crate::market_data_state::{
    aggregate_from_level, arena_of, arena_status, book_reconciles, book_refused, index_status,
    level_excess, named_index, one_more, price_admitted, price_text, set_bounded_limit_level,
    side_levels, side_resource, trade_reconciles, trade_text, transition_cycle, unreserved,
    Aggregate, CycleTrace, Depth, PublicBook, PublicState,
};
use crate::market_data_types::{
    market_data_limits_fault, phase_feasible, validate_update_kind, CallAuctionBookChangeReason,
    CallAuctionMarketDataArenaStatus, CallAuctionMarketDataConstructionError,
    CallAuctionMarketDataError, CallAuctionMarketDataHashIndexStatus, CallAuctionMarketDataKind,
    CallAuctionMarketDataLevel, CallAuctionMarketDataLimits, CallAuctionMarketDataLimitsSpec,
    CallAuctionMarketDataResource, CallAuctionMarketDataUpdate, CallAuctionTradePrint,
};
use crate::ordered_map::{index_reserved, MapKey, OrderedMap};
use crate::storage::unrepresentable;

verus! {

/// One limit level of one side.
#[derive(Clone, Copy, Debug, PartialEq, Eq, Structural)]
pub struct LevelKey {
    /// Book side.
    pub side: Side,
    /// Limit price.
    pub price: Price,
}

impl MapKey for LevelKey {
    open spec fn rank(self) -> int {
        self.price.raw + if self.side == Side::Buy {
            0int
        } else {
            0x1_0000_0000_0000_0000int
        }
    }

    proof fn lemma_rank_injective(self, other: Self) {
    }

    fn is_before(self, other: Self) -> (r: bool) {
        match (self.side, other.side) {
            (Side::Buy, Side::Sell) => true,
            (Side::Sell, Side::Buy) => false,
            _ => self.price.raw < other.price.raw,
        }
    }
}

/// Occupied limit levels while a batch is checked.
#[verifier::ext_equal]
pub struct LevelUse {
    /// Occupied bid prices.
    pub bids: Set<Price>,
    /// Occupied ask prices.
    pub asks: Set<Price>,
    /// Levels that the batch has named.
    pub touched: Set<LevelKey>,
}

impl LevelUse {
    /// Occupied prices of one side.
    pub open spec fn prices(self, side: Side) -> Set<Price> {
        match side {
            Side::Buy => self.bids,
            Side::Sell => self.asks,
        }
    }

    /// Use after a level, when there is room for it.
    pub open spec fn with(
        self,
        level: CallAuctionMarketDataLevel,
        limits: CallAuctionMarketDataLimits,
    ) -> Option<Self> {
        match level.constraint {
            AuctionOrderConstraint::Market => Some(self),
            AuctionOrderConstraint::Limit(price) => {
                let key = LevelKey { side: level.side, price };
                let prices = if level.quantity == 0 {
                    self.prices(level.side).remove(price)
                } else {
                    self.prices(level.side).insert(price)
                };
                if prices.len() > limits.max_price_levels_per_side || (!self.touched.contains(key)
                    && self.touched.len() >= limits.max_batch_updates) {
                    None
                } else {
                    Some(
                        LevelUse {
                            bids: if level.side == Side::Buy {
                                prices
                            } else {
                                self.bids
                            },
                            asks: if level.side == Side::Sell {
                                prices
                            } else {
                                self.asks
                            },
                            touched: self.touched.insert(key),
                        },
                    )
                }
            },
        }
    }

    /// The error of a level for which there is no room.
    pub open spec fn level_fault(
        self,
        level: CallAuctionMarketDataLevel,
        limits: CallAuctionMarketDataLimits,
    ) -> Option<CallAuctionMarketDataError> {
        match level.constraint {
            AuctionOrderConstraint::Market => None,
            AuctionOrderConstraint::Limit(price) => {
                let key = LevelKey { side: level.side, price };
                let prices = if level.quantity == 0 {
                    self.prices(level.side).remove(price)
                } else {
                    self.prices(level.side).insert(price)
                };
                if prices.len() > usize::MAX {
                    Some(CallAuctionMarketDataError::ArithmeticOverflow)
                } else if prices.len() > limits.max_price_levels_per_side {
                    Some(
                        CallAuctionMarketDataError::CapacityExceeded {
                            resource: side_levels(level.side),
                            maximum: limits.max_price_levels_per_side,
                            attempted: prices.len() as usize,
                        },
                    )
                } else if !self.touched.contains(key) && self.touched.len()
                    >= limits.max_batch_updates {
                    Some(
                        CallAuctionMarketDataError::CapacityExceeded {
                            resource: CallAuctionMarketDataResource::BatchLevelIdentities,
                            maximum: limits.max_batch_updates,
                            attempted: one_more(self.touched.len()),
                        },
                    )
                } else {
                    None
                }
            },
        }
    }

    /// The error of a payload for which there is no room.
    pub open spec fn fault(
        self,
        kind: CallAuctionMarketDataKind,
        limits: CallAuctionMarketDataLimits,
    ) -> Option<CallAuctionMarketDataError> {
        match kind {
            CallAuctionMarketDataKind::Book { level, .. } => self.level_fault(level, limits),
            CallAuctionMarketDataKind::Trade { buy, sell, .. } => match self.with(buy, limits) {
                Some(next) => next.level_fault(sell, limits),
                None => self.level_fault(buy, limits),
            },
            _ => None,
        }
    }

    /// The error of the first of `count` updates for which there is no room.
    pub open spec fn first_fault(
        self,
        updates: Seq<CallAuctionMarketDataUpdate>,
        limits: CallAuctionMarketDataLimits,
        count: nat,
    ) -> Option<CallAuctionMarketDataError>
        decreases count,
    {
        if count == 0 {
            None
        } else {
            match self.after_all(updates, limits, (count - 1) as nat) {
                Some(next) => next.fault(updates[count - 1].kind, limits),
                None => self.first_fault(updates, limits, (count - 1) as nat),
            }
        }
    }

    /// Later updates do not change the first error.
    proof fn lemma_first_fault(
        self,
        updates: Seq<CallAuctionMarketDataUpdate>,
        limits: CallAuctionMarketDataLimits,
        few: nat,
        many: nat,
    )
        requires
            few <= many,
            self.after_all(updates, limits, few) is None,
        ensures
            self.after_all(updates, limits, many) is None,
            self.first_fault(updates, limits, many) == self.first_fault(updates, limits, few),
        decreases many,
    {
        if few < many {
            self.lemma_first_fault(updates, limits, few, (many - 1) as nat);
        }
    }

    /// Use after a payload, when there is room for it.
    pub open spec fn after(
        self,
        kind: CallAuctionMarketDataKind,
        limits: CallAuctionMarketDataLimits,
    ) -> Option<Self> {
        match kind {
            CallAuctionMarketDataKind::Book { level, .. } => self.with(level, limits),
            CallAuctionMarketDataKind::Trade { buy, sell, .. } => match self.with(buy, limits) {
                Some(next) => next.with(sell, limits),
                None => None,
            },
            _ => Some(self),
        }
    }

    /// Use after the first `count` updates, when there is room for them.
    pub open spec fn after_all(
        self,
        updates: Seq<CallAuctionMarketDataUpdate>,
        limits: CallAuctionMarketDataLimits,
        count: nat,
    ) -> Option<Self>
        decreases count,
    {
        if count == 0 {
            Some(self)
        } else {
            match self.after_all(updates, limits, (count - 1) as nat) {
                Some(next) => next.after(updates[count - 1].kind, limits),
                None => None,
            }
        }
    }
}

/// A removal or completion of a mass cancellation.
pub open spec fn is_mass_cancel(kind: CallAuctionMarketDataKind) -> bool {
    ||| is_mass_removal(kind)
    ||| kind is MassCancelCompleted
}

/// A removal by a mass cancellation.
pub open spec fn is_mass_removal(kind: CallAuctionMarketDataKind) -> bool {
    kind matches CallAuctionMarketDataKind::Book { reason, .. } && reason
        == CallAuctionBookChangeReason::MassCancelled
}

/// A removal before a replacement.
pub open spec fn is_replacement(kind: CallAuctionMarketDataKind) -> bool {
    kind matches CallAuctionMarketDataKind::Book { reason, .. } && reason
        == CallAuctionBookChangeReason::Replaced
}

/// An acceptance.
pub open spec fn is_acceptance(kind: CallAuctionMarketDataKind) -> bool {
    kind matches CallAuctionMarketDataKind::Book { reason, .. } && reason
        == CallAuctionBookChangeReason::Accepted
}

/// Lots that the mass removals among the first `count` updates remove.
pub open spec fn mass_lots(updates: Seq<CallAuctionMarketDataUpdate>, count: nat) -> int
    decreases count,
{
    if count == 0 {
        0
    } else {
        mass_lots(updates, (count - 1) as nat) + if is_mass_removal(updates[count - 1].kind) {
            updates[count - 1].kind->Book_quantity.lots as int
        } else {
            0
        }
    }
}

/// Mass removals among the first `count` updates.
pub open spec fn mass_count(updates: Seq<CallAuctionMarketDataUpdate>, count: nat) -> int
    decreases count,
{
    if count == 0 {
        0
    } else {
        mass_count(updates, (count - 1) as nat) + if is_mass_removal(updates[count - 1].kind) {
            1int
        } else {
            0
        }
    }
}

/// All updates happened at the time of the first.
pub open spec fn one_time(updates: Seq<CallAuctionMarketDataUpdate>) -> bool {
    forall|i: int| 0 <= i < updates.len() ==> (#[trigger] updates[i]).occurred_at
        == updates[0].occurred_at
}

/// A replacement is one removal, then its acceptance, and nothing else.
pub open spec fn replacement_whole(updates: Seq<CallAuctionMarketDataUpdate>) -> bool {
    &&& updates.len() == 2
    &&& is_replacement(updates[0].kind)
    &&& is_acceptance(updates[1].kind)
    &&& one_time(updates)
}

/// A mass cancellation is its removals, then a completion that counts them, and
/// nothing else.
pub open spec fn mass_cancel_whole(updates: Seq<CallAuctionMarketDataUpdate>) -> bool {
    let count = (updates.len() - 1) as nat;
    &&& updates.len() > 0
    &&& forall|i: int| 0 <= i < count ==> is_mass_removal((#[trigger] updates[i]).kind)
    &&& (updates.last().kind matches CallAuctionMarketDataKind::MassCancelCompleted {
        cancelled_order_count,
        cancelled_quantity_lots,
        ..
    } && cancelled_order_count == count && cancelled_quantity_lots == mass_lots(updates, count))
    &&& one_time(updates)
}

/// Replacements and mass cancellations are complete command batches.
pub open spec fn batch_whole(updates: Seq<CallAuctionMarketDataUpdate>) -> bool {
    &&& (exists|i: int| 0 <= i < updates.len() && is_replacement((#[trigger] updates[i]).kind))
        ==> replacement_whole(updates)
    &&& (exists|i: int| 0 <= i < updates.len() && is_mass_cancel((#[trigger] updates[i]).kind))
        ==> mass_cancel_whole(updates)
}

/// An update of one kind occurs among the first `count`.
pub open spec fn replaced_before(updates: Seq<CallAuctionMarketDataUpdate>, count: int) -> bool {
    exists|i: int| 0 <= i < count && is_replacement((#[trigger] updates[i]).kind)
}

/// A completion occurs among the first `count` updates.
pub open spec fn completed_before(updates: Seq<CallAuctionMarketDataUpdate>, count: int) -> bool {
    exists|i: int| 0 <= i < count && (#[trigger] updates[i]).kind is MassCancelCompleted
}

/// The first update from `position` on that repeats a unique part of a batch or
/// differs in time from the replacement before it.
pub open spec fn repetition_fault(
    updates: Seq<CallAuctionMarketDataUpdate>,
    position: int,
) -> Option<Seq<char>>
    decreases updates.len() - position,
{
    if position >= updates.len() {
        None
    } else if is_replacement(updates[position].kind) && replaced_before(updates, position) {
        Some("auction command batch repeats a replacement removal"@)
    } else if updates[position].kind is MassCancelCompleted && completed_before(
        updates,
        position,
    ) {
        Some("auction command batch repeats a mass-cancel completion"@)
    } else if replaced_before(updates, position + 1) && updates[position].occurred_at
        != updates[0].occurred_at {
        Some("auction replacement batch timestamps differ"@)
    } else {
        repetition_fault(updates, position + 1)
    }
}

/// The first reason why a batch is no complete command batch.
pub open spec fn batch_fault(updates: Seq<CallAuctionMarketDataUpdate>) -> Option<Seq<char>> {
    let count = updates.len() as int;
    if repetition_fault(updates, 0) is Some {
        repetition_fault(updates, 0)
    } else if replaced_before(updates, count) && !replacement_whole(updates) {
        Some("auction replacement must be Replaced then Accepted in one two-update batch"@)
    } else if mass_count(updates, updates.len()) > 0 && !completed_before(updates, count) {
        Some("auction mass-cancel removals lack a final completion"@)
    } else if !batch_whole(updates) {
        Some(
            "auction mass cancel must contain only reconciled removals followed by one completion"@,
        )
    } else {
        None
    }
}

proof fn lemma_mass_bounds(updates: Seq<CallAuctionMarketDataUpdate>, count: nat)
    ensures
        0 <= mass_count(updates, count) <= count,
        0 <= mass_lots(updates, count) <= mass_count(updates, count) * u64::MAX,
    decreases count,
{
    if count > 0 {
        lemma_mass_bounds(updates, (count - 1) as nat);
        let few = mass_count(updates, (count - 1) as nat);
        assert((few + 1) * u64::MAX == few * u64::MAX + u64::MAX) by (nonlinear_arith);
    }
}

proof fn lemma_mass_all(updates: Seq<CallAuctionMarketDataUpdate>, count: nat)
    requires
        count <= updates.len(),
        mass_count(updates, count) == count,
    ensures
        forall|i: int| 0 <= i < count ==> is_mass_removal((#[trigger] updates[i]).kind),
    decreases count,
{
    if count > 0 {
        lemma_mass_bounds(updates, (count - 1) as nat);
        lemma_mass_all(updates, (count - 1) as nat);
    }
}

proof fn lemma_mass_counted(updates: Seq<CallAuctionMarketDataUpdate>, count: nat)
    requires
        count <= updates.len(),
        forall|i: int| 0 <= i < count ==> is_mass_removal((#[trigger] updates[i]).kind),
    ensures
        mass_count(updates, count) == count,
    decreases count,
{
    if count > 0 {
        lemma_mass_counted(updates, (count - 1) as nat);
    }
}

/// Checks that replacements and mass cancellations are complete command batches.
pub fn preflight_complete_batch_grammar(updates: &[CallAuctionMarketDataUpdate]) -> (r: Result<
    (),
    CallAuctionMarketDataError,
>)
    ensures
        match r {
            Ok(_) => batch_whole(updates@) && batch_fault(updates@) is None,
            Err(error) => !batch_whole(updates@) && (batch_fault(updates@) matches Some(detail)
                && error.refutes_update(detail)),
        },
{
    let ghost list = updates@;
    let count: usize = updates.len();
    let mut replacement_index: Option<usize> = None;
    let mut accepted_index: Option<usize> = None;
    let mut timestamps_match: bool = true;
    let mut mass_cancel_count: usize = 0;
    let mut mass_cancel_quantity: u128 = 0;
    let mut completion: Option<(usize, u64, u128)> = None;
    let mut index: usize = 0;
    while index < count
        invariant
            list == updates@,
            count == list.len(),
            index <= count,
            repetition_fault(list, 0) == repetition_fault(list, index as int),
            mass_cancel_count == mass_count(list, index as nat),
            mass_cancel_count <= index,
            mass_cancel_quantity == mass_lots(list, index as nat),
            match replacement_index {
                Some(at) => at < index && is_replacement(list[at as int].kind) && forall|i: int|
                    0 <= i < index && i != at ==> !is_replacement((#[trigger] list[i]).kind),
                None => forall|i: int|
                    0 <= i < index ==> !is_replacement((#[trigger] list[i]).kind),
            },
            match accepted_index {
                Some(at) => at < index && is_acceptance(list[at as int].kind) && forall|i: int|
                    at < i < index ==> !is_acceptance((#[trigger] list[i]).kind),
                None => forall|i: int|
                    0 <= i < index ==> !is_acceptance((#[trigger] list[i]).kind),
            },
            match completion {
                Some((at, orders, lots)) => {
                    &&& at < index
                    &&& (list[at as int].kind matches CallAuctionMarketDataKind::MassCancelCompleted {
                        cancelled_order_count,
                        cancelled_quantity_lots,
                        ..
                    } && cancelled_order_count == orders && cancelled_quantity_lots == lots)
                    &&& forall|i: int|
                        0 <= i < index && i != at ==> !((
                        #[trigger] list[i]).kind is MassCancelCompleted)
                },
                None => forall|i: int|
                    0 <= i < index ==> !((#[trigger] list[i]).kind is MassCancelCompleted),
            },
            timestamps_match <==> forall|i: int|
                0 <= i < index ==> (#[trigger] list[i]).occurred_at == list[0].occurred_at,
            replacement_index matches Some(at) ==> forall|i: int|
                at <= i < index ==> (#[trigger] list[i]).occurred_at == list[0].occurred_at,
        decreases count - index,
    {
        let update = updates[index];
        proof {
            assert(list[index as int] == update);
            lemma_mass_bounds(list, index as nat);
            lemma_mass_bounds(list, (index + 1) as nat);
            let most = mass_count(list, (index + 1) as nat);
            assert(most * u64::MAX <= u128::MAX) by (nonlinear_arith)
                requires
                    0 <= most <= usize::MAX + 1,
            ;
        }
        if update.occurred_at != updates[0].occurred_at {
            timestamps_match = false;
        }
        match update.kind {
            CallAuctionMarketDataKind::Book { reason, quantity, .. } => {
                match reason {
                    CallAuctionBookChangeReason::Accepted => {
                        accepted_index = Some(index);
                    },
                    CallAuctionBookChangeReason::Replaced => {
                        if replacement_index.is_some() {
                            proof {
                                let at = replacement_index->0;
                                assert(is_replacement(list[at as int].kind));
                                assert(is_replacement(list[index as int].kind));
                                assert(!replacement_whole(list));
                            }
                            return Err(
                                CallAuctionMarketDataError::InvalidUpdate(
                                    "auction command batch repeats a replacement removal",
                                ),
                            );
                        }
                        replacement_index = Some(index);
                    },
                    CallAuctionBookChangeReason::MassCancelled => {
                        mass_cancel_count = mass_cancel_count + 1;
                        mass_cancel_quantity = mass_cancel_quantity + quantity.lots as u128;
                    },
                    _ => {},
                }
            },
            CallAuctionMarketDataKind::MassCancelCompleted {
                cancelled_order_count,
                cancelled_quantity_lots,
                ..
            } => {
                if completion.is_some() {
                    proof {
                        let (at, _orders, _lots) = completion->0;
                        assert(is_mass_cancel(list[index as int].kind));
                        assert(list[at as int].kind is MassCancelCompleted);
                        assert(!is_mass_removal(list[at as int].kind));
                        assert(!mass_cancel_whole(list));
                    }
                    return Err(
                        CallAuctionMarketDataError::InvalidUpdate(
                            "auction command batch repeats a mass-cancel completion",
                        ),
                    );
                }
                completion = Some((index, cancelled_order_count, cancelled_quantity_lots));
            },
            _ => {},
        }
        if replacement_index.is_some() && update.occurred_at != updates[0].occurred_at {
            proof {
                let at = replacement_index->0;
                assert(is_replacement(list[at as int].kind));
                assert(!one_time(list));
            }
            return Err(
                CallAuctionMarketDataError::InvalidUpdate(
                    "auction replacement batch timestamps differ",
                ),
            );
        }
        index += 1;
    }
    if let Some(at) = replacement_index {
        if count != 2 || at != 0 || accepted_index != Some(1) {
            proof {
                assert(is_replacement(list[at as int].kind));
                if replacement_whole(list) {
                    assert(is_replacement(list[0].kind));
                    assert(is_acceptance(list[1].kind));
                }
            }
            return Err(
                CallAuctionMarketDataError::InvalidUpdate(
                    "auction replacement must be Replaced then Accepted in one two-update batch",
                ),
            );
        }
        proof {
            assert(one_time(list));
            assert(replacement_whole(list));
        }
    }
    if mass_cancel_count != 0 || completion.is_some() {
        match completion {
            None => {
                proof {
                    lemma_removal_exists(list, count as nat);
                    let i = choose|i: int|
                        0 <= i < list.len() && is_mass_removal((#[trigger] list[i]).kind);
                    assert(is_mass_cancel(list[i].kind));
                    if mass_cancel_whole(list) {
                        assert(list[list.len() - 1].kind is MassCancelCompleted);
                    }
                }
                return Err(
                    CallAuctionMarketDataError::InvalidUpdate(
                        "auction mass-cancel removals lack a final completion",
                    ),
                );
            },
            Some((completion_index, declared_count, declared_quantity)) => {
                proof {
                    assert(is_mass_cancel(list[completion_index as int].kind));
                    let before = (list.len() - 1) as nat;
                    lemma_mass_bounds(list, before);
                    if mass_cancel_whole(list) {
                        lemma_mass_counted(list, before);
                        assert(list[before as int].kind is MassCancelCompleted);
                    }
                    if mass_count(list, before) == before {
                        lemma_mass_all(list, before);
                    }
                }
                if completion_index + 1 != count || mass_cancel_count + 1 != count
                    || mass_cancel_count as u64 != declared_count || mass_cancel_quantity
                    != declared_quantity || !timestamps_match {
                    return Err(
                        CallAuctionMarketDataError::InvalidUpdate(
                            "auction mass cancel must contain only reconciled removals followed by one completion",
                        ),
                    );
                }
                proof {
                    let before = (list.len() - 1) as nat;
                    assert(mass_count(list, list.len()) == mass_count(list, before));
                    assert(mass_lots(list, list.len()) == mass_lots(list, before));
                    assert(one_time(list));
                    assert(mass_cancel_whole(list));
                }
            },
        }
    } else {
        proof {
            assert forall|i: int| 0 <= i < list.len() implies !is_mass_cancel(
                (#[trigger] list[i]).kind,
            ) by {
                if is_mass_removal(list[i].kind) {
                    lemma_removal_counts(list, i, list.len());
                }
            }
        }
    }
    Ok(())
}

proof fn lemma_removal_exists(updates: Seq<CallAuctionMarketDataUpdate>, count: nat)
    requires
        count <= updates.len(),
        mass_count(updates, count) > 0,
    ensures
        exists|i: int| 0 <= i < updates.len() && is_mass_removal((#[trigger] updates[i]).kind),
    decreases count,
{
    if is_mass_removal(updates[count - 1].kind) {
    } else {
        lemma_removal_exists(updates, (count - 1) as nat);
    }
}

proof fn lemma_removal_counts(updates: Seq<CallAuctionMarketDataUpdate>, index: int, count: nat)
    requires
        0 <= index < count <= updates.len(),
        is_mass_removal(updates[index].kind),
    ensures
        mass_count(updates, count) > 0,
    decreases count,
{
    lemma_mass_bounds(updates, (count - 1) as nat);
    if index < count - 1 {
        lemma_removal_counts(updates, index, (count - 1) as nat);
    }
}

/// Occupied levels of two depth indexes.
pub open spec fn level_use(bids: Depth, asks: Depth) -> LevelUse {
    LevelUse { bids: bids.dom(), asks: asks.dom(), touched: Set::empty() }
}

/// Follows one level of a batch.
fn preflight_level(
    scratch: &mut OrderedMap<LevelKey, bool>,
    bids: &OrderedMap<Price, Aggregate>,
    asks: &OrderedMap<Price, Aggregate>,
    bid_count: &mut usize,
    ask_count: &mut usize,
    level: CallAuctionMarketDataLevel,
    limits: CallAuctionMarketDataLimits,
    Ghost(using): Ghost<LevelUse>,
) -> (r: Result<(), CallAuctionMarketDataError>)
    requires
        bids.wf(),
        asks.wf(),
        tracks_use(old(scratch), bids@, asks@, *old(bid_count), *old(ask_count), using),
    ensures
        final(scratch).wf(),
        final(scratch).maximum == old(scratch).maximum,
        final(scratch).reserved == old(scratch).reserved,
        match r {
            Ok(_) => using.with(level, limits) matches Some(next) && tracks_use(
                final(scratch),
                bids@,
                asks@,
                *final(bid_count),
                *final(ask_count),
                next,
            ),
            Err(error) => using.with(level, limits) is None && using.level_fault(level, limits)
                == Some(error),
        },
{
    let price = match level.constraint {
        AuctionOrderConstraint::Limit(price) => price,
        AuctionOrderConstraint::Market => {
            return Ok(());
        },
    };
    let key = LevelKey { side: level.side, price };
    let ghost prices = using.prices(level.side);
    proof {
        scratch.lemma_view();
        bids.lemma_view();
        asks.lemma_view();
    }
    let named = scratch.get(key);
    let previous: bool = match named {
        Some(present) => present,
        None => match level.side {
            Side::Buy => bids.contains_key(price),
            Side::Sell => asks.contains_key(price),
        },
    };
    proof {
        assert(occupied(using, key) == prices.contains(price));
        assert(previous == prices.contains(price));
    }
    let next: bool = level.quantity != 0;
    let current: usize = match level.side {
        Side::Buy => *bid_count,
        Side::Sell => *ask_count,
    };
    let ghost after = if level.quantity == 0 {
        prices.remove(price)
    } else {
        prices.insert(price)
    };
    proof {
        if previous && next {
            assert(after =~= prices);
        }
        if !previous && !next {
            assert(after =~= prices);
        }
    }
    let maximum: usize = limits.max_price_levels_per_side;
    let count: usize = if !previous && next {
        if current == usize::MAX {
            return Err(CallAuctionMarketDataError::ArithmeticOverflow);
        }
        current + 1
    } else if previous && !next {
        current - 1
    } else {
        current
    };
    if count > maximum {
        return Err(
            CallAuctionMarketDataError::CapacityExceeded {
                resource: side_resource(level.side),
                maximum,
                attempted: count,
            },
        );
    }
    if named.is_none() && scratch.len() >= limits.max_batch_updates {
        return Err(
            CallAuctionMarketDataError::CapacityExceeded {
                resource: CallAuctionMarketDataResource::BatchLevelIdentities,
                maximum: limits.max_batch_updates,
                attempted: scratch.len().saturating_add(1),
            },
        );
    }
    match level.side {
        Side::Buy => {
            *bid_count = count;
        },
        Side::Sell => {
            *ask_count = count;
        },
    }
    let ghost before = scratch@;
    let _ = scratch.insert(key, next);
    proof {
        let grown = using.with(level, limits)->0;
        assert(scratch@.dom() =~= grown.touched);
        assert forall|other: LevelKey| #[trigger] scratch@.dom().contains(other) implies scratch@[other]
            == occupied(grown, other) by {
            if other != key {
                assert(before.dom().contains(other));
            }
        }
        assert forall|other: LevelKey| !#[trigger] scratch@.dom().contains(other) implies occupied(
            grown,
            other,
        ) == occupied(level_use(bids@, asks@), other) by {
            assert(!before.dom().contains(other));
        }
    }
    Ok(())
}

/// Whether a level is occupied.
pub open spec fn occupied(using: LevelUse, key: LevelKey) -> bool {
    using.prices(key.side).contains(key.price)
}

/// Scratch and counters agree with the levels in use.
pub open spec fn tracks_use(
    scratch: &OrderedMap<LevelKey, bool>,
    bids: Depth,
    asks: Depth,
    bid_count: usize,
    ask_count: usize,
    using: LevelUse,
) -> bool {
    &&& scratch.wf()
    &&& scratch@.dom() == using.touched
    &&& forall|key: LevelKey| #[trigger]
        scratch@.dom().contains(key) ==> scratch@[key] == occupied(using, key)
    &&& forall|key: LevelKey|
        !#[trigger] scratch@.dom().contains(key) ==> occupied(using, key) == occupied(
            level_use(bids, asks),
            key,
        )
    &&& using.bids.finite()
    &&& using.asks.finite()
    &&& bid_count == using.bids.len()
    &&& ask_count == using.asks.len()
}

/// Checks that no update of a batch needs more levels than there may be.
pub(crate) fn preflight_replica_level_capacity(
    scratch: &mut OrderedMap<LevelKey, bool>,
    bids: &OrderedMap<Price, Aggregate>,
    asks: &OrderedMap<Price, Aggregate>,
    limits: CallAuctionMarketDataLimits,
    updates: &[CallAuctionMarketDataUpdate],
) -> (r: Result<(), CallAuctionMarketDataError>)
    requires
        bids.wf(),
        asks.wf(),
        old(scratch).wf(),
        old(scratch).entries@.len() == 0,
    ensures
        final(scratch).wf(),
        final(scratch).maximum == old(scratch).maximum,
        final(scratch).reserved == old(scratch).reserved,
        match r {
            Ok(_) => level_use(bids@, asks@).after_all(updates@, limits, updates@.len()) is Some,
            Err(error) => level_use(bids@, asks@).after_all(updates@, limits, updates@.len())
                is None && level_use(bids@, asks@).first_fault(updates@, limits, updates@.len())
                == Some(error),
        },
{
    let ghost start = level_use(bids@, asks@);
    let mut bid_count: usize = bids.len();
    let mut ask_count: usize = asks.len();
    proof {
        bids.lemma_view();
        asks.lemma_view();
        scratch.lemma_view();
        assert(scratch@.dom() =~= Set::<LevelKey>::empty()) by {
            assert forall|key: LevelKey| !scratch@.dom().contains(key) by {
                if scratch@.dom().contains(key) {
                    let i = choose|i: int|
                        0 <= i < scratch.entries@.len() && (#[trigger] scratch.entries@[i]).0 == key;
                }
            }
        }
    }
    let mut index: usize = 0;
    while index < updates.len()
        invariant
            bids.wf(),
            asks.wf(),
            start == level_use(bids@, asks@),
            index <= updates@.len(),
            scratch.maximum == old(scratch).maximum,
            scratch.reserved == old(scratch).reserved,
            start.after_all(updates@, limits, index as nat) matches Some(using) && tracks_use(
                scratch,
                bids@,
                asks@,
                bid_count,
                ask_count,
                using,
            ),
        decreases updates@.len() - index,
    {
        let ghost using = start.after_all(updates@, limits, index as nat)->0;
        let kind = updates[index].kind;
        proof {
            assert(updates@[index as int].kind == kind);
            if start.after_all(updates@, limits, (index + 1) as nat) is None {
                start.lemma_first_fault(updates@, limits, (index + 1) as nat, updates@.len());
            }
        }
        match kind {
            CallAuctionMarketDataKind::Book { level, .. } => {
                if let Err(error) = preflight_level(
                    scratch,
                    bids,
                    asks,
                    &mut bid_count,
                    &mut ask_count,
                    level,
                    limits,
                    Ghost(using),
                ) {
                    return Err(error);
                }
            },
            CallAuctionMarketDataKind::Trade { buy, sell, .. } => {
                if let Err(error) = preflight_level(
                    scratch,
                    bids,
                    asks,
                    &mut bid_count,
                    &mut ask_count,
                    buy,
                    limits,
                    Ghost(using),
                ) {
                    return Err(error);
                }
                let ghost halfway = using.with(buy, limits)->0;
                if let Err(error) = preflight_level(
                    scratch,
                    bids,
                    asks,
                    &mut bid_count,
                    &mut ask_count,
                    sell,
                    limits,
                    Ghost(halfway),
                ) {
                    return Err(error);
                }
            },
            _ => {},
        }
        index += 1;
    }
    Ok(())
}

/// Gap-detecting consumer state for one immutable call-auction instrument version.
#[derive(Debug)]
pub struct CallAuctionMarketDataReplica {
    /// Resource policy.
    pub limits: CallAuctionMarketDataLimits,
    /// Immutable instrument definition.
    pub definition: InstrumentDefinition,
    /// Phase and cycle state.
    pub phase: CallAuctionPhaseSnapshot,
    /// Collection-book revision.
    pub book_revision: u64,
    /// Market-constrained buy interest.
    pub market_buy: Aggregate,
    /// Market-constrained sell interest.
    pub market_sell: Aggregate,
    /// Limit bids.
    pub bids: OrderedMap<Price, Aggregate>,
    /// Limit asks.
    pub asks: OrderedMap<Price, Aggregate>,
    /// Bids of a snapshot being applied.
    pub standby_bids: OrderedMap<Price, Aggregate>,
    /// Asks of a snapshot being applied.
    pub standby_asks: OrderedMap<Price, Aggregate>,
    /// Levels named by the batch being checked.
    pub batch_levels: OrderedMap<LevelKey, bool>,
    /// Complete batches applied or restored.
    pub last_command_sequence: u64,
    /// Final applied event sequence.
    pub last_event_sequence: u64,
    /// Final printed trade.
    pub last_trade_id: Option<TradeId>,
    /// What the uncross under way has printed.
    pub cycle: CycleTrace,
    /// Whether a snapshot is required.
    pub poisoned: bool,
}

/// An aggregate that a depth index may hold.
pub open spec fn level_valid(
    definition: InstrumentDefinition,
    entry: (Price, Aggregate),
) -> bool {
    entry.1.quantity > 0 && entry.1.order_count > 0 && definition.price.admits(entry.0)
}

/// A depth index is reserved, ordered and holds valid levels only.
pub open spec fn depth_valid(
    definition: InstrumentDefinition,
    levels: &OrderedMap<Price, Aggregate>,
    maximum: usize,
) -> bool {
    &&& levels.maximum == maximum <= levels.reserved
    &&& levels.wf()
    &&& levels.entries@.len() <= levels.maximum
    &&& forall|i: int|
        0 <= i < levels.entries@.len() ==> level_valid(definition, #[trigger] levels.entries@[i])
}

/// The first fault in the identity and order of the updates from `index` on.
pub open spec fn link_fault(
    definition: InstrumentDefinition,
    updates: Seq<CallAuctionMarketDataUpdate>,
    expected: u64,
    index: int,
) -> Option<CallAuctionMarketDataError>
    decreases updates.len() - index,
{
    if index < 0 || index >= updates.len() {
        None
    } else {
        let update = updates[index];
        if update.instrument_id != definition.instrument_id {
            Some(CallAuctionMarketDataError::WrongInstrument)
        } else if update.instrument_version != definition.version {
            Some(CallAuctionMarketDataError::WrongInstrumentVersion)
        } else if update.sequence != expected {
            Some(CallAuctionMarketDataError::SequenceGap { expected, actual: update.sequence })
        } else if index + 1 >= updates.len() {
            None
        } else if expected == u64::MAX {
            Some(CallAuctionMarketDataError::ArithmeticOverflow)
        } else {
            link_fault(definition, updates, (expected + 1) as u64, index + 1)
        }
    }
}

/// What was reserved for the indexes of a replica; `None` where nothing was.
#[derive(Debug)]
pub struct CallAuctionReplicaStorage {
    /// Active bid depth.
    pub bids: Option<OrderedMap<Price, Aggregate>>,
    /// Active ask depth.
    pub asks: Option<OrderedMap<Price, Aggregate>>,
    /// Standby bid depth.
    pub standby_bids: Option<OrderedMap<Price, Aggregate>>,
    /// Standby ask depth.
    pub standby_asks: Option<OrderedMap<Price, Aggregate>>,
    /// Batch level scratch.
    pub batch_levels: Option<OrderedMap<LevelKey, bool>>,
}

impl CallAuctionReplicaStorage {
    /// Whatever was reserved is empty and has its configured size.
    pub open spec fn sized(&self, limits: CallAuctionMarketDataLimits) -> bool {
        &&& index_reserved(self.bids, limits.max_price_levels_per_side)
        &&& index_reserved(self.asks, limits.max_price_levels_per_side)
        &&& index_reserved(self.standby_bids, limits.max_price_levels_per_side)
        &&& index_reserved(self.standby_asks, limits.max_price_levels_per_side)
        &&& index_reserved(self.batch_levels, limits.max_batch_updates)
    }

    /// The error of the first index for which nothing was reserved.
    pub open spec fn fault(&self, limits: CallAuctionMarketDataLimits) -> Option<
        CallAuctionMarketDataConstructionError,
    > {
        let levels = limits.max_price_levels_per_side;
        if self.bids is None {
            Some(unreserved(CallAuctionMarketDataResource::BidPriceLevels, levels))
        } else if self.asks is None {
            Some(unreserved(CallAuctionMarketDataResource::AskPriceLevels, levels))
        } else if self.standby_bids is None {
            Some(unreserved(CallAuctionMarketDataResource::BidPriceLevels, levels))
        } else if self.standby_asks is None {
            Some(unreserved(CallAuctionMarketDataResource::AskPriceLevels, levels))
        } else if self.batch_levels is None {
            Some(
                unreserved(
                    CallAuctionMarketDataResource::BatchLevelIdentities,
                    limits.max_batch_updates,
                ),
            )
        } else {
            None
        }
    }
}

/// Storage of a replica could not be reserved.
pub open spec fn replica_unreserved(
    limits: CallAuctionMarketDataLimits,
    error: CallAuctionMarketDataConstructionError,
) -> bool {
    let levels = limits.max_price_levels_per_side;
    ||| error == unreserved(CallAuctionMarketDataResource::BidPriceLevels, levels)
    ||| error == unreserved(CallAuctionMarketDataResource::AskPriceLevels, levels)
    ||| error == unreserved(
        CallAuctionMarketDataResource::BatchLevelIdentities,
        limits.max_batch_updates,
    )
}

impl CallAuctionMarketDataReplica {
    /// Public state.
    pub open spec fn public(&self) -> PublicState {
        PublicState {
            book: PublicBook {
                market_buy: self.market_buy,
                market_sell: self.market_sell,
                bids: self.bids@,
                asks: self.asks@,
            },
            phase: self.phase,
            book_revision: self.book_revision,
            last_trade_id: self.last_trade_id,
            trace: self.cycle,
            sequence: self.last_event_sequence,
        }
    }

    /// The indexes are ordered, and the scratch is empty.
    pub open spec fn wf(&self) -> bool {
        &&& self.definition.wf()
        &&& self.bids.wf()
        &&& self.asks.wf()
        &&& self.batch_levels.wf()
        &&& self.batch_levels.entries@.len() == 0
    }

    /// Everything that the audit checks.
    pub open spec fn audited(&self) -> bool {
        let maximum = self.limits.max_price_levels_per_side;
        &&& depth_valid(self.definition, &self.bids, maximum)
        &&& depth_valid(self.definition, &self.asks, maximum)
        &&& depth_valid(self.definition, &self.standby_bids, maximum)
        &&& depth_valid(self.definition, &self.standby_asks, maximum)
        &&& self.batch_levels.maximum == self.limits.max_batch_updates
            <= self.batch_levels.reserved
        &&& self.batch_levels.wf()
        &&& self.batch_levels.entries@.len() == 0
        &&& self.market_buy.shaped()
        &&& self.market_sell.shaped()
        &&& self.last_command_sequence <= self.last_event_sequence
        &&& self.book_revision <= self.last_event_sequence
        &&& self.last_trade_id matches Some(id) ==> id.value <= self.last_event_sequence
        &&& phase_feasible(self.phase, self.last_event_sequence)
    }

    /// Limits, definition, standby depth and capacities are unchanged.
    pub open spec fn same_frame(&self, old: &Self) -> bool {
        &&& self.limits == old.limits
        &&& self.definition == old.definition
        &&& self.standby_bids == old.standby_bids
        &&& self.standby_asks == old.standby_asks
        &&& self.bids.maximum == old.bids.maximum
        &&& self.bids.reserved == old.bids.reserved
        &&& self.asks.maximum == old.asks.maximum
        &&& self.asks.reserved == old.asks.reserved
        &&& self.batch_levels.maximum == old.batch_levels.maximum
        &&& self.batch_levels.reserved == old.batch_levels.reserved
    }

    /// Nothing but the contents of the empty scratch index may differ.
    pub open spec fn unchanged(&self, old: &Self) -> bool {
        &&& self.same_frame(old)
        &&& self.public() == old.public()
        &&& self.last_command_sequence == old.last_command_sequence
        &&& self.poisoned == old.poisoned
    }

    /// Nothing has been applied yet.
    pub open spec fn is_fresh(
        &self,
        definition: InstrumentDefinition,
        limits: CallAuctionMarketDataLimits,
    ) -> bool {
        &&& self.wf()
        &&& self.audited()
        &&& !self.poisoned
        &&& self.definition == definition
        &&& self.limits == limits
        &&& self.last_command_sequence == 0
        &&& self.public() == empty_public()
    }

    /// Creates an empty replica from what was reserved for its indexes, or names
    /// the first index for which nothing was.
    pub fn from_storage(
        definition: InstrumentDefinition,
        limits: CallAuctionMarketDataLimits,
        storage: CallAuctionReplicaStorage,
    ) -> (r: Result<Self, CallAuctionMarketDataConstructionError>)
        requires
            definition.wf(),
            limits.wf(),
            storage.sized(limits),
        ensures
            match r {
                Ok(replica) => storage.fault(limits) is None && replica.is_fresh(
                    definition,
                    limits,
                ),
                Err(error) => storage.fault(limits) == Some(error),
            },
    {
        let maximum: usize = limits.max_price_levels_per_side();
        let bids = match named_index(
            storage.bids,
            maximum,
            CallAuctionMarketDataResource::BidPriceLevels,
        ) {
            Ok(map) => map,
            Err(error) => {
                return Err(error);
            },
        };
        let asks = match named_index(
            storage.asks,
            maximum,
            CallAuctionMarketDataResource::AskPriceLevels,
        ) {
            Ok(map) => map,
            Err(error) => {
                return Err(error);
            },
        };
        let standby_bids = match named_index(
            storage.standby_bids,
            maximum,
            CallAuctionMarketDataResource::BidPriceLevels,
        ) {
            Ok(map) => map,
            Err(error) => {
                return Err(error);
            },
        };
        let standby_asks = match named_index(
            storage.standby_asks,
            maximum,
            CallAuctionMarketDataResource::AskPriceLevels,
        ) {
            Ok(map) => map,
            Err(error) => {
                return Err(error);
            },
        };
        let batch_levels = match named_index(
            storage.batch_levels,
            limits.max_batch_updates(),
            CallAuctionMarketDataResource::BatchLevelIdentities,
        ) {
            Ok(map) => map,
            Err(error) => {
                return Err(error);
            },
        };
        Ok(
            CallAuctionMarketDataReplica {
                limits,
                definition,
                phase: CallAuctionPhaseSnapshot::default(),
                book_revision: 0,
                market_buy: Aggregate::empty(),
                market_sell: Aggregate::empty(),
                bids,
                asks,
                standby_bids,
                standby_asks,
                batch_levels,
                last_command_sequence: 0,
                last_event_sequence: 0,
                last_trade_id: None,
                cycle: CycleTrace::empty(),
                poisoned: false,
            },
        )
    }

    /// Fallibly constructs a finite, double-buffered replica state machine.
    ///
    /// Valid limits fail only for want of storage; `from_storage` says which
    /// error that is.
    pub fn try_with_limits(definition: InstrumentDefinition, spec: CallAuctionMarketDataLimitsSpec)
        -> (r: Result<Self, CallAuctionMarketDataConstructionError>)
        requires
            definition.wf(),
        ensures
            ({
                let limits = CallAuctionMarketDataLimits {
                    max_active_orders: spec.max_active_orders,
                    max_price_levels_per_side: spec.max_price_levels_per_side,
                    max_batch_updates: spec.max_batch_updates,
                };
                match market_data_limits_fault(spec) {
                    Some(fault) => r == Err::<Self, _>(
                        CallAuctionMarketDataConstructionError::InvalidLimits(fault),
                    ),
                    None => {
                        &&& limits.wf()
                        &&& unrepresentable::<(Price, Aggregate)>(
                            spec.max_price_levels_per_side as int,
                        ) ==> r == Err::<Self, _>(
                            unreserved(
                                CallAuctionMarketDataResource::BidPriceLevels,
                                spec.max_price_levels_per_side,
                            ),
                        )
                        &&& match r {
                            Ok(replica) => replica.is_fresh(definition, limits),
                            Err(error) => replica_unreserved(limits, error),
                        }
                    },
                }
            }),
    {
        let limits = match CallAuctionMarketDataLimits::new(spec) {
            Ok(limits) => limits,
            Err(error) => {
                return Err(CallAuctionMarketDataConstructionError::InvalidLimits(error));
            },
        };
        let maximum: usize = limits.max_price_levels_per_side();
        Self::from_storage(
            definition,
            limits,
            CallAuctionReplicaStorage {
                bids: OrderedMap::try_with_capacity(maximum),
                asks: OrderedMap::try_with_capacity(maximum),
                standby_bids: OrderedMap::try_with_capacity(maximum),
                standby_asks: OrderedMap::try_with_capacity(maximum),
                batch_levels: OrderedMap::try_with_capacity(limits.max_batch_updates()),
            },
        )
    }

    /// Creates an empty consumer under default limits, unless its fixed storage
    /// cannot be reserved.
    pub fn new(definition: InstrumentDefinition) -> (r: Result<
        Self,
        CallAuctionMarketDataConstructionError,
    >)
        requires
            definition.wf(),
        ensures
            ({
                let limits = CallAuctionMarketDataLimits {
                    max_active_orders: 4_096,
                    max_price_levels_per_side: 4_096,
                    max_batch_updates: 8_193,
                };
                match r {
                    Ok(replica) => replica.is_fresh(definition, limits),
                    Err(error) => replica_unreserved(limits, error),
                }
            }),
    {
        Self::try_with_limits(definition, CallAuctionMarketDataLimitsSpec::default())
    }

    /// Returns this replica's immutable finite resource envelope.
    #[must_use]
    pub fn limits(&self) -> (r: CallAuctionMarketDataLimits)
        ensures
            r == self.limits,
    {
        self.limits
    }

    /// Returns active limit-price storage telemetry for one side.
    #[must_use]
    pub fn price_level_arena_status(&self, side: Side) -> (r: CallAuctionMarketDataArenaStatus)
        ensures
            ({
                let levels = match side {
                    Side::Buy => self.bids,
                    Side::Sell => self.asks,
                };
                r == arena_of(&levels)
            }),
    {
        match side {
            Side::Buy => arena_status(&self.bids),
            Side::Sell => arena_status(&self.asks),
        }
    }

    /// Returns standby snapshot-storage telemetry for one side.
    #[must_use]
    pub fn standby_price_level_arena_status(&self, side: Side) -> (r:
        CallAuctionMarketDataArenaStatus)
        ensures
            ({
                let levels = match side {
                    Side::Buy => self.standby_bids,
                    Side::Sell => self.standby_asks,
                };
                r == arena_of(&levels)
            }),
    {
        match side {
            Side::Buy => arena_status(&self.standby_bids),
            Side::Sell => arena_status(&self.standby_asks),
        }
    }

    /// Returns the fixed batch-capacity scratch telemetry.
    #[must_use]
    pub fn batch_level_hash_status(&self) -> (r: CallAuctionMarketDataHashIndexStatus)
        ensures
            r == (CallAuctionMarketDataHashIndexStatus {
                configured_entries: self.batch_levels.maximum,
                allocated_entries: self.batch_levels.reserved,
                occupied_entries: self.batch_levels.entries@.len() as usize,
            }),
    {
        index_status(&self.batch_levels)
    }

    /// Returns active market-constrained quantity on one side in lots.
    #[must_use]
    pub fn market_quantity(&self, side: Side) -> (r: u128)
        ensures
            r == self.public().book.at(side, AuctionOrderConstraint::Market).quantity,
    {
        match side {
            Side::Buy => self.market_buy.quantity,
            Side::Sell => self.market_sell.quantity,
        }
    }

    /// Returns active market-constrained order count on one side.
    #[must_use]
    pub fn market_order_count(&self, side: Side) -> (r: u64)
        ensures
            r == self.public().book.at(side, AuctionOrderConstraint::Market).order_count,
    {
        match side {
            Side::Buy => self.market_buy.order_count,
            Side::Sell => self.market_sell.order_count,
        }
    }

    /// Returns effective phase and cycle state.
    #[must_use]
    pub fn phase(&self) -> (r: CallAuctionPhaseSnapshot)
        ensures
            r == self.phase,
    {
        self.phase
    }

    /// Returns the final applied event sequence.
    #[must_use]
    pub fn last_sequence(&self) -> (r: u64)
        ensures
            r == self.last_event_sequence,
    {
        self.last_event_sequence
    }

    /// Returns the number of complete batches applied or snapshot-restored.
    #[must_use]
    pub fn last_command_sequence(&self) -> (r: u64)
        ensures
            r == self.last_command_sequence,
    {
        self.last_command_sequence
    }

    /// Returns the authoritative collection-book revision.
    #[must_use]
    pub fn book_revision(&self) -> (r: u64)
        ensures
            r == self.book_revision,
    {
        self.book_revision
    }

    /// Returns whether a new snapshot is required after invalid incremental state.
    #[must_use]
    pub fn is_poisoned(&self) -> (r: bool)
        ensures
            r == self.poisoned,
    {
        self.poisoned
    }

    fn aggregate(&self, side: Side, constraint: AuctionOrderConstraint) -> (r: Aggregate)
        requires
            self.wf(),
        ensures
            r == self.public().book.at(side, constraint),
    {
        match (side, constraint) {
            (Side::Buy, AuctionOrderConstraint::Market) => self.market_buy,
            (Side::Sell, AuctionOrderConstraint::Market) => self.market_sell,
            (Side::Buy, AuctionOrderConstraint::Limit(price)) => match self.bids.get(price) {
                Some(aggregate) => aggregate,
                None => Aggregate::empty(),
            },
            (Side::Sell, AuctionOrderConstraint::Limit(price)) => match self.asks.get(price) {
                Some(aggregate) => aggregate,
                None => Aggregate::empty(),
            },
        }
    }

    fn set_level(&mut self, level: CallAuctionMarketDataLevel) -> (r: Result<
        (),
        CallAuctionMarketDataError,
    >)
        requires
            old(self).wf(),
        ensures
            final(self).wf(),
            final(self).same_frame(old(self)),
            final(self).last_command_sequence == old(self).last_command_sequence,
            final(self).poisoned == old(self).poisoned,
            match r {
                Ok(_) => {
                    &&& old(self).public().book.holds(
                        level,
                        old(self).limits.max_price_levels_per_side,
                    )
                    &&& final(self).public() == (PublicState {
                        book: old(self).public().book.set(level),
                        ..old(self).public()
                    })
                },
                Err(error) => {
                    &&& error == level_excess(
                        level.side,
                        old(self).public().book.depth(level.side),
                        old(self).limits.max_price_levels_per_side,
                    )
                    &&& !old(self).public().book.holds(
                        level,
                        old(self).limits.max_price_levels_per_side,
                    )
                },
            },
    {
        let aggregate = aggregate_from_level(level);
        match (level.side, level.constraint) {
            (Side::Buy, AuctionOrderConstraint::Market) => {
                self.market_buy = aggregate;
            },
            (Side::Sell, AuctionOrderConstraint::Market) => {
                self.market_sell = aggregate;
            },
            (Side::Buy, AuctionOrderConstraint::Limit(price)) => {
                let maximum: usize = self.limits.max_price_levels_per_side;
                return set_bounded_limit_level(
                    &mut self.bids,
                    Side::Buy,
                    price,
                    aggregate,
                    maximum,
                );
            },
            (Side::Sell, AuctionOrderConstraint::Limit(price)) => {
                let maximum: usize = self.limits.max_price_levels_per_side;
                return set_bounded_limit_level(
                    &mut self.asks,
                    Side::Sell,
                    price,
                    aggregate,
                    maximum,
                );
            },
        }
        Ok(())
    }

    fn validate_level_price(&self, level: CallAuctionMarketDataLevel) -> (r: Result<
        (),
        CallAuctionMarketDataError,
    >)
        requires
            self.definition.wf(),
        ensures
            match r {
                Ok(_) => price_admitted(self.definition, level.constraint),
                Err(error) => !price_admitted(self.definition, level.constraint)
                    && error.refutes_update(price_text()),
            },
    {
        if let AuctionOrderConstraint::Limit(price) = level.constraint {
            if self.definition.price_rules().validate(price).is_err() {
                return Err(
                    CallAuctionMarketDataError::InvalidUpdate(
                        "auction market-data limit is off grid or outside the collar",
                    ),
                );
            }
        }
        Ok(())
    }

    fn validate_trade_transition(
        &self,
        print: CallAuctionTradePrint,
        next: CallAuctionMarketDataLevel,
    ) -> (r: Result<(), CallAuctionMarketDataError>)
        requires
            self.wf(),
        ensures
            match r {
                Ok(_) => trade_reconciles(
                    self.public().book.at(next.side, next.constraint),
                    print,
                    next,
                ),
                Err(error) => !trade_reconciles(
                    self.public().book.at(next.side, next.constraint),
                    print,
                    next,
                ) && error.refutes_update(
                    trade_text(self.public().book.at(next.side, next.constraint), print),
                ),
            },
    {
        let previous = self.aggregate(next.side, next.constraint);
        if previous == Aggregate::empty() {
            return Err(
                CallAuctionMarketDataError::InvalidUpdate(
                    "auction trade references an absent public aggregate",
                ),
            );
        }
        let expected_quantity: u128 = match previous.quantity.checked_sub(
            print.quantity.lots as u128,
        ) {
            Some(quantity) => quantity,
            None => {
                return Err(
                    CallAuctionMarketDataError::InvalidUpdate(
                        "auction trade exceeds a public aggregate",
                    ),
                );
            },
        };
        let retained: bool = next.order_count == previous.order_count;
        let removed: bool = match previous.order_count.checked_sub(1) {
            Some(count) => next.order_count == count,
            None => false,
        };
        if next.quantity != expected_quantity || (!retained && !removed) {
            return Err(
                CallAuctionMarketDataError::InvalidUpdate(
                    "auction trade does not reconcile to its aggregate transition",
                ),
            );
        }
        Ok(())
    }

    fn validate_book_transition(
        &self,
        reason: CallAuctionBookChangeReason,
        quantity: Quantity,
        next: CallAuctionMarketDataLevel,
    ) -> (r: Result<(), CallAuctionMarketDataError>)
        requires
            self.wf(),
        ensures
            match r {
                Ok(_) => book_reconciles(
                    self.public().book.at(next.side, next.constraint),
                    reason,
                    quantity,
                    next,
                ),
                Err(error) => !book_reconciles(
                    self.public().book.at(next.side, next.constraint),
                    reason,
                    quantity,
                    next,
                ) && book_refused(
                    self.public().book.at(next.side, next.constraint),
                    reason,
                    quantity,
                    error,
                ),
            },
    {
        let previous = self.aggregate(next.side, next.constraint);
        let changed: u128 = quantity.lots as u128;
        let expected_quantity: u128;
        let expected_count: u64;
        match reason {
            CallAuctionBookChangeReason::Accepted => {
                match (previous.quantity.checked_add(changed), previous.order_count.checked_add(1)) {
                    (Some(total), Some(count)) => {
                        expected_quantity = total;
                        expected_count = count;
                    },
                    _ => {
                        return Err(CallAuctionMarketDataError::ArithmeticOverflow);
                    },
                }
            },
            CallAuctionBookChangeReason::Amended => match previous.quantity.checked_sub(changed) {
                Some(left) => {
                    expected_quantity = left;
                    expected_count = previous.order_count;
                },
                None => {
                    return Err(
                        CallAuctionMarketDataError::InvalidUpdate(
                            "auction amendment exceeds its public aggregate",
                        ),
                    );
                },
            },
            _ => {
                match previous.quantity.checked_sub(changed) {
                    Some(left) => {
                        expected_quantity = left;
                    },
                    None => {
                        return Err(
                            CallAuctionMarketDataError::InvalidUpdate(
                                "auction book removal exceeds its public aggregate",
                            ),
                        );
                    },
                }
                match previous.order_count.checked_sub(1) {
                    Some(count) => {
                        expected_count = count;
                    },
                    None => {
                        return Err(
                            CallAuctionMarketDataError::InvalidUpdate(
                                "auction book removal references an empty public aggregate",
                            ),
                        );
                    },
                }
            },
        }
        if next.quantity != expected_quantity || next.order_count != expected_count {
            return Err(
                CallAuctionMarketDataError::InvalidUpdate(
                    "auction book change does not reconcile to its quantity and absolute aggregate",
                ),
            );
        }
        Ok(())
    }

    fn revise_book(&mut self) -> (r: Result<(), CallAuctionMarketDataError>)
        ensures
            match r {
                Ok(_) => {
                    &&& old(self).book_revision < u64::MAX
                    &&& *final(self) == (CallAuctionMarketDataReplica {
                        book_revision: (old(self).book_revision + 1) as u64,
                        ..*old(self)
                    })
                },
                Err(error) => error is ArithmeticOverflow && old(self).book_revision == u64::MAX
                    && *final(self) == *old(self),
            },
    {
        match self.book_revision.checked_add(1) {
            Some(revision) => {
                self.book_revision = revision;
                Ok(())
            },
            None => Err(CallAuctionMarketDataError::ArithmeticOverflow),
        }
    }

    /// Applies one book change.
    fn apply_book(
        &mut self,
        reason: CallAuctionBookChangeReason,
        quantity: Quantity,
        level: CallAuctionMarketDataLevel,
    ) -> (r: Result<(), CallAuctionMarketDataError>)
        requires
            old(self).wf(),
        ensures
            final(self).wf(),
            final(self).same_frame(old(self)),
            final(self).last_command_sequence == old(self).last_command_sequence,
            final(self).poisoned == old(self).poisoned,
            ({
                let next = old(self).public().changed(
                    old(self).definition,
                    old(self).limits.max_price_levels_per_side,
                    reason,
                    quantity,
                    level,
                );
                match r {
                    Ok(_) => next == Some(final(self).public()),
                    Err(error) => next is None && old(self).public().change_refused(
                        old(self).definition,
                        old(self).limits.max_price_levels_per_side,
                        reason,
                        quantity,
                        level,
                        error,
                    ),
                }
            }),
    {
        if let Err(error) = self.validate_level_price(level) {
            return Err(error);
        }
        if let Err(error) = self.validate_book_transition(reason, quantity, level) {
            return Err(error);
        }
        let phase = self.phase.phase;
        match reason {
            CallAuctionBookChangeReason::Accepted => {
                if phase != CallAuctionPhase::Collecting {
                    return Err(
                        CallAuctionMarketDataError::InvalidUpdate(
                            "accepted public interest outside collection",
                        ),
                    );
                }
                if let Err(error) = self.revise_book() {
                    return Err(error);
                }
            },
            CallAuctionBookChangeReason::UserCancelled => {
                if let Err(error) = self.revise_book() {
                    return Err(error);
                }
            },
            CallAuctionBookChangeReason::Replaced => {
                if phase != CallAuctionPhase::Collecting {
                    return Err(
                        CallAuctionMarketDataError::InvalidUpdate(
                            "replacement cancellation occurred outside collection",
                        ),
                    );
                }
            },
            CallAuctionBookChangeReason::MassCancelled => {},
            CallAuctionBookChangeReason::Amended => {
                if phase != CallAuctionPhase::Collecting {
                    return Err(
                        CallAuctionMarketDataError::InvalidUpdate(
                            "auction amendment occurred outside collection",
                        ),
                    );
                }
                if let Err(error) = self.revise_book() {
                    return Err(error);
                }
            },
            CallAuctionBookChangeReason::UncrossRemainder => {
                if phase != CallAuctionPhase::Frozen {
                    return Err(
                        CallAuctionMarketDataError::InvalidUpdate(
                            "uncross remainder occurred outside the frozen phase",
                        ),
                    );
                }
                match self.cycle.add_removal() {
                    Some(cycle) => {
                        self.cycle = cycle;
                    },
                    None => {
                        return Err(CallAuctionMarketDataError::ArithmeticOverflow);
                    },
                }
            },
        }
        self.set_level(level)
    }

    /// Applies one trade print.
    fn apply_trade(
        &mut self,
        print: CallAuctionTradePrint,
        buy: CallAuctionMarketDataLevel,
        sell: CallAuctionMarketDataLevel,
    ) -> (r: Result<(), CallAuctionMarketDataError>)
        requires
            old(self).wf(),
        ensures
            final(self).wf(),
            final(self).same_frame(old(self)),
            final(self).last_command_sequence == old(self).last_command_sequence,
            final(self).poisoned == old(self).poisoned,
            ({
                let next = old(self).public().traded(
                    old(self).definition,
                    old(self).limits.max_price_levels_per_side,
                    print,
                    buy,
                    sell,
                );
                match r {
                    Ok(_) => next == Some(final(self).public()),
                    Err(error) => next is None && old(self).public().trade_refused(
                        old(self).definition,
                        old(self).limits.max_price_levels_per_side,
                        print,
                        buy,
                        sell,
                        error,
                    ),
                }
            }),
    {
        if self.phase.phase != CallAuctionPhase::Frozen || self.phase.active_auction_id != Some(
            print.auction_id,
        ) || buy.side != Side::Buy || sell.side != Side::Sell {
            return Err(
                CallAuctionMarketDataError::InvalidUpdate(
                    "auction trade contradicts phase or side context",
                ),
            );
        }
        if let Err(error) = self.validate_level_price(buy) {
            return Err(error);
        }
        if let Err(error) = self.validate_level_price(sell) {
            return Err(error);
        }
        if let Err(error) = self.validate_trade_transition(print, buy) {
            return Err(error);
        }
        if let Err(error) = self.validate_trade_transition(print, sell) {
            return Err(error);
        }
        let expected: u64 = match self.last_trade_id {
            Some(previous) => match previous.value.checked_add(1) {
                Some(value) => value,
                None => {
                    return Err(CallAuctionMarketDataError::ArithmeticOverflow);
                },
            },
            None => 1,
        };
        if print.trade_id.value != expected {
            return Err(
                CallAuctionMarketDataError::InvalidUpdate(
                    "auction trade identifier is not contiguous",
                ),
            );
        }
        self.last_trade_id = Some(print.trade_id);
        if let Err(error) = self.set_level(buy) {
            return Err(error);
        }
        if let Err(error) = self.set_level(sell) {
            return Err(error);
        }
        match self.cycle.add_trade(print.price, print.quantity.lots) {
            Some(cycle) => {
                self.cycle = cycle;
                Ok(())
            },
            None => {
                if !self.cycle.can_count(print.quantity.lots) {
                    return Err(CallAuctionMarketDataError::ArithmeticOverflow);
                }
                Err(
                    CallAuctionMarketDataError::InvalidUpdate(
                        "one auction cycle printed multiple prices",
                    ),
                )
            },
        }
    }

    /// Applies one update whose identity and order were checked.
    pub(crate) fn apply_verified(&mut self, update: CallAuctionMarketDataUpdate) -> (r: Result<
        (),
        CallAuctionMarketDataError,
    >)
        requires
            old(self).wf(),
        ensures
            final(self).wf(),
            final(self).same_frame(old(self)),
            final(self).last_command_sequence == old(self).last_command_sequence,
            final(self).poisoned == old(self).poisoned,
            ({
                let next = old(self).public().after(
                    old(self).definition,
                    old(self).limits.max_price_levels_per_side,
                    update,
                );
                match r {
                    Ok(_) => next == Some(final(self).public()),
                    Err(error) => next is None && old(self).public().refused(
                        old(self).definition,
                        old(self).limits.max_price_levels_per_side,
                        update,
                        error,
                    ),
                }
            }),
    {
        if let Err(error) = validate_update_kind(update.sequence, update.kind) {
            return Err(error);
        }
        match update.kind {
            CallAuctionMarketDataKind::NoPublicChange => {},
            CallAuctionMarketDataKind::Book { reason, quantity, level } => {
                if let Err(error) = self.apply_book(reason, quantity, level) {
                    return Err(error);
                }
            },
            CallAuctionMarketDataKind::Trade { print, buy, sell } => {
                if let Err(error) = self.apply_trade(print, buy, sell) {
                    return Err(error);
                }
            },
            CallAuctionMarketDataKind::PhaseChanged { auction_id, previous, current, revision } => {
                if self.phase.revision == u64::MAX {
                    return Err(CallAuctionMarketDataError::ArithmeticOverflow);
                }
                if self.phase.phase != previous || self.phase.revision.checked_add(1) != Some(
                    revision,
                ) {
                    return Err(
                        CallAuctionMarketDataError::InvalidUpdate(
                            "auction phase update is not the next transition",
                        ),
                    );
                }
                match transition_cycle(self.phase, auction_id, previous, current) {
                    Ok((active, last)) => {
                        self.phase =
                        CallAuctionPhaseSnapshot::from_parts(current, revision, active, last);
                    },
                    Err(error) => {
                        return Err(error);
                    },
                }
                if current == CallAuctionPhase::Collecting {
                    self.cycle = CycleTrace::empty();
                }
            },
            CallAuctionMarketDataKind::UncrossCompleted {
                auction_id,
                clearing,
                trade_count,
                cancellation_count,
                book_revision,
                phase_revision,
            } => {
                if self.book_revision == u64::MAX || self.phase.revision == u64::MAX {
                    return Err(CallAuctionMarketDataError::ArithmeticOverflow);
                }
                let printed = CycleTrace {
                    trade_count,
                    cancellation_count,
                    executed_quantity: clearing.executable_quantity,
                    price: Some(clearing.price),
                };
                if self.phase.phase != CallAuctionPhase::Frozen || self.phase.active_auction_id
                    != Some(auction_id) || self.cycle != printed || self.book_revision.checked_add(
                    1,
                ) != Some(book_revision) || self.phase.revision.checked_add(1) != Some(
                    phase_revision,
                ) {
                    return Err(
                        CallAuctionMarketDataError::InvalidUpdate(
                            "auction completion does not reconcile to its incremental trace",
                        ),
                    );
                }
                self.book_revision = book_revision;
                self.phase =
                CallAuctionPhaseSnapshot::from_parts(
                    CallAuctionPhase::Closed,
                    phase_revision,
                    None,
                    Some(auction_id),
                );
                self.cycle = CycleTrace::empty();
            },
            CallAuctionMarketDataKind::MassCancelCompleted {
                cancelled_order_count,
                book_revision,
                ..
            } => {
                let expected: Option<u64> = if cancelled_order_count == 0 {
                    Some(self.book_revision)
                } else {
                    self.book_revision.checked_add(1)
                };
                if expected.is_none() {
                    return Err(CallAuctionMarketDataError::ArithmeticOverflow);
                }
                if expected != Some(book_revision) {
                    return Err(
                        CallAuctionMarketDataError::InvalidUpdate(
                            "auction mass-cancel completion has an invalid book revision",
                        ),
                    );
                }
                self.book_revision = book_revision;
            },
        }
        self.last_event_sequence = update.sequence;
        Ok(())
    }
}

/// Public state before the first event.
pub open spec fn empty_public() -> PublicState {
    PublicState {
        book: PublicBook {
            market_buy: Aggregate::none(),
            market_sell: Aggregate::none(),
            bids: Map::empty(),
            asks: Map::empty(),
        },
        phase: CallAuctionPhaseSnapshot::genesis(),
        book_revision: 0,
        last_trade_id: None,
        trace: CycleTrace::none(),
        sequence: 0,
    }
}

} // verus!
