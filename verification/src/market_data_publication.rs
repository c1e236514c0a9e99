//! Construction, publication, snapshots and audit of a market-data publisher.

use vstd::prelude::*;

use crate::auction::AuctionOrderConstraint;
use crate::auction_engine::CallAuctionEngine;
use crate::book_lemmas::lemma_queue_spells;
use crate::book_queries::level_snapshot;
use crate::book_state::{
    in_queue, leaves, queue_ids, AuctionQueue, CallAuctionBook, RestingAuctionOrder,
};
use crate::chain::lemma_sum_bounds;
use crate::domain::{OrderId, Price, Side, TradeId};
use crate::engine_types::{
    CallAuctionCommand, CallAuctionCommandOutcome, CallAuctionEngineLimits, CallAuctionEvent,
    CallAuctionEventKind, CallAuctionExecutionReport,
};
use crate::market_data_publisher::CallAuctionMarketDataPublisher;
use crate::market_data_state::{
    level_from_aggregate, named_index, unreserved, Aggregate, CycleTrace, Depth, PublicBook,
};
use crate::market_data_types::{
    level_shape_text, market_data_limits_fault, CallAuctionMarketDataBatch,
    CallAuctionMarketDataConstructionError, CallAuctionMarketDataError, CallAuctionMarketDataKind,
    CallAuctionMarketDataLevel, CallAuctionMarketDataLimits, CallAuctionMarketDataLimitsSpec,
    CallAuctionMarketDataResource, CallAuctionMarketDataSnapshot, CallAuctionMarketDataUpdate,
};
use crate::ordered_map::{index_reserved, MapKey, OrderedMap};
use crate::publisher_model::{
    mass_start, uncross_start, MassCancelProgress, PublisherState, TrackedOrder, UncrossProgress,
};
use crate::storage::{try_reserve, unrepresentable};

verus! {

/// The aggregate of a queue.
pub open spec fn queue_aggregate(queue: AuctionQueue) -> Aggregate {
    Aggregate { quantity: queue.total_quantity, order_count: queue.order_count }
}

/// Depth of the limit queues of one side.
pub open spec fn queue_depth(levels: Map<Price, AuctionQueue>) -> Depth {
    levels.map_values(|queue: AuctionQueue| queue_aggregate(queue))
}

/// Public interest of a collection book.
pub open spec fn book_public(book: &CallAuctionBook) -> PublicBook {
    PublicBook {
        market_buy: queue_aggregate(book.market_buys),
        market_sell: queue_aggregate(book.market_sells),
        bids: queue_depth(book.bids@),
        asks: queue_depth(book.asks@),
    }
}

/// What the publisher keeps of the active orders of a collection book.
pub open spec fn book_orders(book: &CallAuctionBook) -> Map<OrderId, TrackedOrder> {
    book.orders@.map_values(|order: RestingAuctionOrder| TrackedOrder::of(order.visible()))
}

/// The final trade before the next one.
pub open spec fn trade_before(next_trade_id: u64) -> Option<TradeId> {
    if next_trade_id <= 1 {
        None
    } else {
        Some(TradeId { value: (next_trade_id - 1) as u64 })
    }
}

/// The first resource of which a publisher has less than its engine.
pub open spec fn source_limits_fault(
    selected: CallAuctionMarketDataLimits,
    source: CallAuctionEngineLimits,
) -> Option<CallAuctionMarketDataConstructionError> {
    if selected.max_active_orders < source.book.active_orders {
        Some(
            CallAuctionMarketDataConstructionError::LimitsBelowSource {
                resource: CallAuctionMarketDataResource::TrackedOrders,
                selected: selected.max_active_orders,
                required: source.book.active_orders,
            },
        )
    } else if selected.max_price_levels_per_side < source.book.price_levels_per_side {
        Some(
            CallAuctionMarketDataConstructionError::LimitsBelowSource {
                resource: CallAuctionMarketDataResource::BidPriceLevels,
                selected: selected.max_price_levels_per_side,
                required: source.book.price_levels_per_side,
            },
        )
    } else if selected.max_batch_updates < source.report_events {
        Some(
            CallAuctionMarketDataConstructionError::LimitsBelowSource {
                resource: CallAuctionMarketDataResource::BatchUpdates,
                selected: selected.max_batch_updates,
                required: source.report_events,
            },
        )
    } else {
        None
    }
}

/// A map mirrors another when it has as many entries and the mapped value of
/// every entry of the other.
proof fn lemma_mirror<K: MapKey, V: Copy, W: Copy>(
    mirror: &OrderedMap<K, W>,
    source: &OrderedMap<K, V>,
    f: spec_fn(V) -> W,
)
    requires
        mirror.wf(),
        source.wf(),
    ensures
        mirror@ == source@.map_values(f) <==> {
            &&& mirror.entries@.len() == source.entries@.len()
            &&& forall|i: int|
                0 <= i < source.entries@.len() ==> mirror@.dom().contains(
                    (#[trigger] source.entries@[i]).0,
                ) && mirror@[source.entries@[i].0] == f(source.entries@[i].1)
        },
{
    mirror.lemma_view();
    source.lemma_view();
    let image = source@.map_values(f);
    assert(image.dom() =~= source@.dom());
    if mirror.entries@.len() == source.entries@.len() && forall|i: int|
        0 <= i < source.entries@.len() ==> mirror@.dom().contains(
            (#[trigger] source.entries@[i]).0,
        ) && mirror@[source.entries@[i].0] == f(source.entries@[i].1) {
        assert forall|key: K| image.dom().contains(key) implies #[trigger] mirror@.dom().contains(
            key,
        ) by {
            let i = choose|i: int|
                0 <= i < source.entries@.len() && (#[trigger] source.entries@[i]).0 == key;
        }
        vstd::set_lib::lemma_subset_equality(image.dom(), mirror@.dom());
        assert forall|key: K| image.dom().contains(key) implies mirror@[key] == #[trigger] image[key] by {
            let i = choose|i: int|
                0 <= i < source.entries@.len() && (#[trigger] source.entries@[i]).0 == key;
        }
        assert(mirror@ =~= image);
    }
    if mirror@ == image {
        assert forall|i: int| 0 <= i < source.entries@.len() implies mirror@.dom().contains(
            (#[trigger] source.entries@[i]).0,
        ) && mirror@[source.entries@[i].0] == f(source.entries@[i].1) by {
            assert(source@.dom().contains(source.entries@[i].0));
        }
    }
}

/// Every queue of a book has lots exactly when it has orders.
pub proof fn lemma_queue_shaped(
    book: &CallAuctionBook,
    side: Side,
    constraint: AuctionOrderConstraint,
)
    requires
        book.wf(),
    ensures
        queue_aggregate(book.queue_of(side, constraint)).shaped(),
{
    let queue = book.queue_of(side, constraint);
    let ids = queue_ids(book.orders@, queue);
    lemma_queue_spells(book.orders@, queue, side, constraint);
    let amounts = leaves(book.orders@);
    if ids.len() > 0 {
        assert forall|i: int| 0 <= i < ids.len() implies amounts.dom().contains(
            #[trigger] ids[i],
        ) && amounts[ids[i]] > 0 by {
            assert(in_queue(book.orders@, ids[i], side, constraint));
            assert(book.order_ok(ids[i]));
        }
        lemma_sum_bounds(amounts, ids, 0);
    }
}

impl CallAuctionMarketDataPublisher {
    /// Nothing of a command is under way.
    pub open spec fn at_rest(&self) -> bool {
        &&& self.uncross == uncross_start()
        &&& self.mass_cancel == mass_start()
        &&& self.uncross_sources.entries@.len() == 0
    }

    /// The publisher mirrors an engine.
    pub open spec fn mirrors(&self, engine: &CallAuctionEngine) -> bool {
        &&& engine.book.definition.instrument_id == self.instrument_id
        &&& engine.book.definition.version == self.instrument_version
        &&& engine.next_command_sequence == self.last_command_sequence + 1
        &&& engine.next_event_sequence == self.last_event_sequence + 1
        &&& engine.book.next_trade_id > 0
        &&& self.last_trade_id == trade_before(engine.book.next_trade_id)
        &&& self.phase == engine.phase_state()
        &&& self.book_revision == engine.book.state_revision
        &&& self.state().orders == book_orders(&engine.book)
        &&& self.state().book == book_public(&engine.book)
    }

    /// Every level of an index is occupied.
    pub open spec fn levels_occupied(levels: &OrderedMap<Price, Aggregate>) -> bool {
        forall|i: int|
            0 <= i < levels.entries@.len() ==> (#[trigger] levels.entries@[i]).1.quantity > 0
                && levels.entries@[i].1.order_count > 0
    }

    /// Every fixed layout agrees with the limits, and no level is empty.
    pub open spec fn layout_ok(&self) -> bool {
        let maximum = self.limits.max_price_levels_per_side;
        &&& self.bids.maximum == maximum <= self.bids.reserved
        &&& self.asks.maximum == maximum <= self.asks.reserved
        &&& self.orders.maximum == self.limits.max_active_orders <= self.orders.reserved
        &&& self.uncross_sources.maximum == self.limits.max_active_orders
            <= self.uncross_sources.reserved
        &&& self.uncross_sources.entries@.len() == 0
        &&& self.wf()
        &&& self.bids.entries@.len() <= self.bids.maximum
        &&& self.asks.entries@.len() <= self.asks.maximum
        &&& self.orders.entries@.len() <= self.orders.maximum
        &&& Self::levels_occupied(&self.bids)
        &&& Self::levels_occupied(&self.asks)
    }

    /// The first fixed layout that disagrees with the limits.
    pub open spec fn layout_fault(&self) -> Option<Seq<char>> {
        let maximum = self.limits.max_price_levels_per_side;
        let active = self.limits.max_active_orders;
        if self.bids.maximum != maximum || self.asks.maximum != maximum || self.orders.maximum
            != active || self.uncross_sources.maximum != active
            || self.uncross_sources.entries@.len() != 0 || self.bids.reserved < maximum
            || self.asks.reserved < maximum {
            Some("auction publisher fixed storage contradicts its configured limits"@)
        } else if !self.bids.wf() || self.bids.entries@.len() > maximum {
            Some("auction publisher bid arena is structurally invalid"@)
        } else if !self.asks.wf() || self.asks.entries@.len() > maximum {
            Some("auction publisher ask arena is structurally invalid"@)
        } else if !self.orders.wf() || self.orders.entries@.len() > active || self.orders.reserved
            < active {
            Some("auction publisher order hash layout is invalid"@)
        } else if !self.uncross_sources.wf() || self.uncross_sources.reserved < active {
            Some("auction publisher uncross scratch layout is invalid"@)
        } else if !Self::levels_occupied(&self.bids) || !Self::levels_occupied(&self.asks) {
            Some("auction publisher retains an empty limit aggregate"@)
        } else {
            None
        }
    }

    /// The first difference from an engine of the same instrument.
    pub open spec fn mirror_fault(&self, engine: &CallAuctionEngine) -> Option<Seq<char>> {
        if engine.next_command_sequence == 0 {
            Some("auction next command sequence is zero"@)
        } else if engine.next_event_sequence == 0 {
            Some("auction next event sequence is zero"@)
        } else if engine.book.next_trade_id == 0 {
            Some("auction next trade identifier is zero"@)
        } else if self.phase != engine.phase_state() || self.book_revision
            != engine.book.state_revision || engine.next_command_sequence
            != self.last_command_sequence + 1 || engine.next_event_sequence
            != self.last_event_sequence + 1 || self.last_trade_id != trade_before(
            engine.book.next_trade_id,
        ) {
            Some(
                "publisher sequence, phase, book revision, or trade state differs from the engine"@,
            )
        } else if self.state().orders != book_orders(&engine.book) {
            Some("publisher active-order mirror differs from the auction book"@)
        } else if self.state().book != book_public(&engine.book) {
            Some("publisher aggregate state differs from the auction book"@)
        } else {
            self.layout_fault()
        }
    }

    /// The error of an audit that fails.
    pub open spec fn audit_refused(
        &self,
        engine: &CallAuctionEngine,
        error: CallAuctionMarketDataError,
    ) -> bool {
        if engine.book.definition.instrument_id != self.instrument_id {
            error == CallAuctionMarketDataError::WrongInstrument
        } else if engine.book.definition.version != self.instrument_version {
            error == CallAuctionMarketDataError::WrongInstrumentVersion
        } else {
            self.mirror_fault(engine) matches Some(detail) && error.diverges(detail)
        }
    }

    fn validate_layouts(&self) -> (r: Result<(), CallAuctionMarketDataError>)
        ensures
            match r {
                Ok(_) => self.layout_ok() && self.layout_fault() is None,
                Err(error) => !self.layout_ok() && (self.layout_fault() matches Some(detail)
                    && error.diverges(detail)),
            },
    {
        let maximum_levels: usize = self.limits.max_price_levels_per_side;
        if self.bids.maximum() != maximum_levels || self.asks.maximum() != maximum_levels
            || self.orders.maximum() != self.limits.max_active_orders
            || self.uncross_sources.maximum() != self.limits.max_active_orders
            || !self.uncross_sources.is_empty() || self.bids.allocation_capacity() < maximum_levels
            || self.asks.allocation_capacity() < maximum_levels {
            return Err(
                CallAuctionMarketDataError::SourceDivergence(
                    "auction publisher fixed storage contradicts its configured limits",
                ),
            );
        }
        if !self.bids.validate() {
            return Err(
                CallAuctionMarketDataError::SourceDivergence(
                    "auction publisher bid arena is structurally invalid",
                ),
            );
        }
        if !self.asks.validate() {
            return Err(
                CallAuctionMarketDataError::SourceDivergence(
                    "auction publisher ask arena is structurally invalid",
                ),
            );
        }
        if !self.orders.validate() || self.orders.allocation_capacity()
            < self.limits.max_active_orders {
            return Err(
                CallAuctionMarketDataError::SourceDivergence(
                    "auction publisher order hash layout is invalid",
                ),
            );
        }
        if !self.uncross_sources.validate() || self.uncross_sources.allocation_capacity()
            < self.limits.max_active_orders {
            return Err(
                CallAuctionMarketDataError::SourceDivergence(
                    "auction publisher uncross scratch layout is invalid",
                ),
            );
        }
        if !all_occupied(&self.bids) || !all_occupied(&self.asks) {
            return Err(
                CallAuctionMarketDataError::SourceDivergence(
                    "auction publisher retains an empty limit aggregate",
                ),
            );
        }
        Ok(())
    }

    /// Audits the complete private mirror against the authoritative engine.
    pub fn validate_against(&self, engine: &CallAuctionEngine) -> (r: Result<
        (),
        CallAuctionMarketDataError,
    >)
        requires
            self.wf(),
            engine.wf(),
        ensures
            match r {
                Ok(_) => self.mirrors(engine) && self.layout_ok(),
                Err(error) => !(self.mirrors(engine) && self.layout_ok()) && self.audit_refused(
                    engine,
                    error,
                ),
            },
    {
        let definition = engine.book().definition();
        if definition.instrument_id() != self.instrument_id {
            return Err(CallAuctionMarketDataError::WrongInstrument);
        }
        if definition.version() != self.instrument_version {
            return Err(CallAuctionMarketDataError::WrongInstrumentVersion);
        }
        let engine_command_sequence: u64 = match previous_sequence(
            engine.next_command_sequence(),
            "auction next command sequence is zero",
        ) {
            Ok(sequence) => sequence,
            Err(error) => {
                return Err(error);
            },
        };
        let engine_event_sequence: u64 = match previous_sequence(
            engine.next_event_sequence(),
            "auction next event sequence is zero",
        ) {
            Ok(sequence) => sequence,
            Err(error) => {
                return Err(error);
            },
        };
        let engine_trade_id = match previous_trade_id(engine.book().next_trade_id()) {
            Ok(trade_id) => trade_id,
            Err(error) => {
                return Err(error);
            },
        };
        if self.phase != engine.phase_snapshot() || self.book_revision
            != engine.book().state_revision() || self.last_command_sequence
            != engine_command_sequence || self.last_event_sequence != engine_event_sequence
            || self.last_trade_id != engine_trade_id {
            return Err(
                CallAuctionMarketDataError::SourceDivergence(
                    "publisher sequence, phase, book revision, or trade state differs from the engine",
                ),
            );
        }
        if !self.orders_match(engine.book()) {
            return Err(
                CallAuctionMarketDataError::SourceDivergence(
                    "publisher active-order mirror differs from the auction book",
                ),
            );
        }
        if self.market_buy != aggregate_market(engine.book(), Side::Buy) || self.market_sell
            != aggregate_market(engine.book(), Side::Sell) || !auction_depth_matches(
            &self.bids,
            engine.book(),
            Side::Buy,
        ) || !auction_depth_matches(&self.asks, engine.book(), Side::Sell) {
            return Err(
                CallAuctionMarketDataError::SourceDivergence(
                    "publisher aggregate state differs from the auction book",
                ),
            );
        }
        self.validate_layouts()
    }

    fn orders_match(&self, book: &CallAuctionBook) -> (r: bool)
        requires
            self.orders.wf(),
            book.wf(),
        ensures
            r == (self.orders@ == book_orders(book)),
    {
        let active = book.active_order_states();
        let ghost f = |order: RestingAuctionOrder| TrackedOrder::of(order.visible());
        proof {
            lemma_mirror(&self.orders, &book.orders, f);
            book.orders.lemma_view();
            assert(book_orders(book) == book.orders@.map_values(f));
        }
        if active.len() != self.orders.len() {
            return false;
        }
        let mut index: usize = 0;
        while index < active.len()
            invariant
                self.orders.wf(),
                book.wf(),
                index <= active@.len() == self.orders.entries@.len(),
                active@ == book.active_list(),
                active@.len() == book.orders.entries@.len(),
                f == (|order: RestingAuctionOrder| TrackedOrder::of(order.visible())),
                self.orders@ == book_orders(book) <==> {
                    &&& self.orders.entries@.len() == book.orders.entries@.len()
                    &&& forall|i: int|
                        0 <= i < book.orders.entries@.len() ==> self.orders@.dom().contains(
                            (#[trigger] book.orders.entries@[i]).0,
                        ) && self.orders@[book.orders.entries@[i].0] == f(
                            book.orders.entries@[i].1,
                        )
                },
                forall|i: int|
                    0 <= i < index ==> self.orders@.dom().contains(
                        (#[trigger] book.orders.entries@[i]).0,
                    ) && self.orders@[book.orders.entries@[i].0] == f(book.orders.entries@[i].1),
            decreases active@.len() - index,
        {
            let order = active[index];
            proof {
                book.orders.lemma_view();
                let entry = book.orders.entries@[index as int];
                assert(book.order_ok(entry.0));
                assert(order == entry.1.visible());
                assert(order.order_id == entry.0);
            }
            match self.orders.get(order.order_id) {
                Some(known) => {
                    if known != TrackedOrder::from_snapshot(order) {
                        return false;
                    }
                },
                None => {
                    return false;
                },
            }
            index += 1;
        }
        true
    }
}

fn all_occupied(levels: &OrderedMap<Price, Aggregate>) -> (r: bool)
    ensures
        r == CallAuctionMarketDataPublisher::levels_occupied(levels),
{
    let count: usize = levels.len();
    let mut index: usize = 0;
    while index < count
        invariant
            index <= count == levels.entries@.len(),
            forall|i: int|
                0 <= i < index ==> (#[trigger] levels.entries@[i]).1.quantity > 0
                    && levels.entries@[i].1.order_count > 0,
        decreases count - index,
    {
        let aggregate = levels.value_at(index);
        if aggregate.quantity == 0 || aggregate.order_count == 0 {
            proof {
                assert(levels.entries@[index as int].1 == aggregate);
            }
            return false;
        }
        index += 1;
    }
    true
}

fn aggregate_market(book: &CallAuctionBook, side: Side) -> (r: Aggregate)
    ensures
        r == queue_aggregate(book.market_of(side)),
{
    Aggregate { quantity: book.market_quantity(side), order_count: book.market_order_count(side) }
}

fn previous_trade_id(next_trade_id: u64) -> (r: Result<
    Option<TradeId>,
    CallAuctionMarketDataError,
>)
    ensures
        match r {
            Ok(trade_id) => next_trade_id > 0 && trade_id == trade_before(next_trade_id),
            Err(error) => next_trade_id == 0 && error.diverges(
                "auction next trade identifier is zero"@,
            ),
        },
{
    match next_trade_id.checked_sub(1) {
        Some(0) => Ok(None),
        Some(value) => Ok(Some(TradeId { value })),
        None => Err(
            CallAuctionMarketDataError::SourceDivergence("auction next trade identifier is zero"),
        ),
    }
}

fn previous_sequence(next: u64, detail: &'static str) -> (r: Result<
    u64,
    CallAuctionMarketDataError,
>)
    ensures
        match r {
            Ok(previous) => next > 0 && previous + 1 == next,
            Err(error) => next == 0 && error == CallAuctionMarketDataError::SourceDivergence(
                detail,
            ),
        },
{
    match next.checked_sub(1) {
        Some(previous) => Ok(previous),
        None => Err(CallAuctionMarketDataError::SourceDivergence(detail)),
    }
}

/// Whether limit depth mirrors the queues of one side.
fn auction_depth_matches(
    mirror: &OrderedMap<Price, Aggregate>,
    book: &CallAuctionBook,
    side: Side,
) -> (r: bool)
    requires
        mirror.wf(),
        book.wf(),
    ensures
        r == (mirror@ == queue_depth(book.level_map(side))),
{
    let source = book.limit_depth_levels(side);
    let ghost queues = match side {
        Side::Buy => book.bids,
        Side::Sell => book.asks,
    };
    let ghost f = |queue: AuctionQueue| queue_aggregate(queue);
    proof {
        lemma_mirror(mirror, &queues, f);
        assert(queue_depth(book.level_map(side)) == queues@.map_values(f));
        assert(source@.len() == queues.entries@.len());
    }
    if mirror.len() != source.len() {
        return false;
    }
    let mut index: usize = 0;
    while index < source.len()
        invariant
            mirror.wf(),
            book.wf(),
            index <= source@.len() == mirror.entries@.len(),
            source@ == book.ascending_depth(side),
            source@.len() == queues.entries@.len(),
            queues == match side {
                Side::Buy => book.bids,
                Side::Sell => book.asks,
            },
            f == (|queue: AuctionQueue| queue_aggregate(queue)),
            mirror@ == queue_depth(book.level_map(side)) <==> {
                &&& mirror.entries@.len() == queues.entries@.len()
                &&& forall|i: int|
                    0 <= i < queues.entries@.len() ==> mirror@.dom().contains(
                        (#[trigger] queues.entries@[i]).0,
                    ) && mirror@[queues.entries@[i].0] == f(queues.entries@[i].1)
            },
            forall|i: int|
                0 <= i < index ==> mirror@.dom().contains((#[trigger] queues.entries@[i]).0)
                    && mirror@[queues.entries@[i].0] == f(queues.entries@[i].1),
        decreases source@.len() - index,
    {
        let level = source[index];
        proof {
            assert(level == level_snapshot(side, queues.entries@[index as int]));
        }
        match mirror.get(level.price()) {
            Some(aggregate) => {
                if aggregate.quantity != level.quantity() || aggregate.order_count
                    != level.order_count() {
                    return false;
                }
            },
            None => {
                return false;
            },
        }
        index += 1;
    }
    true
}

/// Mirrors the limit queues of one side in an empty index.
fn mirror_depth(levels: &mut OrderedMap<Price, Aggregate>, book: &CallAuctionBook, side: Side)
    requires
        old(levels).wf(),
        old(levels).entries@.len() == 0,
        book.wf(),
    ensures
        final(levels).wf(),
        final(levels)@ == queue_depth(book.level_map(side)),
        final(levels).maximum == old(levels).maximum,
        final(levels).reserved == old(levels).reserved,
{
    let source = book.limit_depth_levels(side);
    let ghost queues = match side {
        Side::Buy => book.bids,
        Side::Sell => book.asks,
    };
    let ghost f = |queue: AuctionQueue| queue_aggregate(queue);
    let mut index: usize = 0;
    proof {
        levels.lemma_view();
        assert(source@.len() == queues.entries@.len());
    }
    while index < source.len()
        invariant
            book.wf(),
            queues.wf(),
            index <= source@.len() == queues.entries@.len(),
            source@ == book.ascending_depth(side),
            queues == match side {
                Side::Buy => book.bids,
                Side::Sell => book.asks,
            },
            f == (|queue: AuctionQueue| queue_aggregate(queue)),
            levels.wf(),
            levels.maximum == old(levels).maximum,
            levels.reserved == old(levels).reserved,
            levels.entries@.len() == index,
            forall|i: int|
                0 <= i < index ==> levels@.dom().contains((#[trigger] queues.entries@[i]).0)
                    && levels@[queues.entries@[i].0] == f(queues.entries@[i].1),
            forall|price: Price| #[trigger]
                levels@.dom().contains(price) ==> exists|i: int|
                    0 <= i < index && (#[trigger] queues.entries@[i]).0 == price,
        decreases source@.len() - index,
    {
        let level = source[index];
        let ghost before = *levels;
        let ghost entry = queues.entries@[index as int];
        proof {
            assert(level == level_snapshot(side, entry));
            before.lemma_view();
            if before@.dom().contains(entry.0) {
                let i = choose|i: int|
                    0 <= i < index && (#[trigger] queues.entries@[i]).0 == entry.0;
                assert(queues.entries@[i].0.rank() < queues.entries@[index as int].0.rank());
            }
        }
        let _ = levels.insert(
            level.price(),
            Aggregate { quantity: level.quantity(), order_count: level.order_count() },
        );
        proof {
            levels.lemma_view();
            assert forall|price: Price| #[trigger] levels@.dom().contains(price) implies exists|
                i: int,
            |
                0 <= i < index + 1 && (#[trigger] queues.entries@[i]).0 == price by {
                if price == entry.0 {
                    assert(queues.entries@[index as int].0 == price);
                } else {
                    assert(before@.dom().contains(price));
                    let i = choose|i: int|
                        0 <= i < index && (#[trigger] queues.entries@[i]).0 == price;
                    assert(queues.entries@[i].0 == price);
                }
            }
            assert forall|i: int| 0 <= i < index + 1 implies levels@.dom().contains(
                (#[trigger] queues.entries@[i]).0,
            ) && levels@[queues.entries@[i].0] == f(queues.entries@[i].1) by {
                if i < index {
                    assert(queues.entries@[i].0.rank() < queues.entries@[index as int].0.rank());
                }
            }
        }
        index += 1;
    }
    proof {
        lemma_mirror(levels, &queues, f);
        assert(queue_depth(book.level_map(side)) == queues@.map_values(f));
    }
}

/// Mirrors the active orders in an empty index.
fn mirror_orders(orders: &mut OrderedMap<OrderId, TrackedOrder>, book: &CallAuctionBook)
    requires
        old(orders).wf(),
        old(orders).entries@.len() == 0,
        book.wf(),
    ensures
        final(orders).wf(),
        final(orders)@ == book_orders(book),
        final(orders).maximum == old(orders).maximum,
        final(orders).reserved == old(orders).reserved,
{
    let active = book.active_order_states();
    let ghost entries = book.orders.entries@;
    let ghost f = |order: RestingAuctionOrder| TrackedOrder::of(order.visible());
    let mut index: usize = 0;
    proof {
        orders.lemma_view();
        book.orders.lemma_view();
    }
    while index < active.len()
        invariant
            book.wf(),
            entries == book.orders.entries@,
            active@ == book.active_list(),
            index <= active@.len() == entries.len(),
            f == (|order: RestingAuctionOrder| TrackedOrder::of(order.visible())),
            orders.wf(),
            orders.maximum == old(orders).maximum,
            orders.reserved == old(orders).reserved,
            orders.entries@.len() == index,
            forall|i: int|
                0 <= i < index ==> orders@.dom().contains((#[trigger] entries[i]).0)
                    && orders@[entries[i].0] == f(entries[i].1),
            forall|id: OrderId| #[trigger]
                orders@.dom().contains(id) ==> exists|i: int|
                    0 <= i < index && (#[trigger] entries[i]).0 == id,
        decreases active@.len() - index,
    {
        let order = active[index];
        let ghost before = *orders;
        let ghost entry = entries[index as int];
        proof {
            book.orders.lemma_view();
            assert(book.order_ok(entry.0));
            assert(order == entry.1.visible());
            before.lemma_view();
            if before@.dom().contains(entry.0) {
                let i = choose|i: int| 0 <= i < index && (#[trigger] entries[i]).0 == entry.0;
                assert(entries[i].0.rank() < entries[index as int].0.rank());
            }
        }
        let _ = orders.insert(order.order_id, TrackedOrder::from_snapshot(order));
        proof {
            orders.lemma_view();
            assert forall|id: OrderId| #[trigger] orders@.dom().contains(id) implies exists|i: int|
                0 <= i < index + 1 && (#[trigger] entries[i]).0 == id by {
                if id == entry.0 {
                    assert(entries[index as int].0 == id);
                } else {
                    assert(before@.dom().contains(id));
                    let i = choose|i: int| 0 <= i < index && (#[trigger] entries[i]).0 == id;
                    assert(entries[i].0 == id);
                }
            }
            assert forall|i: int| 0 <= i < index + 1 implies orders@.dom().contains(
                (#[trigger] entries[i]).0,
            ) && orders@[entries[i].0] == f(entries[i].1) by {
                if i < index {
                    assert(entries[i].0.rank() < entries[index as int].0.rank());
                }
            }
        }
        index += 1;
    }
    proof {
        lemma_mirror(orders, &book.orders, f);
    }
}

fn ensure_source_limits(selected: CallAuctionMarketDataLimits, source: CallAuctionEngineLimits)
    -> (r: Result<(), CallAuctionMarketDataConstructionError>)
    ensures
        match r {
            Ok(_) => source_limits_fault(selected, source) is None,
            Err(error) => source_limits_fault(selected, source) == Some(error),
        },
{
    if selected.max_active_orders() < source.book().max_active_orders() {
        return Err(
            CallAuctionMarketDataConstructionError::LimitsBelowSource {
                resource: CallAuctionMarketDataResource::TrackedOrders,
                selected: selected.max_active_orders(),
                required: source.book().max_active_orders(),
            },
        );
    }
    if selected.max_price_levels_per_side() < source.book().max_price_levels_per_side() {
        return Err(
            CallAuctionMarketDataConstructionError::LimitsBelowSource {
                resource: CallAuctionMarketDataResource::BidPriceLevels,
                selected: selected.max_price_levels_per_side(),
                required: source.book().max_price_levels_per_side(),
            },
        );
    }
    if selected.max_batch_updates() < source.max_report_events() {
        return Err(
            CallAuctionMarketDataConstructionError::LimitsBelowSource {
                resource: CallAuctionMarketDataResource::BatchUpdates,
                selected: selected.max_batch_updates(),
                required: source.max_report_events(),
            },
        );
    }
    Ok(())
}

/// No level of a mirrored side is empty.
proof fn lemma_mirror_occupied(
    levels: &OrderedMap<Price, Aggregate>,
    book: &CallAuctionBook,
    side: Side,
)
    requires
        levels.wf(),
        book.wf(),
        levels@ == queue_depth(book.level_map(side)),
    ensures
        CallAuctionMarketDataPublisher::levels_occupied(levels),
        levels.entries@.len() <= book.limits.price_levels_per_side,
{
    let queues = match side {
        Side::Buy => book.bids,
        Side::Sell => book.asks,
    };
    levels.lemma_view();
    queues.lemma_view();
    assert(levels@.dom() =~= queues@.dom());
    assert forall|i: int| 0 <= i < levels.entries@.len() implies (
    #[trigger] levels.entries@[i]).1.quantity > 0 && levels.entries@[i].1.order_count > 0 by {
        let price = levels.entries@[i].0;
        assert(levels@.dom().contains(price));
        assert(queues@.dom().contains(price));
        lemma_queue_shaped(book, side, AuctionOrderConstraint::Limit(price));
    }
}

/// What was reserved for the indexes of a publisher; `None` where nothing was.
#[derive(Debug)]
pub struct CallAuctionPublisherStorage {
    /// Bid depth.
    pub bids: Option<OrderedMap<Price, Aggregate>>,
    /// Ask depth.
    pub asks: Option<OrderedMap<Price, Aggregate>>,
    /// Active-order mirror.
    pub orders: Option<OrderedMap<OrderId, TrackedOrder>>,
    /// Uncross-source scratch.
    pub uncross_sources: Option<OrderedMap<OrderId, u64>>,
}

impl CallAuctionPublisherStorage {
    /// Whatever was reserved is empty and has its configured size.
    pub open spec fn sized(&self, limits: CallAuctionMarketDataLimits) -> bool {
        &&& index_reserved(self.bids, limits.max_price_levels_per_side)
        &&& index_reserved(self.asks, limits.max_price_levels_per_side)
        &&& index_reserved(self.orders, limits.max_active_orders)
        &&& index_reserved(self.uncross_sources, limits.max_active_orders)
    }

    /// The error of the first index for which nothing was reserved.
    pub open spec fn fault(&self, limits: CallAuctionMarketDataLimits) -> Option<
        CallAuctionMarketDataConstructionError,
    > {
        let levels = limits.max_price_levels_per_side;
        let orders = limits.max_active_orders;
        if self.bids is None {
            Some(unreserved(CallAuctionMarketDataResource::BidPriceLevels, levels))
        } else if self.asks is None {
            Some(unreserved(CallAuctionMarketDataResource::AskPriceLevels, levels))
        } else if self.orders is None {
            Some(unreserved(CallAuctionMarketDataResource::TrackedOrders, orders))
        } else if self.uncross_sources is None {
            Some(unreserved(CallAuctionMarketDataResource::UncrossSourceOrders, orders))
        } else {
            None
        }
    }
}

/// Storage of a publisher could not be reserved.
pub open spec fn publisher_unreserved(
    limits: CallAuctionMarketDataLimits,
    error: CallAuctionMarketDataConstructionError,
) -> bool {
    let levels = limits.max_price_levels_per_side;
    let orders = limits.max_active_orders;
    ||| error == unreserved(CallAuctionMarketDataResource::BidPriceLevels, levels)
    ||| error == unreserved(CallAuctionMarketDataResource::AskPriceLevels, levels)
    ||| error == unreserved(CallAuctionMarketDataResource::TrackedOrders, orders)
    ||| error == unreserved(CallAuctionMarketDataResource::UncrossSourceOrders, orders)
}

/// What is said of a source without sequences.
pub open spec fn sequences_fault(engine: &CallAuctionEngine) -> Option<Seq<char>> {
    if engine.next_command_sequence == 0 {
        Some("auction next command sequence is zero"@)
    } else if engine.next_event_sequence == 0 {
        Some("auction next event sequence is zero"@)
    } else {
        None
    }
}

/// A source is refused with a description.
pub open spec fn diverged(error: CallAuctionMarketDataConstructionError, detail: Seq<char>) -> bool {
    error matches CallAuctionMarketDataConstructionError::Source(inner) && inner.diverges(detail)
}

impl CallAuctionMarketDataPublisher {
    /// A publisher that was just constructed from an engine.
    pub open spec fn starts_from(
        &self,
        engine: &CallAuctionEngine,
        limits: CallAuctionMarketDataLimits,
    ) -> bool {
        &&& self.limits == limits
        &&& self.mirrors(engine)
        &&& self.layout_ok()
        &&& self.at_rest()
        &&& !self.poisoned
    }

    /// What construction from an engine gives.
    pub open spec fn constructed(
        engine: &CallAuctionEngine,
        limits: CallAuctionMarketDataLimits,
        r: Result<Self, CallAuctionMarketDataConstructionError>,
    ) -> bool {
        match source_limits_fault(limits, engine.limits) {
            Some(fault) => r == Err::<Self, _>(fault),
            None => {
                &&& unrepresentable::<(Price, Aggregate)>(limits.max_price_levels_per_side as int)
                    ==> r == Err::<Self, _>(
                    unreserved(
                        CallAuctionMarketDataResource::BidPriceLevels,
                        limits.max_price_levels_per_side,
                    ),
                )
                &&& match r {
                    Ok(publisher) => sequences_fault(engine) is None && publisher.starts_from(
                        engine,
                        limits,
                    ),
                    Err(error) => publisher_unreserved(limits, error) || (sequences_fault(
                        engine,
                    ) matches Some(detail) && diverged(error, detail)),
                }
            },
        }
    }

    fn construct(engine: &CallAuctionEngine, limits: CallAuctionMarketDataLimits) -> (r: Result<
        Self,
        CallAuctionMarketDataConstructionError,
    >)
        requires
            engine.wf(),
        ensures
            Self::constructed(engine, limits, r),
    {
        let maximum_levels: usize = limits.max_price_levels_per_side();
        Self::from_storage(
            engine,
            limits,
            CallAuctionPublisherStorage {
                bids: OrderedMap::try_with_capacity(maximum_levels),
                asks: OrderedMap::try_with_capacity(maximum_levels),
                orders: OrderedMap::try_with_capacity(limits.max_active_orders()),
                uncross_sources: OrderedMap::try_with_capacity(limits.max_active_orders()),
            },
        )
    }

    /// Bootstraps publication in what was reserved for its indexes. A source
    /// that the limits do not cover is refused first, then the first index for
    /// which nothing was reserved, then a source without sequences.
    pub fn from_storage(
        engine: &CallAuctionEngine,
        limits: CallAuctionMarketDataLimits,
        storage: CallAuctionPublisherStorage,
    ) -> (r: Result<Self, CallAuctionMarketDataConstructionError>)
        requires
            engine.wf(),
            storage.sized(limits),
        ensures
            match r {
                Ok(publisher) => {
                    &&& source_limits_fault(limits, engine.limits) is None
                    &&& storage.fault(limits) is None
                    &&& sequences_fault(engine) is None
                    &&& publisher.starts_from(engine, limits)
                },
                Err(error) => match source_limits_fault(limits, engine.limits) {
                    Some(fault) => error == fault,
                    None => match storage.fault(limits) {
                        Some(fault) => error == fault,
                        None => sequences_fault(engine) matches Some(detail) && diverged(
                            error,
                            detail,
                        ),
                    },
                },
            },
    {
        if let Err(error) = ensure_source_limits(limits, engine.limits()) {
            return Err(error);
        }
        let definition = engine.book().definition();
        let maximum_levels: usize = limits.max_price_levels_per_side();
        let bids = match named_index(
            storage.bids,
            maximum_levels,
            CallAuctionMarketDataResource::BidPriceLevels,
        ) {
            Ok(map) => map,
            Err(error) => {
                return Err(error);
            },
        };
        let asks = match named_index(
            storage.asks,
            maximum_levels,
            CallAuctionMarketDataResource::AskPriceLevels,
        ) {
            Ok(map) => map,
            Err(error) => {
                return Err(error);
            },
        };
        let orders = match named_index(
            storage.orders,
            limits.max_active_orders(),
            CallAuctionMarketDataResource::TrackedOrders,
        ) {
            Ok(map) => map,
            Err(error) => {
                return Err(error);
            },
        };
        let uncross_sources = match named_index(
            storage.uncross_sources,
            limits.max_active_orders(),
            CallAuctionMarketDataResource::UncrossSourceOrders,
        ) {
            Ok(map) => map,
            Err(error) => {
                return Err(error);
            },
        };
        let last_command_sequence: u64 = match previous_sequence(
            engine.next_command_sequence(),
            "auction next command sequence is zero",
        ) {
            Ok(sequence) => sequence,
            Err(error) => {
                return Err(CallAuctionMarketDataConstructionError::Source(error));
            },
        };
        let last_event_sequence: u64 = match previous_sequence(
            engine.next_event_sequence(),
            "auction next event sequence is zero",
        ) {
            Ok(sequence) => sequence,
            Err(error) => {
                return Err(CallAuctionMarketDataConstructionError::Source(error));
            },
        };
        let last_trade_id = match previous_trade_id(engine.book().next_trade_id()) {
            Ok(trade_id) => trade_id,
            Err(error) => {
                return Err(CallAuctionMarketDataConstructionError::Source(error));
            },
        };
        let mut publisher = CallAuctionMarketDataPublisher {
            limits,
            instrument_id: definition.instrument_id(),
            instrument_version: definition.version(),
            phase: engine.phase_snapshot(),
            book_revision: engine.book().state_revision(),
            market_buy: aggregate_market(engine.book(), Side::Buy),
            market_sell: aggregate_market(engine.book(), Side::Sell),
            bids,
            asks,
            orders,
            uncross_sources,
            uncross: UncrossProgress { trace: CycleTrace::empty(), completed: false },
            mass_cancel: MassCancelProgress {
                order_count: 0,
                quantity_lots: 0,
                previous_order_id: None,
                completed: false,
            },
            last_command_sequence,
            last_event_sequence,
            last_trade_id,
            poisoned: false,
        };
        mirror_depth(&mut publisher.bids, engine.book(), Side::Buy);
        mirror_depth(&mut publisher.asks, engine.book(), Side::Sell);
        mirror_orders(&mut publisher.orders, engine.book());
        proof {
            lemma_mirror_occupied(&publisher.bids, &engine.book, Side::Buy);
            lemma_mirror_occupied(&publisher.asks, &engine.book, Side::Sell);
            publisher.orders.lemma_view();
            engine.book.orders.lemma_view();
            assert(publisher.orders@.dom() =~= engine.book.orders@.dom());
            assert(publisher.state().book == book_public(&engine.book));
            assert(publisher.mirrors(engine));
            assert(publisher.layout_ok());
        }
        match publisher.validate_against(engine) {
            Ok(()) => Ok(publisher),
            Err(error) => Err(CallAuctionMarketDataConstructionError::Source(error)),
        }
    }

    /// Bootstraps publication from an empty, live, or recovered auction engine.
    pub fn from_engine(engine: &CallAuctionEngine) -> (r: Result<
        Self,
        CallAuctionMarketDataConstructionError,
    >)
        requires
            engine.wf(),
        ensures
            Self::constructed(
                engine,
                CallAuctionMarketDataLimits {
                    max_active_orders: engine.limits.book.active_orders,
                    max_price_levels_per_side: engine.limits.book.price_levels_per_side,
                    max_batch_updates: engine.limits.report_events,
                },
                r,
            ),
    {
        Self::construct(engine, CallAuctionMarketDataLimits::from_engine(engine.limits()))
    }

    /// Bootstraps under an explicit finite envelope covering the source engine.
    pub fn try_from_engine_with_limits(
        engine: &CallAuctionEngine,
        spec: CallAuctionMarketDataLimitsSpec,
    ) -> (r: Result<Self, CallAuctionMarketDataConstructionError>)
        requires
            engine.wf(),
        ensures
            match market_data_limits_fault(spec) {
                Some(fault) => r matches Err(error) && error
                    == CallAuctionMarketDataConstructionError::InvalidLimits(fault),
                None => Self::constructed(
                    engine,
                    CallAuctionMarketDataLimits {
                        max_active_orders: spec.max_active_orders,
                        max_price_levels_per_side: spec.max_price_levels_per_side,
                        max_batch_updates: spec.max_batch_updates,
                    },
                    r,
                ),
            },
    {
        match CallAuctionMarketDataLimits::new(spec) {
            Ok(limits) => Self::construct(engine, limits),
            Err(error) => Err(CallAuctionMarketDataConstructionError::InvalidLimits(error)),
        }
    }
}

/// Event sequences of a report are consecutive.
pub open spec fn events_contiguous(events: Seq<CallAuctionEvent>) -> bool {
    forall|i: int| 0 <= i < events.len() ==> (#[trigger] events[i]).sequence == events[0].sequence + i
}

/// A report rejects exactly when its only event is the rejection.
pub open spec fn outcome_agrees(
    outcome: CallAuctionCommandOutcome,
    events: Seq<CallAuctionEvent>,
) -> bool {
    match outcome {
        CallAuctionCommandOutcome::Accepted => forall|i: int|
            0 <= i < events.len() ==> !((#[trigger] events[i]).kind is CommandRejected),
        CallAuctionCommandOutcome::Rejected(reason) => events.len() == 1 && events[0].kind
            == CallAuctionEventKind::CommandRejected(reason),
    }
}

/// Every event of a report belongs to its command.
pub open spec fn events_owned(command: CallAuctionCommand, events: Seq<CallAuctionEvent>) -> bool {
    forall|i: int|
        0 <= i < events.len() ==> (#[trigger] events[i]).command_id == command.key()
            && events[i].occurred_at == command.time()
}

/// A report that belongs to its command and has a whole trace.
pub open spec fn report_bound(
    command: CallAuctionCommand,
    report: CallAuctionExecutionReport,
) -> bool {
    &&& report.command_id == command.key()
    &&& report.events@.len() > 0
    &&& events_owned(command, report.events@)
    &&& events_contiguous(report.events@)
    &&& outcome_agrees(report.outcome, report.events@)
}

/// Why the trace of a report is not whole.
pub open spec fn outcome_fault(report: CallAuctionExecutionReport) -> Option<Seq<char>> {
    if !events_contiguous(report.events@) {
        Some("auction report event sequences are not contiguous"@)
    } else if !outcome_agrees(report.outcome, report.events@) {
        Some(
            match report.outcome {
                CallAuctionCommandOutcome::Accepted => {
                    "accepted auction report contains a rejection"@
                },
                CallAuctionCommandOutcome::Rejected(_) => "rejected auction report does not contain exactly its rejection"@,
            },
        )
    } else {
        None
    }
}

/// Why a report does not belong to its command or has no whole trace.
pub open spec fn report_fault(
    command: CallAuctionCommand,
    report: CallAuctionExecutionReport,
) -> Option<Seq<char>> {
    if report.command_id != command.key() || report.events@.len() == 0 {
        Some("auction report identity is wrong or its event trace is empty"@)
    } else if !events_owned(command, report.events@) {
        Some("auction event context differs from its source command"@)
    } else {
        outcome_fault(report)
    }
}

fn validate_report_outcome(report: &CallAuctionExecutionReport) -> (r: Result<
    (),
    CallAuctionMarketDataError,
>)
    requires
        report.events@.len() > 0,
    ensures
        match r {
            Ok(_) => events_contiguous(report.events@) && outcome_agrees(
                report.outcome,
                report.events@,
            ),
            Err(error) => outcome_fault(*report) matches Some(detail) && error.mismatches(detail),
        },
{
    let events = report.events.as_slice();
    let mut index: usize = 1;
    while index < events.len()
        invariant
            events@ == report.events@,
            1 <= index <= events@.len(),
            forall|i: int|
                0 <= i < index ==> (#[trigger] events@[i]).sequence == events@[0].sequence + i,
        decreases events@.len() - index,
    {
        if events[index - 1].sequence.checked_add(1) != Some(events[index].sequence) {
            proof {
                assert(events@[index - 1].sequence == events@[0].sequence + (index - 1));
                assert(events@[index as int].sequence != events@[0].sequence + index);
            }
            return Err(
                CallAuctionMarketDataError::TraceMismatch(
                    "auction report event sequences are not contiguous",
                ),
            );
        }
        index += 1;
    }
    match report.outcome {
        CallAuctionCommandOutcome::Accepted => {
            let mut position: usize = 0;
            while position < events.len()
                invariant
                    events@ == report.events@,
                    report.outcome == CallAuctionCommandOutcome::Accepted,
                    events_contiguous(events@),
                    position <= events@.len(),
                    forall|i: int|
                        0 <= i < position ==> !((#[trigger] events@[i]).kind is CommandRejected),
                decreases events@.len() - position,
            {
                if let CallAuctionEventKind::CommandRejected(_) = events[position].kind {
                    proof {
                        assert(events@[position as int].kind is CommandRejected);
                    }
                    return Err(
                        CallAuctionMarketDataError::TraceMismatch(
                            "accepted auction report contains a rejection",
                        ),
                    );
                }
                position += 1;
            }
        },
        CallAuctionCommandOutcome::Rejected(reason) => {
            if events.len() != 1 || events[0].kind != CallAuctionEventKind::CommandRejected(reason) {
                return Err(
                    CallAuctionMarketDataError::TraceMismatch(
                        "rejected auction report does not contain exactly its rejection",
                    ),
                );
            }
        },
    }
    Ok(())
}

fn check_events_owned(command: CallAuctionCommand, events: &[CallAuctionEvent]) -> (r: bool)
    ensures
        r == events_owned(command, events@),
{
    let mut index: usize = 0;
    while index < events.len()
        invariant
            index <= events@.len(),
            forall|i: int|
                0 <= i < index ==> (#[trigger] events@[i]).command_id == command.key()
                    && events@[i].occurred_at == command.time(),
        decreases events@.len() - index,
    {
        let event = events[index];
        if event.command_id != command.command_id() || event.occurred_at != command.received_at() {
            proof {
                assert(events@[index as int] == event);
            }
            return false;
        }
        index += 1;
    }
    true
}

impl CallAuctionMarketDataPublisher {
    /// State with nothing of a command under way.
    pub open spec fn fresh(&self) -> PublisherState {
        PublisherState {
            sources: Map::empty(),
            uncross: uncross_start(),
            mass: mass_start(),
            ..self.state()
        }
    }

    /// Nothing was published, and nothing of a command is under way.
    pub open spec fn unpublished(&self, old: &Self) -> bool {
        &&& self.framed(old)
        &&& self.at_rest()
        &&& self.state() == old.fresh()
    }

    /// Nothing was published, and the publisher is poisoned.
    pub open spec fn failed(&self, old: &Self) -> bool {
        &&& self.same_shell(old)
        &&& self.last_command_sequence == old.last_command_sequence
        &&& self.last_event_sequence == old.last_event_sequence
        &&& self.poisoned
        &&& self.at_rest()
        &&& self.state() == old.fresh()
    }

    /// Public updates of a trace.
    pub open spec fn updates_of(
        &self,
        events: Seq<CallAuctionEvent>,
        kinds: Seq<CallAuctionMarketDataKind>,
    ) -> Seq<CallAuctionMarketDataUpdate> {
        Seq::new(
            kinds.len(),
            |i: int|
                CallAuctionMarketDataUpdate {
                    instrument_id: self.instrument_id,
                    instrument_version: self.instrument_version,
                    sequence: events[i].sequence,
                    occurred_at: events[i].occurred_at,
                    kind: kinds[i],
                },
        )
    }

    /// What the whole trace of a report leads to, when it agrees with the
    /// publisher state and completes what its command began.
    pub open spec fn trace_of(
        &self,
        command: CallAuctionCommand,
        report: CallAuctionExecutionReport,
    ) -> Option<(PublisherState, Seq<CallAuctionMarketDataKind>)> {
        let accepted = report.outcome == CallAuctionCommandOutcome::Accepted;
        match self.fresh().steps(command, report.events@, self.limits, report.events@.len()) {
            Some((state, kinds)) => if state.uncross.completed == (command is Uncross && accepted)
                && state.mass.completed == (command is MassCancel && accepted) {
                Some((state, kinds))
            } else {
                None
            },
            None => None,
        }
    }

    /// The error of a trace that disagrees with the publisher state or does
    /// not complete what its command began: that of its first refused event.
    pub open spec fn trace_refused(
        &self,
        command: CallAuctionCommand,
        report: CallAuctionExecutionReport,
        error: CallAuctionMarketDataError,
    ) -> bool {
        let accepted = report.outcome == CallAuctionCommandOutcome::Accepted;
        let events = report.events@;
        match self.fresh().steps(command, events, self.limits, events.len()) {
            None => self.fresh().steps_refused(
                command,
                events,
                self.limits,
                events.len(),
                error,
            ),
            Some((state, _)) => if state.uncross.completed != (command is Uncross && accepted) {
                error.mismatches("auction uncross command and completion event disagree"@)
            } else {
                error.mismatches("auction mass-cancel command and completion event disagree"@)
            },
        }
    }

    /// What publishing a report that carries the next command and the next
    /// events does.
    pub open spec fn traced(
        &self,
        old: &Self,
        command: CallAuctionCommand,
        report: CallAuctionExecutionReport,
        engine: &CallAuctionEngine,
        r: Result<CallAuctionMarketDataBatch, CallAuctionMarketDataError>,
    ) -> bool {
        &&& self.same_shell(old)
        &&& self.at_rest()
        &&& self.poisoned == (r is Err)
        &&& match old.trace_of(command, report) {
            Some((state, kinds)) => {
                &&& self.fresh() == (PublisherState {
                    sources: Map::empty(),
                    uncross: uncross_start(),
                    mass: mass_start(),
                    ..state
                })
                &&& self.last_command_sequence == report.command_sequence
                &&& self.last_event_sequence == report.events@.last().sequence
                &&& r is Ok <==> self.mirrors(engine) && self.layout_ok()
                &&& (r matches Err(error) ==> self.audit_refused(engine, error))
                &&& (r matches Ok(batch) ==> !batch.replayed && batch.updates@ == old.updates_of(
                    report.events@,
                    kinds,
                ))
            },
            None => r matches Err(error) && old.trace_refused(command, report, error),
        }
    }

    /// What publishing a report does.
    pub open spec fn published(
        &self,
        old: &Self,
        command: CallAuctionCommand,
        report: CallAuctionExecutionReport,
        engine: &CallAuctionEngine,
        r: Result<CallAuctionMarketDataBatch, CallAuctionMarketDataError>,
    ) -> bool {
        let events = report.events@;
        if old.poisoned {
            r matches Err(error) && error is Poisoned && *self == *old
        } else if command.instrument() != old.instrument_id {
            r matches Err(error) && error is WrongInstrument && self.failed(old)
        } else if command.version() != old.instrument_version {
            r matches Err(error) && error is WrongInstrumentVersion && self.failed(old)
        } else if !report_bound(command, report) {
            &&& r matches Err(error) && (report_fault(command, report) matches Some(detail)
                && error.mismatches(detail))
            &&& self.failed(old)
        } else if report.replayed {
            if report.command_sequence > old.last_command_sequence || events.last().sequence
                > old.last_event_sequence {
                &&& r matches Err(error) && error.mismatches(
                    "replayed auction report contains unpublished future state"@,
                )
                &&& self.failed(old)
            } else {
                r matches Ok(batch) && batch.replayed && batch.updates@.len() == 0 && *self == *old
            }
        } else if old.last_command_sequence == u64::MAX {
            r matches Err(error) && error is ArithmeticOverflow && *self == *old
        } else if report.command_sequence != old.last_command_sequence + 1 {
            r matches Err(error) && error == (CallAuctionMarketDataError::CommandSequenceGap {
                expected: (old.last_command_sequence + 1) as u64,
                actual: report.command_sequence,
            }) && self.failed(old)
        } else if events.len() > old.limits.max_batch_updates {
            r matches Err(error) && error == (CallAuctionMarketDataError::CapacityExceeded {
                resource: CallAuctionMarketDataResource::BatchUpdates,
                maximum: old.limits.max_batch_updates,
                attempted: events.len() as usize,
            }) && *self == *old
        } else if r matches Err(error) && error is PreparationAllocationFailed {
            &&& r->Err_0 == CallAuctionMarketDataError::PreparationAllocationFailed(
                CallAuctionMarketDataResource::BatchUpdates,
            )
            &&& *self == *old
        } else if old.last_event_sequence == u64::MAX {
            r matches Err(error) && error is ArithmeticOverflow && self.unpublished(old)
        } else if events[0].sequence != old.last_event_sequence + 1 {
            r matches Err(error) && error == (CallAuctionMarketDataError::SequenceGap {
                expected: (old.last_event_sequence + 1) as u64,
                actual: events[0].sequence,
            }) && self.failed(old)
        } else {
            self.traced(old, command, report, engine, r)
        }
    }

    fn reset(&mut self)
        requires
            old(self).wf(),
        ensures
            final(self).wf(),
            final(self).unpublished(old(self)),
            final(self).bids == old(self).bids,
            final(self).asks == old(self).asks,
            final(self).orders == old(self).orders,
    {
        self.uncross_sources.clear();
        self.uncross = UncrossProgress { trace: CycleTrace::empty(), completed: false };
        self.mass_cancel =
        MassCancelProgress {
            order_count: 0,
            quantity_lots: 0,
            previous_order_id: None,
            completed: false,
        };
    }

    fn fail(&mut self, error: CallAuctionMarketDataError) -> (r: Result<
        CallAuctionMarketDataBatch,
        CallAuctionMarketDataError,
    >)
        requires
            old(self).wf(),
        ensures
            final(self).wf(),
            final(self).failed(old(self)),
            final(self).bids == old(self).bids,
            final(self).asks == old(self).asks,
            final(self).orders == old(self).orders,
            r matches Err(given) && given == error,
    {
        self.reset();
        self.poisoned = true;
        Err(error)
    }

    /// Publishes the trace of a report that carries the next command and the
    /// next events.
    fn publish_trace(
        &mut self,
        command: CallAuctionCommand,
        report: &CallAuctionExecutionReport,
        engine: &CallAuctionEngine,
        updates: Vec<CallAuctionMarketDataUpdate>,
    ) -> (r: Result<CallAuctionMarketDataBatch, CallAuctionMarketDataError>)
        requires
            old(self).wf(),
            old(self).at_rest(),
            !old(self).poisoned,
            engine.wf(),
            updates@.len() == 0,
            report_bound(command, *report),
            report.events@[0].sequence == old(self).last_event_sequence + 1,
        ensures
            final(self).wf(),
            final(self).traced(old(self), command, *report, engine, r),
            !(r matches Err(error) && error is PreparationAllocationFailed),
    {
        let ghost entry = *self;
        let events = report.events.as_slice();
        let mut updates = updates;
        let mut index: usize = 0;
        proof {
            self.uncross_sources.lemma_view();
            assert(self.uncross_sources@ =~= Map::<OrderId, u64>::empty());
            assert(self.state() == entry.fresh());
        }
        while index < events.len()
            invariant
                entry == *old(self),
                events@ == report.events@,
                index <= events@.len(),
                report_bound(command, *report),
                report.events@[0].sequence == entry.last_event_sequence + 1,
                self.wf(),
                self.same_shell(&entry),
                self.last_command_sequence == entry.last_command_sequence,
                self.last_event_sequence == entry.last_event_sequence + index,
                !self.poisoned,
                entry.fresh().steps(command, events@, entry.limits, index as nat) matches Some(
                    (state, kinds),
                ) && state == self.state() && kinds.len() == index && updates@ == entry.updates_of(
                    events@,
                    kinds,
                ),
            decreases events@.len() - index,
        {
            let event = events[index];
            proof {
                if entry.fresh().steps(command, events@, entry.limits, events@.len()) is Some {
                    entry.fresh().lemma_steps_prefix(
                        command,
                        events@,
                        entry.limits,
                        (index + 1) as nat,
                        events@.len(),
                    );
                }
            }
            let ghost (_, kinds) = entry.fresh().steps(
                command,
                events@,
                entry.limits,
                index as nat,
            )->0;
            let kind = match self.apply_event(command, event.kind) {
                Ok(kind) => kind,
                Err(error) => {
                    proof {
                        entry.fresh().lemma_first_refused(
                            command,
                            events@,
                            entry.limits,
                            index as nat,
                            events@.len(),
                            error,
                        );
                    }
                    return self.fail(error);
                },
            };
            updates.push(
                CallAuctionMarketDataUpdate {
                    instrument_id: self.instrument_id,
                    instrument_version: self.instrument_version,
                    sequence: event.sequence,
                    occurred_at: event.occurred_at,
                    kind,
                },
            );
            self.last_event_sequence = event.sequence;
            proof {
                assert(updates@ =~= entry.updates_of(events@, kinds.push(kind)));
            }
            index += 1;
        }
        let accepted: bool = report.outcome == CallAuctionCommandOutcome::Accepted;
        let uncrosses: bool = match command {
            CallAuctionCommand::Uncross(_) => true,
            _ => false,
        };
        if self.uncross.completed != (uncrosses && accepted) {
            return self.fail(
                CallAuctionMarketDataError::TraceMismatch(
                    "auction uncross command and completion event disagree",
                ),
            );
        }
        let mass_cancels: bool = match command {
            CallAuctionCommand::MassCancel(_) => true,
            _ => false,
        };
        if self.mass_cancel.completed != (mass_cancels && accepted) {
            return self.fail(
                CallAuctionMarketDataError::TraceMismatch(
                    "auction mass-cancel command and completion event disagree",
                ),
            );
        }
        let ghost whole = self.state();
        self.last_command_sequence = report.command_sequence;
        self.reset();
        if let Err(error) = self.validate_against(engine) {
            let ghost checked = *self;
            let r = self.fail(error);
            proof {
                self.uncross_sources.lemma_view();
                checked.uncross_sources.lemma_view();
                assert(self.mirrors(engine) == checked.mirrors(engine));
                assert(self.layout_ok() == checked.layout_ok());
                assert(self.mirror_fault(engine) == checked.mirror_fault(engine));
            }
            return r;
        }
        Ok(CallAuctionMarketDataBatch { updates, replayed: false })
    }

    /// Publishes one complete auction command/report trace. Exact retries give
    /// an empty replay batch. A trace failure poisons the publisher.
    pub fn publish(
        &mut self,
        command: CallAuctionCommand,
        report: &CallAuctionExecutionReport,
        engine: &CallAuctionEngine,
    ) -> (r: Result<CallAuctionMarketDataBatch, CallAuctionMarketDataError>)
        requires
            old(self).wf(),
            engine.wf(),
        ensures
            final(self).wf(),
            old(self).at_rest() ==> final(self).at_rest(),
            final(self).published(old(self), command, *report, engine, r),
    {
        if self.poisoned {
            return Err(CallAuctionMarketDataError::Poisoned);
        }
        if command.instrument_id() != self.instrument_id {
            return self.fail(CallAuctionMarketDataError::WrongInstrument);
        }
        if command.instrument_version() != self.instrument_version {
            return self.fail(CallAuctionMarketDataError::WrongInstrumentVersion);
        }
        let events = report.events.as_slice();
        if report.command_id != command.command_id() || events.len() == 0 {
            return self.fail(
                CallAuctionMarketDataError::TraceMismatch(
                    "auction report identity is wrong or its event trace is empty",
                ),
            );
        }
        if !check_events_owned(command, events) {
            return self.fail(
                CallAuctionMarketDataError::TraceMismatch(
                    "auction event context differs from its source command",
                ),
            );
        }
        if let Err(error) = validate_report_outcome(report) {
            return self.fail(error);
        }
        if report.replayed {
            if report.command_sequence > self.last_command_sequence || events[events.len()
                - 1].sequence > self.last_event_sequence {
                return self.fail(
                    CallAuctionMarketDataError::TraceMismatch(
                        "replayed auction report contains unpublished future state",
                    ),
                );
            }
            return Ok(CallAuctionMarketDataBatch { updates: Vec::new(), replayed: true });
        }
        let expected_command: u64 = match self.last_command_sequence.checked_add(1) {
            Some(expected) => expected,
            None => {
                return Err(CallAuctionMarketDataError::ArithmeticOverflow);
            },
        };
        if report.command_sequence != expected_command {
            return self.fail(
                CallAuctionMarketDataError::CommandSequenceGap {
                    expected: expected_command,
                    actual: report.command_sequence,
                },
            );
        }
        if events.len() > self.limits.max_batch_updates {
            return Err(
                CallAuctionMarketDataError::CapacityExceeded {
                    resource: CallAuctionMarketDataResource::BatchUpdates,
                    maximum: self.limits.max_batch_updates,
                    attempted: events.len(),
                },
            );
        }
        let mut updates: Vec<CallAuctionMarketDataUpdate> = Vec::new();
        if !try_reserve(&mut updates, events.len()) {
            return Err(
                CallAuctionMarketDataError::PreparationAllocationFailed(
                    CallAuctionMarketDataResource::BatchUpdates,
                ),
            );
        }
        self.reset();
        let expected: u64 = match self.last_event_sequence.checked_add(1) {
            Some(expected) => expected,
            None => {
                return Err(CallAuctionMarketDataError::ArithmeticOverflow);
            },
        };
        if events[0].sequence != expected {
            return self.fail(
                CallAuctionMarketDataError::SequenceGap { expected, actual: events[0].sequence },
            );
        }
        let ghost rested = *self;
        proof {
            rested.uncross_sources.lemma_view();
            assert(rested.fresh() == old(self).fresh());
            assert forall|kinds: Seq<CallAuctionMarketDataKind>| #[trigger]
                rested.updates_of(events@, kinds) == old(self).updates_of(events@, kinds) by {
                assert(rested.updates_of(events@, kinds) =~= old(self).updates_of(events@, kinds));
            }
        }
        self.publish_trace(command, report, engine, updates)
    }
}

/// Levels of a depth index from best to worst.
pub open spec fn ranked_levels(side: Side, entries: Seq<(Price, Aggregate)>) -> Seq<
    CallAuctionMarketDataLevel,
> {
    Seq::new(
        entries.len(),
        |i: int|
            {
                let entry = match side {
                    Side::Buy => entries[entries.len() - 1 - i],
                    Side::Sell => entries[i],
                };
                entry.1.level(side, AuctionOrderConstraint::Limit(entry.0))
            },
    )
}

/// Every aggregate of a depth index has lots exactly when it has orders.
pub open spec fn entries_shaped(entries: Seq<(Price, Aggregate)>) -> bool {
    forall|i: int| 0 <= i < entries.len() ==> (#[trigger] entries[i]).1.shaped()
}

/// Appends the levels of a depth index from best to worst, until one is not
/// shaped.
fn push_ranked_levels(
    levels: &OrderedMap<Price, Aggregate>,
    side: Side,
    output: &mut Vec<CallAuctionMarketDataLevel>,
) -> (r: Result<(), CallAuctionMarketDataError>)
    requires
        old(output)@.len() == 0,
    ensures
        match r {
            Ok(_) => entries_shaped(levels.entries@) && final(output)@ == ranked_levels(
                side,
                levels.entries@,
            ),
            Err(error) => !entries_shaped(levels.entries@) && error.refutes_update(
                level_shape_text(),
            ),
        },
{
    let count: usize = levels.len();
    let ghost entries = levels.entries@;
    while output.len() < count
        invariant
            entries == levels.entries@,
            count == entries.len(),
            output@.len() <= count,
            output@ == ranked_levels(side, entries).take(output@.len() as int),
            match side {
                Side::Buy => forall|i: int|
                    count - output@.len() <= i < count ==> (#[trigger] entries[i]).1.shaped(),
                Side::Sell => forall|i: int|
                    0 <= i < output@.len() ==> (#[trigger] entries[i]).1.shaped(),
            },
        decreases count - output@.len(),
    {
        let index: usize = match side {
            Side::Buy => count - 1 - output.len(),
            Side::Sell => output.len(),
        };
        let ghost ranked = ranked_levels(side, entries);
        let ghost rank = output@.len() as int;
        match level_from_aggregate(
            side,
            AuctionOrderConstraint::Limit(levels.key_at(index)),
            levels.value_at(index),
        ) {
            Ok(level) => {
                proof {
                    assert(entries[index as int].1.shaped());
                    assert(ranked.take(rank + 1) =~= ranked.take(rank).push(ranked[rank]));
                }
                output.push(level);
            },
            Err(error) => {
                proof {
                    assert(!entries[index as int].1.shaped());
                }
                return Err(error);
            },
        }
    }
    proof {
        let ranked = ranked_levels(side, entries);
        assert(ranked.take(count as int) =~= ranked);
    }
    Ok(())
}

impl CallAuctionMarketDataPublisher {
    /// A snapshot repeats the publisher state.
    pub open spec fn images(&self, snapshot: CallAuctionMarketDataSnapshot) -> bool {
        &&& snapshot.instrument_id == self.instrument_id
        &&& snapshot.instrument_version == self.instrument_version
        &&& snapshot.as_of_sequence == self.last_event_sequence
        &&& snapshot.command_sequence == self.last_command_sequence
        &&& snapshot.phase == self.phase
        &&& snapshot.book_revision == self.book_revision
        &&& snapshot.last_trade_id == self.last_trade_id
        &&& snapshot.market_buy == self.market_buy.level(Side::Buy, AuctionOrderConstraint::Market)
        &&& snapshot.market_sell == self.market_sell.level(
            Side::Sell,
            AuctionOrderConstraint::Market,
        )
        &&& snapshot.bids@ == ranked_levels(Side::Buy, self.bids.entries@)
        &&& snapshot.asks@ == ranked_levels(Side::Sell, self.asks.entries@)
    }

    fn image_with(
        &self,
        bids: Vec<CallAuctionMarketDataLevel>,
        asks: Vec<CallAuctionMarketDataLevel>,
    ) -> (r: CallAuctionMarketDataSnapshot)
        ensures
            r.bids == bids,
            r.asks == asks,
            bids@ == ranked_levels(Side::Buy, self.bids.entries@) && asks@ == ranked_levels(
                Side::Sell,
                self.asks.entries@,
            ) ==> self.images(r),
    {
        CallAuctionMarketDataSnapshot {
            instrument_id: self.instrument_id,
            instrument_version: self.instrument_version,
            as_of_sequence: self.last_event_sequence,
            command_sequence: self.last_command_sequence,
            phase: self.phase,
            book_revision: self.book_revision,
            last_trade_id: self.last_trade_id,
            market_buy: CallAuctionMarketDataLevel {
                side: Side::Buy,
                constraint: AuctionOrderConstraint::Market,
                quantity: self.market_buy.quantity,
                order_count: self.market_buy.order_count,
            },
            market_sell: CallAuctionMarketDataLevel {
                side: Side::Sell,
                constraint: AuctionOrderConstraint::Market,
                quantity: self.market_sell.quantity,
                order_count: self.market_sell.order_count,
            },
            bids,
            asks,
        }
    }

    /// Fallibly materializes a complete full-depth recovery image.
    pub fn try_snapshot(&self) -> (r: Result<
        CallAuctionMarketDataSnapshot,
        CallAuctionMarketDataError,
    >)
        requires
            self.market_buy.shaped(),
            self.market_sell.shaped(),
        ensures
            match r {
                Ok(snapshot) => self.images(snapshot) && entries_shaped(self.bids.entries@)
                    && entries_shaped(self.asks.entries@),
                Err(error) => {
                    ||| error == CallAuctionMarketDataError::PreparationAllocationFailed(
                        CallAuctionMarketDataResource::BidPriceLevels,
                    ) && self.bids.entries@.len() > 0
                    ||| error == CallAuctionMarketDataError::PreparationAllocationFailed(
                        CallAuctionMarketDataResource::AskPriceLevels,
                    ) && self.asks.entries@.len() > 0 && entries_shaped(self.bids.entries@)
                    ||| error.refutes_update(level_shape_text()) && !(entries_shaped(
                        self.bids.entries@,
                    ) && entries_shaped(self.asks.entries@))
                },
            },
    {
        let mut bids: Vec<CallAuctionMarketDataLevel> = Vec::new();
        if !try_reserve(&mut bids, self.bids.len()) {
            return Err(
                CallAuctionMarketDataError::PreparationAllocationFailed(
                    CallAuctionMarketDataResource::BidPriceLevels,
                ),
            );
        }
        if let Err(error) = push_ranked_levels(&self.bids, Side::Buy, &mut bids) {
            return Err(error);
        }
        let mut asks: Vec<CallAuctionMarketDataLevel> = Vec::new();
        if !try_reserve(&mut asks, self.asks.len()) {
            return Err(
                CallAuctionMarketDataError::PreparationAllocationFailed(
                    CallAuctionMarketDataResource::AskPriceLevels,
                ),
            );
        }
        if let Err(error) = push_ranked_levels(&self.asks, Side::Sell, &mut asks) {
            return Err(error);
        }
        Ok(self.image_with(bids, asks))
    }

    /// Materializes a complete full-depth image.
    #[must_use]
    pub fn snapshot(&self) -> (r: CallAuctionMarketDataSnapshot)
        requires
            self.market_buy.shaped(),
            self.market_sell.shaped(),
            entries_shaped(self.bids.entries@),
            entries_shaped(self.asks.entries@),
        ensures
            self.images(r),
    {
        let mut bids: Vec<CallAuctionMarketDataLevel> = Vec::new();
        let _ = push_ranked_levels(&self.bids, Side::Buy, &mut bids);
        let mut asks: Vec<CallAuctionMarketDataLevel> = Vec::new();
        let _ = push_ranked_levels(&self.asks, Side::Sell, &mut asks);
        self.image_with(bids, asks)
    }
}

} // verus!
