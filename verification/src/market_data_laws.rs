//! Laws of public market data.

use vstd::prelude::*;

use crate::auction::AuctionOrderConstraint;
use crate::auction_engine::CallAuctionEngine;
use crate::book_lemmas::lemma_queue_spells;
use crate::book_state::{in_queue, queue_ids, CallAuctionBook};
use crate::domain::{OrderId, Price, Side};
use crate::engine_grammar::{accepted_grammar, report_grammar};
use crate::engine_types::{
    CallAuctionCancellationReason, CallAuctionCommand, CallAuctionCommandOutcome,
    CallAuctionCommandReportCheckpoint, CallAuctionEvent, CallAuctionEventKind,
    CallAuctionExecutionReport, CallAuctionPhase,
};
use crate::instrument::InstrumentDefinition;
use crate::market_data_publication::{
    book_orders, lemma_queue_shaped, queue_aggregate, ranked_levels, report_bound,
};
use crate::market_data_publisher::CallAuctionMarketDataPublisher;
use crate::market_data_replica::{
    batch_whole, empty_public, is_acceptance, is_mass_cancel, is_mass_removal, is_replacement,
    level_use, level_valid, link_fault, mass_cancel_whole, mass_lots, one_time, replacement_whole,
    CallAuctionMarketDataReplica, LevelKey, LevelUse,
};
use crate::market_data_state::{level_aggregate, price_admitted, Aggregate, CycleTrace, PublicBook};
use crate::market_data_types::{
    depth_ordered, level_price, CallAuctionMarketDataBatch, CallAuctionMarketDataError,
    CallAuctionMarketDataKind, CallAuctionMarketDataLevel, CallAuctionMarketDataLimits,
    CallAuctionMarketDataSnapshot, CallAuctionMarketDataUpdate,
};
use crate::ordered_map::{MapKey, OrderedMap};
use crate::publisher_model::{
    aggregate_less, aggregate_plus, mass_start, submission, uncross_start, MassCancelProgress,
    PublisherState, TrackedOrder,
};
use crate::replica_batches::{
    depth_sound, lemma_after_all_sound, levels_admitted, levels_depth, public_sound,
    snapshot_public,
};

verus! {

/// The limit of every active order lies on the grid and within the collar.
pub open spec fn orders_admitted(
    orders: Map<OrderId, TrackedOrder>,
    definition: InstrumentDefinition,
) -> bool {
    forall|id: OrderId| #[trigger]
        orders.dom().contains(id) ==> price_admitted(definition, orders[id].constraint)
}

/// A trace has a price exactly when it has trades and lots.
pub open spec fn trace_sound(trace: CycleTrace) -> bool {
    &&& trace.price is None ==> trace.trade_count == 0 && trace.executed_quantity == 0
    &&& trace.price is Some ==> trace.trade_count > 0 && trace.executed_quantity > 0
}

/// A mass cancellation has removed lots exactly when it has removed orders.
pub open spec fn mass_sound(mass: MassCancelProgress) -> bool {
    mass.order_count == 0 <==> mass.quantity_lots == 0
}

/// An event that only the removals and trades before a completion can be.
pub open spec fn body_kind(kind: CallAuctionEventKind) -> bool {
    match kind {
        CallAuctionEventKind::OrderCancelled { reason, .. } => reason
            == CallAuctionCancellationReason::Replaced || reason
            == CallAuctionCancellationReason::MassCancel,
        CallAuctionEventKind::Trade(_) => true,
        CallAuctionEventKind::RemainderCancelled(_) => true,
        _ => false,
    }
}

/// An event that a phase allows a replica to follow.
pub open spec fn phase_allows(phase: CallAuctionPhase, kind: CallAuctionEventKind) -> bool {
    match kind {
        CallAuctionEventKind::OrderCancelled { reason, .. } => reason
            == CallAuctionCancellationReason::Replaced ==> phase == CallAuctionPhase::Collecting,
        CallAuctionEventKind::RemainderCancelled(_) => phase == CallAuctionPhase::Frozen,
        _ => true,
    }
}

/// The limit of an accepted order lies on the grid and within the collar, and
/// the leaves of an amended order are positive.
pub open spec fn event_sound(kind: CallAuctionEventKind, definition: InstrumentDefinition) -> bool {
    match kind {
        CallAuctionEventKind::OrderAccepted(order) => price_admitted(definition, order.constraint),
        CallAuctionEventKind::OrderAmended { order, .. } => order.quantity.wf(),
        _ => true,
    }
}

/// Publisher state from which a replica can follow the next event.
pub open spec fn followable(
    state: PublisherState,
    definition: InstrumentDefinition,
    sequence: u64,
) -> bool {
    &&& orders_admitted(state.orders, definition)
    &&& !state.uncross.completed
    &&& trace_sound(state.uncross.trace)
    &&& mass_sound(state.mass)
    &&& state.book_revision <= sequence
    &&& state.phase.revision <= sequence
    &&& state.last_trade_id matches Some(id) ==> id.value <= sequence
}

proof fn lemma_reduced(state: PublisherState, id: OrderId, lots: u64, few: usize, many: usize)
    requires
        state.reduced(id, lots, few) is Some,
        few <= many,
    ensures
        ({
            let order = state.orders[id];
            let (next, level) = state.reduced(id, lots, few)->0;
            let before = state.book.at(order.side, order.constraint);
            &&& next.book == state.book.set(level)
            &&& level.side == order.side
            &&& level.constraint == order.constraint
            &&& level.shaped()
            &&& state.book.holds(level, many)
            &&& before != Aggregate::none()
            &&& level.quantity + lots == before.quantity
            &&& level.order_count == before.order_count - (if lots == order.leaves {
                1int
            } else {
                0int
            })
            &&& next.phase == state.phase
            &&& next.book_revision == state.book_revision
            &&& next.last_trade_id == state.last_trade_id
            &&& next.uncross == state.uncross
            &&& next.mass == state.mass
            &&& next.sources == state.sources
        }),
{
    let (next, level) = state.reduced(id, lots, few)->0;
    let order = state.orders[id];
    assert(level_aggregate(level) == aggregate_less(
        state.book.at(order.side, order.constraint),
        lots,
        lots == order.leaves,
    ));
}

proof fn lemma_reduced_admitted(
    state: PublisherState,
    id: OrderId,
    lots: u64,
    maximum: usize,
    definition: InstrumentDefinition,
)
    requires
        state.reduced(id, lots, maximum) is Some,
        orders_admitted(state.orders, definition),
    ensures
        ({
            let (next, _) = state.reduced(id, lots, maximum)->0;
            orders_admitted(next.orders, definition)
        }),
{
    let (next, _) = state.reduced(id, lots, maximum)->0;
    assert forall|other: OrderId| #[trigger] next.orders.dom().contains(other) implies price_admitted(
        definition,
        next.orders[other].constraint,
    ) by {
        assert(state.orders.dom().contains(other));
    }
}

/// A replica with the public state of the publisher follows one event.
proof fn lemma_step_followed(
    state: PublisherState,
    command: CallAuctionCommand,
    event: CallAuctionEventKind,
    limits: CallAuctionMarketDataLimits,
    definition: InstrumentDefinition,
    maximum: usize,
    update: CallAuctionMarketDataUpdate,
)
    requires
        state.step(command, event, limits) is Some,
        followable(state, definition, (update.sequence - 1) as u64),
        update.sequence > 0,
        update.kind == (state.step(command, event, limits)->0).1,
        limits.max_price_levels_per_side <= maximum,
        phase_allows(state.phase.phase, event),
        event_sound(event, definition),
        event is PhaseChanged ==> state.uncross.trace == CycleTrace::none(),
    ensures
        ({
            let (next, _) = state.step(command, event, limits)->0;
            &&& state.public((update.sequence - 1) as u64).after(definition, maximum, update)
                == Some(next.public(update.sequence))
            &&& orders_admitted(next.orders, definition)
            &&& trace_sound(next.uncross.trace)
            &&& mass_sound(next.mass)
            &&& next.book_revision <= update.sequence
            &&& next.phase.revision <= update.sequence
            &&& next.last_trade_id matches Some(id) ==> id.value <= update.sequence
            &&& body_kind(event) ==> next.phase == state.phase && next.book_revision
                == state.book_revision && !next.uncross.completed && next.mass.completed
                == state.mass.completed
            &&& next.book_revision <= state.book_revision + 1
            &&& next.phase.revision <= state.phase.revision + 1
        }),
{
    let few = limits.max_price_levels_per_side;
    let before = state.public((update.sequence - 1) as u64);
    let (next, kind) = state.step(command, event, limits)->0;
    match event {
        CallAuctionEventKind::OrderCancelled { order, .. } => {
            lemma_reduced(state, order.order_id, order.quantity.lots, few, maximum);
            lemma_reduced_admitted(state, order.order_id, order.quantity.lots, few, definition);
            assert(before.after(definition, maximum, update) == Some(next.public(update.sequence)));
        },
        CallAuctionEventKind::OrderAmended { order, previous_quantity, .. } => {
            let less = (previous_quantity.lots - order.quantity.lots) as u64;
            lemma_reduced(state, order.order_id, less, few, maximum);
            lemma_reduced_admitted(state, order.order_id, less, few, definition);
            assert(before.after(definition, maximum, update) == Some(next.public(update.sequence)));
        },
        CallAuctionEventKind::OrderAccepted(order) => {
            let level = kind->Book_level;
            assert(level_aggregate(level) == aggregate_plus(
                state.book.at(order.side, order.constraint),
                order.quantity.lots,
            ));
            assert forall|other: OrderId| #[trigger]
                next.orders.dom().contains(other) implies price_admitted(
                definition,
                next.orders[other].constraint,
            ) by {
                if other != order.order_id {
                    assert(state.orders.dom().contains(other));
                }
            }
            assert(before.after(definition, maximum, update) == Some(next.public(update.sequence)));
        },
        CallAuctionEventKind::Trade(trade) => {
            let lots = trade.quantity.lots;
            let recalled = state.recalled(trade, limits.max_active_orders)->0;
            assert(recalled.orders == state.orders && recalled.book == state.book);
            lemma_reduced(recalled, trade.buy_order_id, lots, few, maximum);
            lemma_reduced_admitted(recalled, trade.buy_order_id, lots, few, definition);
            let (bought, buy) = recalled.reduced(trade.buy_order_id, lots, few)->0;
            assert(trade.buy_order_id != trade.sell_order_id);
            lemma_reduced(bought, trade.sell_order_id, lots, few, maximum);
            lemma_reduced_admitted(bought, trade.sell_order_id, lots, few, definition);
            let (sold, sell) = bought.reduced(trade.sell_order_id, lots, few)->0;
            assert(bought.orders[trade.sell_order_id] == state.orders[trade.sell_order_id]);
            assert(bought.book.at(Side::Sell, sell.constraint) == state.book.at(
                Side::Sell,
                sell.constraint,
            ));
            assert(bought.book.depth(Side::Sell) == state.book.depth(Side::Sell));
            assert(price_admitted(definition, buy.constraint)) by {
                assert(state.orders.dom().contains(trade.buy_order_id));
            }
            assert(price_admitted(definition, sell.constraint)) by {
                assert(state.orders.dom().contains(trade.sell_order_id));
            }
            assert(before.after(definition, maximum, update) == Some(next.public(update.sequence)));
        },
        CallAuctionEventKind::RemainderCancelled(cancellation) => {
            let id = cancellation.order_id;
            let lots = cancellation.quantity.lots;
            let recalled = state.remembered(
                id,
                state.orders[id].leaves,
                limits.max_active_orders,
            )->0;
            assert(recalled.orders == state.orders && recalled.book == state.book);
            lemma_reduced(recalled, id, lots, few, maximum);
            lemma_reduced_admitted(recalled, id, lots, few, definition);
            assert(before.after(definition, maximum, update) == Some(next.public(update.sequence)));
        },
        _ => {
            assert(before.after(definition, maximum, update) == Some(next.public(update.sequence)));
        },
    }
}

/// A trace that a replica can follow from a publisher state at rest.
pub open spec fn trace_followable(
    start: PublisherState,
    events: Seq<CallAuctionEvent>,
    definition: InstrumentDefinition,
) -> bool {
    &&& events.len() > 0
    &&& start.uncross == uncross_start()
    &&& start.mass == mass_start()
    &&& forall|i: int| 0 <= i < events.len() - 1 ==> body_kind((#[trigger] events[i]).kind)
    &&& forall|i: int|
        0 <= i < events.len() ==> phase_allows(start.phase.phase, (#[trigger] events[i]).kind)
            && event_sound(events[i].kind, definition)
}

/// Updates carry the payloads of a trace after one boundary.
pub open spec fn updates_carry(
    updates: Seq<CallAuctionMarketDataUpdate>,
    kinds: Seq<CallAuctionMarketDataKind>,
    sequence: u64,
) -> bool {
    &&& updates.len() == kinds.len()
    &&& sequence + updates.len() <= u64::MAX
    &&& forall|i: int|
        0 <= i < updates.len() ==> (#[trigger] updates[i]).kind == kinds[i] && updates[i].sequence
            == sequence + 1 + i
}

/// A replica with the public state of the publisher follows a trace.
proof fn lemma_trace_followed(
    start: PublisherState,
    command: CallAuctionCommand,
    events: Seq<CallAuctionEvent>,
    limits: CallAuctionMarketDataLimits,
    definition: InstrumentDefinition,
    maximum: usize,
    updates: Seq<CallAuctionMarketDataUpdate>,
    sequence: u64,
    count: nat,
)
    requires
        count <= events.len(),
        start.steps(command, events, limits, events.len()) is Some,
        trace_followable(start, events, definition),
        followable(start, definition, sequence),
        updates_carry(
            updates,
            (start.steps(command, events, limits, events.len())->0).1,
            sequence,
        ),
        limits.max_price_levels_per_side <= maximum,
    ensures
        start.steps(command, events, limits, count) is Some,
        ({
            let (state, kinds) = start.steps(command, events, limits, count)->0;
            &&& start.public(sequence).after_all(definition, maximum, updates, count) == Some(
                state.public((sequence + count) as u64),
            )
            &&& orders_admitted(state.orders, definition)
            &&& state.book_revision <= start.book_revision + (if count < events.len() {
                0int
            } else {
                1int
            })
            &&& state.phase.revision <= start.phase.revision + (if count < events.len() {
                0int
            } else {
                1int
            })
            &&& count < events.len() ==> {
                &&& followable(state, definition, (sequence + count) as u64)
                &&& state.phase == start.phase
                &&& !state.mass.completed
                &&& count > 0 ==> !(command is PhaseControl)
            }
        }),
    decreases count,
{
    let total = events.len();
    start.lemma_steps_prefix(command, events, limits, count, total);
    if count > 0 {
        let last = (count - 1) as nat;
        lemma_trace_followed(
            start,
            command,
            events,
            limits,
            definition,
            maximum,
            updates,
            sequence,
            last,
        );
        let (before, _) = start.steps(command, events, limits, last)->0;
        let (_, kinds) = start.steps(command, events, limits, total)->0;
        let (state, few) = start.steps(command, events, limits, count)->0;
        let update = updates[last as int];
        let event = events[last as int].kind;
        assert(few[last as int] == kinds[last as int]);
        assert(update.kind == (before.step(command, event, limits)->0).1);
        assert(update.sequence == sequence + count);
        if last == 0 {
            assert(start.steps(command, events, limits, 0) == Some(
                (start, Seq::<CallAuctionMarketDataKind>::empty()),
            ));
        }
        assert(phase_allows(start.phase.phase, event));
        assert(event_sound(event, definition));
        if count < total {
            assert(body_kind(event));
        }
        lemma_step_followed(before, command, event, limits, definition, maximum, update);
    }
}

/// The level key of a limit.
pub open spec fn limit_key(side: Side, constraint: AuctionOrderConstraint) -> Option<LevelKey> {
    match constraint {
        AuctionOrderConstraint::Limit(price) => Some(LevelKey { side, price }),
        AuctionOrderConstraint::Market => None,
    }
}

/// Every occupied level is one of some keys.
spec fn keys_cover(book: PublicBook, keys: Set<LevelKey>) -> bool {
    &&& forall|price: Price| #[trigger]
        book.bids.dom().contains(price) ==> keys.contains(LevelKey { side: Side::Buy, price })
    &&& forall|price: Price| #[trigger]
        book.asks.dom().contains(price) ==> keys.contains(LevelKey { side: Side::Sell, price })
}

/// Both sides have no more levels than a maximum.
spec fn book_bounded(book: PublicBook, maximum: usize) -> bool {
    &&& book.bids.dom().finite()
    &&& book.asks.dom().finite()
    &&& book.bids.len() <= maximum
    &&& book.asks.len() <= maximum
}

/// Levels in use are those of a book, and only some keys were named.
spec fn uses_book(using: LevelUse, book: PublicBook, keys: Set<LevelKey>) -> bool {
    &&& using.bids == book.bids.dom()
    &&& using.asks == book.asks.dom()
    &&& using.touched.subset_of(keys)
}

/// Setting a level keeps use, keys and bounds in step with the book.
proof fn lemma_level_used(
    using: LevelUse,
    book: PublicBook,
    level: CallAuctionMarketDataLevel,
    few: usize,
    limits: CallAuctionMarketDataLimits,
    keys: Set<LevelKey>,
)
    requires
        uses_book(using, book, keys),
        keys_cover(book, keys),
        book_bounded(book, few),
        few <= limits.max_price_levels_per_side,
        keys.finite(),
        keys.len() <= limits.max_batch_updates,
        level.shaped(),
        book.holds(level, few),
        limit_key(level.side, level.constraint) matches Some(key) ==> keys.contains(key),
    ensures
        using.with(level, limits) matches Some(next) && uses_book(next, book.set(level), keys),
        keys_cover(book.set(level), keys),
        book_bounded(book.set(level), few),
{
    if let AuctionOrderConstraint::Limit(price) = level.constraint {
        let key = LevelKey { side: level.side, price };
        let depth = book.depth(level.side);
        let next = book.set(level).depth(level.side);
        let prices = if level.quantity == 0 {
            using.prices(level.side).remove(price)
        } else {
            using.prices(level.side).insert(price)
        };
        assert(next.dom() =~= prices);
        if depth.dom().contains(price) {
            if level.quantity != 0 {
                assert(next.dom() =~= depth.dom());
            }
        }
        if !using.touched.contains(key) {
            assert(using.touched.subset_of(keys.remove(key)));
            vstd::set_lib::lemma_len_subset(using.touched, keys.remove(key));
        }
        let used = using.with(level, limits)->0;
        assert(used.touched.subset_of(keys));
        assert forall|other: Price| #[trigger] next.dom().contains(other) implies keys.contains(
            LevelKey { side: level.side, price: other },
        ) by {
            if other != price {
                assert(depth.dom().contains(other));
            }
        }
    }
}

/// An occupied aggregate has a covered key.
proof fn lemma_occupied_covered(
    book: PublicBook,
    side: Side,
    constraint: AuctionOrderConstraint,
    keys: Set<LevelKey>,
)
    requires
        keys_cover(book, keys),
        book.at(side, constraint) != Aggregate::none(),
    ensures
        limit_key(side, constraint) matches Some(key) ==> keys.contains(key),
{
    if let AuctionOrderConstraint::Limit(price) = constraint {
        assert(book.depth(side).dom().contains(price));
    }
}

/// One event needs no more levels than there may be.
proof fn lemma_step_used(
    state: PublisherState,
    command: CallAuctionCommand,
    event: CallAuctionEventKind,
    limits: CallAuctionMarketDataLimits,
    using: LevelUse,
    given: CallAuctionMarketDataLimits,
    keys: Set<LevelKey>,
)
    requires
        state.step(command, event, limits) is Some,
        uses_book(using, state.book, keys),
        keys_cover(state.book, keys),
        book_bounded(state.book, limits.max_price_levels_per_side),
        limits.max_price_levels_per_side <= given.max_price_levels_per_side,
        keys.finite(),
        keys.len() <= given.max_batch_updates,
        event matches CallAuctionEventKind::OrderAccepted(order) ==> (limit_key(
            order.side,
            order.constraint,
        ) matches Some(key) ==> keys.contains(key)),
    ensures
        ({
            let (next, kind) = state.step(command, event, limits)->0;
            &&& using.after(kind, given) matches Some(used) && uses_book(used, next.book, keys)
            &&& keys_cover(next.book, keys)
            &&& book_bounded(next.book, limits.max_price_levels_per_side)
        }),
{
    let few = limits.max_price_levels_per_side;
    let (next, kind) = state.step(command, event, limits)->0;
    match event {
        CallAuctionEventKind::OrderCancelled { order, .. } => {
            let known = state.orders[order.order_id];
            lemma_reduced(state, order.order_id, order.quantity.lots, few, few);
            lemma_occupied_covered(state.book, known.side, known.constraint, keys);
            lemma_level_used(using, state.book, kind->Book_level, few, given, keys);
        },
        CallAuctionEventKind::OrderAmended { order, previous_quantity, .. } => {
            let known = state.orders[order.order_id];
            let less = (previous_quantity.lots - order.quantity.lots) as u64;
            lemma_reduced(state, order.order_id, less, few, few);
            lemma_occupied_covered(state.book, known.side, known.constraint, keys);
            lemma_level_used(using, state.book, kind->Book_level, few, given, keys);
        },
        CallAuctionEventKind::OrderAccepted(order) => {
            let level = kind->Book_level;
            assert(level_aggregate(level) == aggregate_plus(
                state.book.at(order.side, order.constraint),
                order.quantity.lots,
            ));
            lemma_level_used(using, state.book, level, few, given, keys);
        },
        CallAuctionEventKind::Trade(trade) => {
            let lots = trade.quantity.lots;
            let recalled = state.recalled(trade, limits.max_active_orders)->0;
            assert(recalled.orders == state.orders && recalled.book == state.book);
            let bid = state.orders[trade.buy_order_id];
            lemma_reduced(recalled, trade.buy_order_id, lots, few, few);
            let (bought, buy) = recalled.reduced(trade.buy_order_id, lots, few)->0;
            lemma_occupied_covered(state.book, bid.side, bid.constraint, keys);
            lemma_level_used(using, state.book, buy, few, given, keys);
            let halfway = using.with(buy, given)->0;
            let ask = bought.orders[trade.sell_order_id];
            lemma_reduced(bought, trade.sell_order_id, lots, few, few);
            let (sold, sell) = bought.reduced(trade.sell_order_id, lots, few)->0;
            lemma_occupied_covered(bought.book, ask.side, ask.constraint, keys);
            lemma_level_used(halfway, bought.book, sell, few, given, keys);
        },
        CallAuctionEventKind::RemainderCancelled(cancellation) => {
            let id = cancellation.order_id;
            let known = state.orders[id];
            let recalled = state.remembered(id, known.leaves, limits.max_active_orders)->0;
            assert(recalled.orders == state.orders && recalled.book == state.book);
            lemma_reduced(recalled, id, cancellation.quantity.lots, few, few);
            lemma_occupied_covered(state.book, known.side, known.constraint, keys);
            lemma_level_used(using, state.book, kind->Book_level, few, given, keys);
        },
        _ => {},
    }
}

/// A trace needs no more levels than there may be.
proof fn lemma_trace_used(
    start: PublisherState,
    command: CallAuctionCommand,
    events: Seq<CallAuctionEvent>,
    limits: CallAuctionMarketDataLimits,
    given: CallAuctionMarketDataLimits,
    keys: Set<LevelKey>,
    updates: Seq<CallAuctionMarketDataUpdate>,
    sequence: u64,
    count: nat,
)
    requires
        count <= events.len(),
        start.steps(command, events, limits, events.len()) is Some,
        updates_carry(
            updates,
            (start.steps(command, events, limits, events.len())->0).1,
            sequence,
        ),
        keys_cover(start.book, keys),
        book_bounded(start.book, limits.max_price_levels_per_side),
        limits.max_price_levels_per_side <= given.max_price_levels_per_side,
        keys.finite(),
        keys.len() <= given.max_batch_updates,
        forall|i: int|
            0 <= i < events.len() ==> ((
            #[trigger] events[i]).kind matches CallAuctionEventKind::OrderAccepted(order) ==> (
            limit_key(order.side, order.constraint) matches Some(key) ==> keys.contains(key))),
    ensures
        start.steps(command, events, limits, count) is Some,
        ({
            let (state, _) = start.steps(command, events, limits, count)->0;
            &&& level_use(start.book.bids, start.book.asks).after_all(
                updates,
                given,
                count,
            ) matches Some(used) && uses_book(used, state.book, keys)
            &&& keys_cover(state.book, keys)
            &&& book_bounded(state.book, limits.max_price_levels_per_side)
        }),
    decreases count,
{
    let total = events.len();
    start.lemma_steps_prefix(command, events, limits, count, total);
    if count > 0 {
        let last = (count - 1) as nat;
        lemma_trace_used(
            start,
            command,
            events,
            limits,
            given,
            keys,
            updates,
            sequence,
            last,
        );
        let (before, _) = start.steps(command, events, limits, last)->0;
        let (_, kinds) = start.steps(command, events, limits, total)->0;
        let (_, few) = start.steps(command, events, limits, count)->0;
        assert(few[last as int] == kinds[last as int]);
        assert(updates[last as int].kind == kinds[last as int]);
        let using = level_use(start.book.bids, start.book.asks).after_all(updates, given, last)->0;
        lemma_step_used(before, command, events[last as int].kind, limits, using, given, keys);
    }
}

/// What the payload of an event says of the event.
proof fn lemma_kind_of(
    state: PublisherState,
    command: CallAuctionCommand,
    event: CallAuctionEventKind,
    limits: CallAuctionMarketDataLimits,
)
    requires
        state.step(command, event, limits) is Some,
    ensures
        ({
            let (next, kind) = state.step(command, event, limits)->0;
            &&& is_replacement(kind) <==> (event matches CallAuctionEventKind::OrderCancelled {
                reason: CallAuctionCancellationReason::Replaced,
                ..
            })
            &&& is_mass_removal(kind) <==> (event matches CallAuctionEventKind::OrderCancelled {
                reason: CallAuctionCancellationReason::MassCancel,
                ..
            })
            &&& kind is MassCancelCompleted <==> event is MassCancelCompleted
            &&& is_acceptance(kind) <==> event is OrderAccepted
            &&& is_mass_removal(kind) ==> next.mass.quantity_lots == state.mass.quantity_lots
                + kind->Book_quantity.lots && next.mass.order_count == state.mass.order_count + 1
            &&& body_kind(event) ==> next.phase == state.phase
            &&& is_replacement(kind) ==> command is Replace
            &&& is_mass_cancel(kind) ==> command is MassCancel
            &&& event is Trade || event is RemainderCancelled || event is UncrossCompleted
                ==> command is Uncross
            &&& event is UncrossCompleted ==> state.phase.phase == CallAuctionPhase::Frozen
            &&& event is OrderAccepted ==> state.phase.phase == CallAuctionPhase::Collecting
        }),
{
}

/// Removals and trades keep the phase.
proof fn lemma_body_phase(
    start: PublisherState,
    command: CallAuctionCommand,
    events: Seq<CallAuctionEvent>,
    limits: CallAuctionMarketDataLimits,
    count: nat,
)
    requires
        count <= events.len(),
        start.steps(command, events, limits, count) is Some,
        forall|i: int| 0 <= i < count ==> body_kind((#[trigger] events[i]).kind),
    ensures
        (start.steps(command, events, limits, count)->0).0.phase == start.phase,
    decreases count,
{
    if count > 0 {
        let last = (count - 1) as nat;
        start.lemma_steps_prefix(command, events, limits, last, count);
        lemma_body_phase(start, command, events, limits, last);
        let (before, _) = start.steps(command, events, limits, last)->0;
        assert(body_kind(events[last as int].kind));
        lemma_kind_of(before, command, events[last as int].kind, limits);
    }
}

/// An engine's trace is one that a replica can follow.
proof fn lemma_grammar_followable(
    start: PublisherState,
    entry: CallAuctionCommandReportCheckpoint,
    limits: CallAuctionMarketDataLimits,
    definition: InstrumentDefinition,
)
    requires
        report_grammar(entry),
        start.steps(
            entry.command,
            entry.report.events@,
            limits,
            entry.report.events@.len(),
        ) is Some,
        start.uncross == uncross_start(),
        start.mass == mass_start(),
        forall|i: int|
            0 <= i < entry.report.events@.len() ==> event_sound(
                (#[trigger] entry.report.events@[i]).kind,
                definition,
            ),
    ensures
        trace_followable(start, entry.report.events@, definition),
{
    let command = entry.command;
    let events = entry.report.events@;
    let body = (events.len() - 1) as nat;
    assert(forall|i: int| 0 <= i < body ==> body_kind((#[trigger] events[i]).kind));
    start.lemma_steps_prefix(command, events, limits, body, events.len());
    lemma_body_phase(start, command, events, limits, body);
    let (before, _) = start.steps(command, events, limits, body)->0;
    assert(start.steps(command, events, limits, events.len()) is Some);
    lemma_kind_of(before, command, events[body as int].kind, limits);
    assert forall|i: int| 0 <= i < events.len() implies phase_allows(
        start.phase.phase,
        (#[trigger] events[i]).kind,
    ) by {
        if i == body {
            match entry.report.outcome {
                CallAuctionCommandOutcome::Rejected(_) => {},
                CallAuctionCommandOutcome::Accepted => {
                    assert(accepted_grammar(command, events));
                },
            }
        }
    }
}

/// Lots of mass removals among the first updates of a mass cancellation.
proof fn lemma_mass_traced(
    start: PublisherState,
    command: CallAuctionCommand,
    events: Seq<CallAuctionEvent>,
    limits: CallAuctionMarketDataLimits,
    updates: Seq<CallAuctionMarketDataUpdate>,
    sequence: u64,
    count: nat,
)
    requires
        count < events.len(),
        start.steps(command, events, limits, events.len()) is Some,
        start.mass == mass_start(),
        updates_carry(
            updates,
            (start.steps(command, events, limits, events.len())->0).1,
            sequence,
        ),
        forall|i: int|
            0 <= i < events.len() - 1 ==> ((
            #[trigger] events[i]).kind matches CallAuctionEventKind::OrderCancelled {
                reason: CallAuctionCancellationReason::MassCancel,
                ..
            }),
    ensures
        start.steps(command, events, limits, count) is Some,
        (start.steps(command, events, limits, count)->0).0.mass.quantity_lots == mass_lots(
            updates,
            count,
        ),
    decreases count,
{
    let total = events.len();
    start.lemma_steps_prefix(command, events, limits, count, total);
    if count > 0 {
        let last = (count - 1) as nat;
        lemma_mass_traced(start, command, events, limits, updates, sequence, last);
        let (before, _) = start.steps(command, events, limits, last)->0;
        let (_, kinds) = start.steps(command, events, limits, total)->0;
        let (_, few) = start.steps(command, events, limits, count)->0;
        assert(few[last as int] == kinds[last as int]);
        assert(updates[last as int].kind == kinds[last as int]);
        lemma_kind_of(before, command, events[last as int].kind, limits);
    }
}

/// The updates of an engine's trace are a whole command batch.
proof fn lemma_grammar_whole(
    start: PublisherState,
    entry: CallAuctionCommandReportCheckpoint,
    limits: CallAuctionMarketDataLimits,
    updates: Seq<CallAuctionMarketDataUpdate>,
    sequence: u64,
)
    requires
        report_grammar(entry),
        start.steps(
            entry.command,
            entry.report.events@,
            limits,
            entry.report.events@.len(),
        ) is Some,
        start.mass == mass_start(),
        updates_carry(
            updates,
            (start.steps(
                entry.command,
                entry.report.events@,
                limits,
                entry.report.events@.len(),
            )->0).1,
            sequence,
        ),
        one_time(updates),
    ensures
        batch_whole(updates),
{
    let command = entry.command;
    let events = entry.report.events@;
    let total = events.len();
    let (_, kinds) = start.steps(command, events, limits, total)->0;
    start.lemma_steps_prefix(command, events, limits, total, total);
    assert forall|i: int| 0 <= i < total implies {
        &&& is_replacement((#[trigger] updates[i]).kind) <==> (
        events[i].kind matches CallAuctionEventKind::OrderCancelled {
            reason: CallAuctionCancellationReason::Replaced,
            ..
        })
        &&& is_mass_removal(updates[i].kind) <==> (
        events[i].kind matches CallAuctionEventKind::OrderCancelled {
            reason: CallAuctionCancellationReason::MassCancel,
            ..
        })
        &&& updates[i].kind is MassCancelCompleted <==> events[i].kind is MassCancelCompleted
        &&& is_acceptance(updates[i].kind) <==> events[i].kind is OrderAccepted
        &&& is_replacement(updates[i].kind) ==> command is Replace
        &&& is_mass_cancel(updates[i].kind) ==> command is MassCancel
    } by {
        start.lemma_steps_prefix(command, events, limits, i as nat, total);
        start.lemma_steps_prefix(command, events, limits, (i + 1) as nat, total);
        let (before, _) = start.steps(command, events, limits, i as nat)->0;
        let (_, few) = start.steps(command, events, limits, (i + 1) as nat)->0;
        assert(few[i] == kinds[i]);
        lemma_kind_of(before, command, events[i].kind, limits);
    }
    if exists|i: int| 0 <= i < updates.len() && is_replacement((#[trigger] updates[i]).kind) {
        let i = choose|i: int| 0 <= i < updates.len() && is_replacement((#[trigger] updates[i]).kind);
        assert(command is Replace);
        assert(entry.report.outcome is Accepted);
        assert(accepted_grammar(command, events));
        assert(events.len() == 2);
        assert(is_replacement(updates[0].kind));
        assert(is_acceptance(updates[1].kind));
        assert(replacement_whole(updates));
    }
    if exists|i: int| 0 <= i < updates.len() && is_mass_cancel((#[trigger] updates[i]).kind) {
        let i = choose|i: int| 0 <= i < updates.len() && is_mass_cancel((#[trigger] updates[i]).kind);
        assert(command is MassCancel);
        assert(entry.report.outcome is Accepted);
        assert(accepted_grammar(command, events));
        let body = (total - 1) as nat;
        lemma_mass_traced(start, command, events, limits, updates, sequence, body);
        let (before, _) = start.steps(command, events, limits, body)->0;
        assert(updates[body as int].kind == kinds[body as int]);
        assert(before.step(command, events[body as int].kind, limits) is Some);
        assert(forall|k: int| 0 <= k < body ==> is_mass_removal((#[trigger] updates[k]).kind));
        assert(mass_cancel_whole(updates));
    }
}

impl CallAuctionMarketDataPublisher {
    /// A publisher whose snapshots and batches a replica can follow.
    pub open spec fn sound(&self, definition: InstrumentDefinition) -> bool {
        &&& self.wf()
        &&& self.layout_ok()
        &&& self.at_rest()
        &&& self.instrument_id == definition.instrument_id
        &&& self.instrument_version == definition.version
        &&& orders_admitted(self.orders@, definition)
        &&& public_sound(self.public(), definition, self.limits.max_price_levels_per_side)
        &&& self.book_revision <= self.last_command_sequence <= self.last_event_sequence
        &&& self.phase.revision <= self.last_command_sequence
    }
}

/// The replica's limits cover those of the publisher.
pub open spec fn limits_cover(
    replica: CallAuctionMarketDataLimits,
    publisher: CallAuctionMarketDataLimits,
) -> bool {
    &&& replica.wf()
    &&& publisher.max_price_levels_per_side <= replica.max_price_levels_per_side
    &&& publisher.max_batch_updates <= replica.max_batch_updates
}

/// Only an uncross makes uncross progress.
proof fn lemma_uncross_untouched(
    start: PublisherState,
    command: CallAuctionCommand,
    events: Seq<CallAuctionEvent>,
    limits: CallAuctionMarketDataLimits,
    count: nat,
)
    requires
        count <= events.len(),
        start.steps(command, events, limits, count) is Some,
        !(command is Uncross),
    ensures
        (start.steps(command, events, limits, count)->0).0.uncross == start.uncross,
    decreases count,
{
    if count > 0 {
        let last = (count - 1) as nat;
        start.lemma_steps_prefix(command, events, limits, last, count);
        lemma_uncross_untouched(start, command, events, limits, last);
        let (before, _) = start.steps(command, events, limits, last)->0;
        lemma_kind_of(before, command, events[last as int].kind, limits);
    }
}

/// Consecutive updates of one instrument version are linked.
proof fn lemma_links(
    definition: InstrumentDefinition,
    updates: Seq<CallAuctionMarketDataUpdate>,
    expected: u64,
    index: int,
)
    requires
        0 <= index <= updates.len(),
        forall|i: int|
            0 <= i < updates.len() ==> {
                &&& (#[trigger] updates[i]).instrument_id == definition.instrument_id
                &&& updates[i].instrument_version == definition.version
                &&& updates[i].sequence == expected + i - index
            },
    ensures
        link_fault(definition, updates, expected, index) is None,
    decreases updates.len() - index,
{
    if index < updates.len() {
        assert(updates[index].sequence == expected);
        if index + 1 < updates.len() {
            assert(updates[index + 1].sequence == expected + 1);
            lemma_links(definition, updates, (expected + 1) as u64, index + 1);
        }
    }
}

/// Keys of the occupied levels of a book, and how many they are.
proof fn lemma_book_keys(book: PublicBook, maximum: usize) -> (keys: Set<LevelKey>)
    requires
        book_bounded(book, maximum),
    ensures
        keys.finite(),
        keys.len() <= 2 * maximum,
        keys_cover(book, keys),
{
    let bid = |price: Price| LevelKey { side: Side::Buy, price };
    let ask = |price: Price| LevelKey { side: Side::Sell, price };
    let bids = book.bids.dom().map(bid);
    let asks = book.asks.dom().map(ask);
    vstd::set_lib::lemma_map_size_bound(book.bids.dom(), bids, bid);
    vstd::set_lib::lemma_map_size_bound(book.asks.dom(), asks, ask);
    vstd::set_lib::lemma_len_union(bids, asks);
    let keys = bids.union(asks);
    assert forall|price: Price| #[trigger] book.bids.dom().contains(price) implies keys.contains(
        LevelKey { side: Side::Buy, price },
    ) by {
        assert(bids.contains(bid(price)));
    }
    assert forall|price: Price| #[trigger] book.asks.dom().contains(price) implies keys.contains(
        LevelKey { side: Side::Sell, price },
    ) by {
        assert(asks.contains(ask(price)));
    }
    keys
}

/// Accepted limits and amended leaves of a published trace are valid.
proof fn lemma_events_sound(
    start: PublisherState,
    entry: CallAuctionCommandReportCheckpoint,
    limits: CallAuctionMarketDataLimits,
    engine: &CallAuctionEngine,
)
    requires
        engine.wf(),
        report_grammar(entry),
        entry.command matches CallAuctionCommand::Amend(amend) ==> amend.new_quantity.wf(),
        start.steps(
            entry.command,
            entry.report.events@,
            limits,
            entry.report.events@.len(),
        ) matches Some((state, _)) && state.orders == book_orders(&engine.book),
    ensures
        forall|i: int|
            0 <= i < entry.report.events@.len() ==> event_sound(
                (#[trigger] entry.report.events@[i]).kind,
                engine.book.definition,
            ),
{
    let command = entry.command;
    let events = entry.report.events@;
    let total = events.len();
    let (state, _) = start.steps(command, events, limits, total)->0;
    assert forall|i: int| 0 <= i < total implies event_sound(
        (#[trigger] events[i]).kind,
        engine.book.definition,
    ) by {
        if events[i].kind is OrderAccepted {
            assert(i == total - 1);
            let order = events[i].kind->OrderAccepted_0;
            assert(state.orders.dom().contains(order.order_id));
            assert(state.orders[order.order_id] == TrackedOrder::of(order));
            assert(engine.book.orders@.dom().contains(order.order_id));
            assert(engine.book.order_ok(order.order_id));
        }
    }
}

impl CallAuctionMarketDataReplica {
    /// A replica that holds the public state of a publisher takes the batch that
    /// the publisher gives for the next command, and then holds the public state
    /// of the publisher again. The publisher stays one that replicas can follow.
    pub proof fn law_replica_follows_publisher(
        &self,
        old: &CallAuctionMarketDataPublisher,
        new: &CallAuctionMarketDataPublisher,
        command: CallAuctionCommand,
        report: CallAuctionExecutionReport,
        engine: &CallAuctionEngine,
        batch: CallAuctionMarketDataBatch,
    )
        requires
            engine.wf(),
            self.wf(),
            self.definition == engine.book.definition,
            limits_cover(self.limits, old.limits),
            old.sound(self.definition),
            !old.poisoned,
            new.wf(),
            new.published(
                old,
                command,
                report,
                engine,
                Ok::<CallAuctionMarketDataBatch, CallAuctionMarketDataError>(batch),
            ),
            !report.replayed,
            report_grammar(CallAuctionCommandReportCheckpoint { command, report }),
            command matches CallAuctionCommand::Amend(amend) ==> amend.new_quantity.wf(),
            self.public() == old.public(),
            self.last_command_sequence == old.last_command_sequence,
        ensures
            self.admits_batch(batch.updates@),
            self.public_after(batch.updates@) == Some(new.public()),
            new.sound(self.definition),
    {
        let definition = self.definition;
        let limits = old.limits;
        let few = limits.max_price_levels_per_side;
        let many = self.limits.max_price_levels_per_side;
        let events = report.events@;
        let total = events.len();
        let sequence = old.last_event_sequence;
        let entry = CallAuctionCommandReportCheckpoint { command, report };
        let start = old.fresh();
        let updates = batch.updates@;
        old.uncross_sources.lemma_view();
        assert(old.uncross_sources@ =~= Map::<OrderId, u64>::empty());
        assert(start == old.state());
        let (state, kinds) = start.steps(command, events, limits, total)->0;
        assert(old.trace_of(command, report) == Some((state, kinds)));
        assert(updates == old.updates_of(events, kinds));
        start.lemma_steps_prefix(command, events, limits, total, total);
        assert(kinds.len() == total);
        assert(events[total - 1].sequence == events[0].sequence + (total - 1));
        assert forall|i: int| 0 <= i < updates.len() implies (#[trigger] updates[i]).kind == kinds[i]
            && updates[i].sequence == sequence + 1 + i by {
            assert(events[i].sequence == events[0].sequence + i);
        }
        assert(updates_carry(updates, kinds, sequence));
        new.uncross_sources.lemma_view();
        assert(new.uncross_sources@ =~= Map::<OrderId, u64>::empty());
        assert(new.fresh() == new.state());
        assert(state.orders == book_orders(&engine.book));
        lemma_events_sound(start, entry, limits, engine);
        lemma_grammar_followable(start, entry, limits, definition);
        lemma_trace_followed(
            start,
            command,
            events,
            limits,
            definition,
            many,
            updates,
            sequence,
            total,
        );
        lemma_trace_followed(
            start,
            command,
            events,
            limits,
            definition,
            few,
            updates,
            sequence,
            total,
        );
        if !(command is Uncross) {
            lemma_uncross_untouched(start, command, events, limits, total);
        } else if !state.uncross.completed {
            assert(total == 1);
            assert(start.steps(command, events, limits, 0) == Some(
                (start, Seq::<CallAuctionMarketDataKind>::empty()),
            ));
            assert(state.uncross == start.uncross);
        }
        assert((sequence + total) as u64 == new.last_event_sequence);
        assert(new.public() == state.public(new.last_event_sequence));
        assert(old.public() == start.public(sequence));
        lemma_after_all_sound(old.public(), definition, few, updates, total);
        self.lemma_batch_admitted(old, entry, updates);
    }

    /// A replica that holds the public state of a publisher admits the batch of
    /// the next command.
    proof fn lemma_batch_admitted(
        &self,
        old: &CallAuctionMarketDataPublisher,
        entry: CallAuctionCommandReportCheckpoint,
        updates: Seq<CallAuctionMarketDataUpdate>,
    )
        requires
            self.wf(),
            limits_cover(self.limits, old.limits),
            old.sound(self.definition),
            old.state() == old.fresh(),
            self.public() == old.public(),
            self.last_command_sequence == old.last_command_sequence < u64::MAX,
            report_bound(entry.command, entry.report),
            report_grammar(entry),
            old.trace_of(entry.command, entry.report) matches Some((_, kinds)) && updates
                == old.updates_of(entry.report.events@, kinds) && updates_carry(
                updates,
                kinds,
                old.last_event_sequence,
            ) && kinds.len() == entry.report.events@.len(),
            entry.report.events@.len() <= old.limits.max_batch_updates,
        ensures
            self.admits_batch(updates),
    {
        let command = entry.command;
        let events = entry.report.events@;
        let total = events.len();
        let limits = old.limits;
        let few = limits.max_price_levels_per_side;
        let start = old.fresh();
        let sequence = old.last_event_sequence;
        lemma_links(self.definition, updates, (sequence + 1) as u64, 0);
        lemma_grammar_whole(start, entry, limits, updates, sequence);
        let occupied = lemma_book_keys(start.book, few);
        let keys = match submission(command) {
            Some((_, _, order)) => match limit_key(order.side, order.constraint) {
                Some(key) => occupied.insert(key),
                None => occupied,
            },
            None => occupied,
        };
        assert(keys_cover(start.book, keys));
        assert(keys.len() <= 2 * few + 1);
        assert forall|i: int| 0 <= i < total implies ((
        #[trigger] events[i]).kind matches CallAuctionEventKind::OrderAccepted(order) ==> (
        limit_key(order.side, order.constraint) matches Some(key) ==> keys.contains(key))) by {
            if events[i].kind is OrderAccepted {
                assert(entry.report.outcome is Accepted);
            }
        }
        lemma_trace_used(
            start,
            command,
            events,
            limits,
            self.limits,
            keys,
            updates,
            sequence,
            total,
        );
    }
}

/// Levels with distinct prices give a depth that holds exactly them.
proof fn lemma_levels_depth(levels: Seq<CallAuctionMarketDataLevel>)
    requires
        forall|i: int, j: int|
            0 <= i < j < levels.len() ==> level_price(#[trigger] levels[i]) != level_price(
                #[trigger] levels[j],
            ),
    ensures
        forall|i: int|
            0 <= i < levels.len() ==> levels_depth(levels).dom().contains(
                level_price(#[trigger] levels[i]),
            ) && levels_depth(levels)[level_price(levels[i])] == level_aggregate(levels[i]),
        forall|price: Price| #[trigger]
            levels_depth(levels).dom().contains(price) ==> exists|i: int|
                0 <= i < levels.len() && level_price(#[trigger] levels[i]) == price,
    decreases levels.len(),
{
    if levels.len() > 0 {
        let shorter = levels.drop_last();
        assert forall|i: int, j: int| 0 <= i < j < shorter.len() implies level_price(
            #[trigger] shorter[i],
        ) != level_price(#[trigger] shorter[j]) by {
            assert(shorter[i] == levels[i] && shorter[j] == levels[j]);
        }
        lemma_levels_depth(shorter);
        assert forall|i: int| 0 <= i < levels.len() implies levels_depth(levels).dom().contains(
            level_price(#[trigger] levels[i]),
        ) && levels_depth(levels)[level_price(levels[i])] == level_aggregate(levels[i]) by {
            if i < levels.len() - 1 {
                assert(shorter[i] == levels[i]);
                assert(level_price(levels[i]) != level_price(levels[levels.len() - 1]));
            }
        }
        assert forall|price: Price| #[trigger]
            levels_depth(levels).dom().contains(price) implies exists|i: int|
            0 <= i < levels.len() && level_price(#[trigger] levels[i]) == price by {
            if price == level_price(levels.last()) {
                assert(level_price(levels[levels.len() - 1]) == price);
            } else {
                assert(levels_depth(shorter).dom().contains(price));
                let i = choose|i: int|
                    0 <= i < shorter.len() && level_price(#[trigger] shorter[i]) == price;
                assert(level_price(levels[i]) == price);
            }
        }
    }
}

/// The ranked levels of an index are its depth.
proof fn lemma_ranked_depth(
    levels: &OrderedMap<Price, Aggregate>,
    side: Side,
    definition: InstrumentDefinition,
    maximum: usize,
)
    requires
        levels.wf(),
        depth_sound(levels@, definition, maximum),
    ensures
        levels_depth(ranked_levels(side, levels.entries@)) == levels@,
        depth_ordered(side, ranked_levels(side, levels.entries@)),
        levels_admitted(definition, ranked_levels(side, levels.entries@)),
        ranked_levels(side, levels.entries@).len() <= maximum,
{
    let entries = levels.entries@;
    let ranked = ranked_levels(side, entries);
    levels.lemma_view();
    let at = |i: int|
        match side {
            Side::Buy => entries.len() - 1 - i,
            Side::Sell => i,
        };
    assert forall|i: int| 0 <= i < ranked.len() implies {
        &&& level_price(#[trigger] ranked[i]) == entries[at(i)].0
        &&& level_aggregate(ranked[i]) == entries[at(i)].1
        &&& ranked[i].constraint is Limit
        &&& ranked[i].side == side
        &&& ranked[i].quantity > 0
        &&& ranked[i].order_count > 0
        &&& price_admitted(definition, ranked[i].constraint)
    } by {
        let entry = entries[at(i)];
        assert(levels@.dom().contains(entry.0));
        assert(level_valid(definition, (entry.0, levels@[entry.0])));
    }
    assert forall|i: int, j: int| 0 <= i < j < ranked.len() implies match side {
        Side::Buy => level_price(#[trigger] ranked[i]).raw > level_price(#[trigger] ranked[j]).raw,
        Side::Sell => level_price(ranked[i]).raw < level_price(ranked[j]).raw,
    } by {
        match side {
            Side::Buy => {
                assert(entries[at(j)].0.rank() < entries[at(i)].0.rank());
            },
            Side::Sell => {
                assert(entries[at(i)].0.rank() < entries[at(j)].0.rank());
            },
        }
    }
    assert forall|i: int, j: int| 0 <= i < j < ranked.len() implies level_price(#[trigger] ranked[i])
        != level_price(#[trigger] ranked[j]) by {
        match side {
            Side::Buy => {},
            Side::Sell => {},
        }
    }
    lemma_levels_depth(ranked);
    let depth = levels_depth(ranked);
    assert forall|price: Price| levels@.dom().contains(price) implies #[trigger]
        depth.dom().contains(price) && depth[price] == levels@[price] by {
        let k = choose|k: int| 0 <= k < entries.len() && (#[trigger] entries[k]).0 == price;
        let i = match side {
            Side::Buy => entries.len() - 1 - k,
            Side::Sell => k,
        };
        assert(at(i) == k);
        assert(level_price(ranked[i]) == price);
    }
    assert forall|price: Price| #[trigger] depth.dom().contains(price) implies levels@.dom().contains(
        price,
    ) by {
        let i = choose|i: int| 0 <= i < ranked.len() && level_price(#[trigger] ranked[i]) == price;
        assert(levels@.dom().contains(entries[at(i)].0));
    }
    assert(depth =~= levels@);
}

impl CallAuctionMarketDataReplica {
    /// A replica of the same instrument version, with limits that cover the
    /// publisher and no later state, takes the snapshot of a publisher, and the
    /// snapshot holds the public state of the publisher.
    pub proof fn law_snapshot_restores_publisher(
        &self,
        publisher: &CallAuctionMarketDataPublisher,
        snapshot: CallAuctionMarketDataSnapshot,
    )
        requires
            self.wf(),
            publisher.sound(self.definition),
            publisher.images(snapshot),
            limits_cover(self.limits, publisher.limits),
            self.last_event_sequence <= publisher.last_event_sequence,
        ensures
            forall|error: CallAuctionMarketDataError|
                !#[trigger] self.refuses_snapshot(&snapshot, error),
            snapshot_public(snapshot) == publisher.public(),
            snapshot.command_sequence == publisher.last_command_sequence,
    {
        let definition = self.definition;
        let maximum = publisher.limits.max_price_levels_per_side;
        lemma_ranked_depth(&publisher.bids, Side::Buy, definition, maximum);
        lemma_ranked_depth(&publisher.asks, Side::Sell, definition, maximum);
        assert(level_aggregate(snapshot.market_buy) == publisher.market_buy);
        assert(level_aggregate(snapshot.market_sell) == publisher.market_sell);
        assert(snapshot.valid());
    }
}

/// Without active orders, every queue is empty.
proof fn lemma_vacant_queue(book: &CallAuctionBook, side: Side, constraint: AuctionOrderConstraint)
    requires
        book.wf(),
        book.is_new(),
    ensures
        queue_aggregate(book.queue_of(side, constraint)) == Aggregate::none(),
{
    let queue = book.queue_of(side, constraint);
    let ids = queue_ids(book.orders@, queue);
    lemma_queue_spells(book.orders@, queue, side, constraint);
    lemma_queue_shaped(book, side, constraint);
    if ids.len() > 0 {
        assert(in_queue(book.orders@, ids[0], side, constraint));
        assert(book.active().dom().contains(ids[0]));
    }
}

/// A replica of a fresh engine's instrument version starts with the public state
/// of a publisher of that engine.
pub proof fn law_fresh_replica_matches_fresh_publisher(
    engine: &CallAuctionEngine,
    publisher: &CallAuctionMarketDataPublisher,
)
    requires
        engine.wf(),
        engine.is_new(),
        publisher.mirrors(engine),
        publisher.layout_ok(),
        publisher.at_rest(),
    ensures
        publisher.public() == empty_public(),
        publisher.last_command_sequence == 0,
        publisher.sound(engine.book.definition),
{
    let book = &engine.book;
    publisher.bids.lemma_view();
    publisher.asks.lemma_view();
    publisher.orders.lemma_view();
    book.bids.lemma_view();
    book.asks.lemma_view();
    book.orders.lemma_view();
    lemma_vacant_queue(book, Side::Buy, AuctionOrderConstraint::Market);
    lemma_vacant_queue(book, Side::Sell, AuctionOrderConstraint::Market);
    assert forall|price: Price| !book.bids@.dom().contains(price) by {
        if book.bids@.dom().contains(price) {
            lemma_vacant_queue(book, Side::Buy, AuctionOrderConstraint::Limit(price));
        }
    }
    assert forall|price: Price| !book.asks@.dom().contains(price) by {
        if book.asks@.dom().contains(price) {
            lemma_vacant_queue(book, Side::Sell, AuctionOrderConstraint::Limit(price));
        }
    }
    assert(book.bids@.dom() =~= Set::<Price>::empty());
    assert(book.asks@.dom() =~= Set::<Price>::empty());
    assert(publisher.bids@ =~= Map::<Price, Aggregate>::empty());
    assert(publisher.asks@ =~= Map::<Price, Aggregate>::empty());
    assert(publisher.orders@.dom() =~= book.orders@.dom());
    assert forall|id: OrderId| #[trigger]
        publisher.orders@.dom().contains(id) implies price_admitted(
        engine.book.definition,
        publisher.orders@[id].constraint,
    ) by {
        assert(book.order_ok(id));
    }
}

} // verus!
