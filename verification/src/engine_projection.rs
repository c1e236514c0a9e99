//! Direct collection state as the projection of a command history.

use vstd::prelude::*;

use crate::auction::AuctionOrderConstraint;
use crate::book_interest::ActiveOrders;
use crate::book_types::{
    CallAuctionCancellation, CallAuctionOrder, CallAuctionOrderSnapshot, CallAuctionTrade,
};
use crate::domain::{AccountId, OrderId, Price, Quantity, Side};
use crate::engine_grammar::{accepts, trade_number};
use crate::engine_types::{
    CallAuctionCommand, CallAuctionCommandOutcome, CallAuctionCommandReportCheckpoint,
    CallAuctionEvent, CallAuctionEventKind,
};
use crate::instrument::InstrumentDefinition;
use crate::ordered_map::OrderedMap;

verus! {

/// Collection state that a history adds up to.
pub struct ProjectedState {
    /// Active orders.
    pub orders: ActiveOrders,
    /// Accepted identities.
    pub accepted: Set<OrderId>,
    /// Sequence of the next accepted order.
    pub next_priority_sequence: int,
    /// Identity of the next trade.
    pub next_trade_id: int,
    /// Book revision.
    pub book_revision: int,
}

/// State before the first command.
pub open spec fn empty_projection() -> ProjectedState {
    ProjectedState {
        orders: Map::empty(),
        accepted: Set::empty(),
        next_priority_sequence: 1,
        next_trade_id: 1,
        book_revision: 0,
    }
}

/// Identity of the next trade after the first `count` events, when the trades
/// among them are numbered from `first` on.
pub open spec fn numbered_trades(events: Seq<CallAuctionEvent>, first: int, count: nat) -> Option<
    int,
>
    decreases count,
{
    if count == 0 {
        Some(first)
    } else {
        match numbered_trades(events, first, (count - 1) as nat) {
            None => None,
            Some(next) => if !(events[count - 1].kind is Trade) {
                Some(next)
            } else if trade_number(events[count - 1]) == next && next < u64::MAX {
                Some(next + 1)
            } else {
                None
            },
        }
    }
}

/// Whether a limit allows execution at a price.
pub open spec fn price_eligible(side: Side, constraint: AuctionOrderConstraint, price: Price) -> bool {
    match constraint {
        AuctionOrderConstraint::Market => true,
        AuctionOrderConstraint::Limit(limit) => match side {
            Side::Buy => limit.raw >= price.raw,
            Side::Sell => limit.raw <= price.raw,
        },
    }
}

/// Active orders after one side of a trade, when the trade agrees with them.
pub open spec fn reduced(
    orders: ActiveOrders,
    id: OrderId,
    account: AccountId,
    side: Side,
    price: Price,
    lots: u64,
) -> Option<ActiveOrders> {
    let order = orders[id];
    if !orders.dom().contains(id) || order.account_id != account || order.side != side
        || !price_eligible(side, order.constraint, price) || lots == 0 || lots
        > order.quantity.lots {
        None
    } else if lots == order.quantity.lots {
        Some(orders.remove(id))
    } else {
        Some(
            orders.insert(
                id,
                CallAuctionOrderSnapshot {
                    quantity: Quantity { lots: (order.quantity.lots - lots) as u64 },
                    ..order
                },
            ),
        )
    }
}

/// Active orders after a trade, when the trade agrees with them.
pub open spec fn traded(orders: ActiveOrders, trade: CallAuctionTrade) -> Option<ActiveOrders> {
    if !orders.dom().contains(trade.sell_order_id) {
        None
    } else {
        match reduced(
            orders,
            trade.buy_order_id,
            trade.buy_account_id,
            Side::Buy,
            trade.price,
            trade.quantity.lots,
        ) {
            None => None,
            Some(bought) => reduced(
                bought,
                trade.sell_order_id,
                trade.sell_account_id,
                Side::Sell,
                trade.price,
                trade.quantity.lots,
            ),
        }
    }
}

/// Active orders after a remainder cancellation, when it agrees with them and
/// with the orders before the uncross.
pub open spec fn remainder_removed(
    start: ActiveOrders,
    orders: ActiveOrders,
    cancellation: CallAuctionCancellation,
) -> Option<ActiveOrders> {
    let id = cancellation.order_id;
    let order = orders[id];
    if orders.dom().contains(id) && order.account_id == cancellation.account_id && order.side
        == cancellation.side && order.constraint == cancellation.constraint && order.quantity
        == cancellation.quantity && cancellation.quantity.lots
        + cancellation.executed_quantity_lots == start[id].quantity.lots {
        Some(orders.remove(id))
    } else {
        None
    }
}

/// Active orders after the first `count` events of an uncross.
pub open spec fn uncross_projection(
    start: ActiveOrders,
    events: Seq<CallAuctionEvent>,
    count: nat,
) -> Option<ActiveOrders>
    decreases count,
{
    if count == 0 {
        Some(start)
    } else {
        match uncross_projection(start, events, (count - 1) as nat) {
            None => None,
            Some(orders) => match events[count - 1].kind {
                CallAuctionEventKind::Trade(trade) => traded(orders, trade),
                CallAuctionEventKind::RemainderCancelled(cancellation) => remainder_removed(
                    start,
                    orders,
                    cancellation,
                ),
                _ => None,
            },
        }
    }
}

/// Active orders without one, when it is as stated.
pub open spec fn removed(orders: ActiveOrders, order: CallAuctionOrderSnapshot) -> Option<
    ActiveOrders,
> {
    if orders.dom().contains(order.order_id) && orders[order.order_id] == order {
        Some(orders.remove(order.order_id))
    } else {
        None
    }
}

/// Active orders after the first `count` cancellation events.
pub open spec fn cancel_projection(
    start: ActiveOrders,
    events: Seq<CallAuctionEvent>,
    count: nat,
) -> Option<ActiveOrders>
    decreases count,
{
    if count == 0 {
        Some(start)
    } else {
        match cancel_projection(start, events, (count - 1) as nat) {
            None => None,
            Some(orders) => match events[count - 1].kind {
                CallAuctionEventKind::OrderCancelled { order, .. } => removed(orders, order),
                _ => None,
            },
        }
    }
}

impl ProjectedState {
    /// State after an acceptance, when it agrees with the submitted order, the
    /// definition and the state.
    pub open spec fn accepting(
        self,
        definition: InstrumentDefinition,
        order: CallAuctionOrder,
        snapshot: CallAuctionOrderSnapshot,
    ) -> Option<Self> {
        if snapshot.priority_sequence == self.next_priority_sequence && self.next_priority_sequence
            < u64::MAX && !self.orders.dom().contains(snapshot.order_id) && !self.accepted.contains(
            snapshot.order_id,
        ) && accepts(snapshot, order) && definition.quantity.fault(order.quantity) is None && (
        order.constraint matches AuctionOrderConstraint::Limit(price)
            ==> definition.price.fault(price) is None) {
            Some(
                ProjectedState {
                    orders: self.orders.insert(snapshot.order_id, snapshot),
                    accepted: self.accepted.insert(snapshot.order_id),
                    next_priority_sequence: self.next_priority_sequence + 1,
                    ..self
                },
            )
        } else {
            None
        }
    }

    /// State one book revision later.
    pub open spec fn revised(self) -> Option<Self> {
        if self.book_revision < u64::MAX {
            Some(ProjectedState { book_revision: self.book_revision + 1, ..self })
        } else {
            None
        }
    }

    /// State with other active orders, one book revision later.
    pub open spec fn revised_with(self, orders: Option<ActiveOrders>) -> Option<Self> {
        match orders {
            None => None,
            Some(orders) => ProjectedState { orders, ..self }.revised(),
        }
    }

    /// State after an accepted command.
    pub open spec fn accepted_step(
        self,
        definition: InstrumentDefinition,
        command: CallAuctionCommand,
        events: Seq<CallAuctionEvent>,
    ) -> Option<Self> {
        match command {
            CallAuctionCommand::PhaseControl(_) => Some(self),
            CallAuctionCommand::Submit(submit) => match events[0].kind {
                CallAuctionEventKind::OrderAccepted(snapshot) => match self.accepting(
                    definition,
                    submit.order,
                    snapshot,
                ) {
                    None => None,
                    Some(next) => next.revised(),
                },
                _ => None,
            },
            CallAuctionCommand::Cancel(_) => match events[0].kind {
                CallAuctionEventKind::OrderCancelled { order, .. } => self.revised_with(
                    removed(self.orders, order),
                ),
                _ => None,
            },
            CallAuctionCommand::MassCancel(_) => {
                let count = (events.len() - 1) as nat;
                let next = if count == 0 {
                    Some(self)
                } else {
                    self.revised_with(cancel_projection(self.orders, events, count))
                };
                match (next, events.last().kind) {
                    (Some(next), CallAuctionEventKind::MassCancelCompleted {
                        book_revision,
                        ..
                    }) => if book_revision == next.book_revision {
                        Some(next)
                    } else {
                        None
                    },
                    _ => None,
                }
            },
            CallAuctionCommand::Amend(_) => match events[0].kind {
                CallAuctionEventKind::OrderAmended { order, previous_quantity, book_revision } => {
                    let source = CallAuctionOrderSnapshot { quantity: previous_quantity, ..order };
                    if self.orders.dom().contains(order.order_id) && self.orders[order.order_id]
                        == source && book_revision == self.book_revision + 1 {
                        self.revised_with(Some(self.orders.insert(order.order_id, order)))
                    } else {
                        None
                    }
                },
                _ => None,
            },
            CallAuctionCommand::Replace(replace) => match (events[0].kind, events[1].kind) {
                (
                    CallAuctionEventKind::OrderCancelled { order, .. },
                    CallAuctionEventKind::OrderAccepted(snapshot),
                ) => match removed(self.orders, order) {
                    None => None,
                    Some(orders) => match (ProjectedState { orders, ..self }).accepting(
                        definition,
                        replace.replacement,
                        snapshot,
                    ) {
                        None => None,
                        Some(next) => next.revised(),
                    },
                },
                _ => None,
            },
            CallAuctionCommand::Uncross(_) => match events.last().kind {
                CallAuctionEventKind::UncrossCompleted { book_revision, .. } => {
                    if book_revision == self.book_revision + 1 {
                        self.revised_with(
                            uncross_projection(self.orders, events, (events.len() - 1) as nat),
                        )
                    } else {
                        None
                    }
                },
                _ => None,
            },
        }
    }

    /// State after one retained command, when its events agree with this state.
    pub open spec fn step(
        self,
        definition: InstrumentDefinition,
        entry: CallAuctionCommandReportCheckpoint,
    ) -> Option<Self> {
        let events = entry.report.events@;
        match numbered_trades(events, self.next_trade_id, events.len()) {
            None => None,
            Some(next_trade_id) => {
                let numbered = ProjectedState { next_trade_id, ..self };
                match entry.report.outcome {
                    CallAuctionCommandOutcome::Rejected(_) => Some(numbered),
                    CallAuctionCommandOutcome::Accepted => numbered.accepted_step(
                        definition,
                        entry.command,
                        events,
                    ),
                }
            },
        }
    }
}

/// Why one side of a trade contradicts the active orders.
pub open spec fn reduction_fault(
    orders: ActiveOrders,
    id: OrderId,
    account: AccountId,
    side: Side,
    price: Price,
    lots: u64,
) -> Option<Seq<char>> {
    let order = orders[id];
    if !orders.dom().contains(id) {
        Some("auction checkpoint trade names an inactive order"@)
    } else if order.account_id != account || order.side != side || !price_eligible(
        side,
        order.constraint,
        price,
    ) || lots == 0 || lots > order.quantity.lots {
        Some("auction checkpoint trade contradicts projected order state"@)
    } else {
        None
    }
}

/// Why a trade contradicts the active orders, when the orders in `sources` have
/// traded before.
pub open spec fn trade_fault(
    orders: ActiveOrders,
    sources: Set<OrderId>,
    trade: CallAuctionTrade,
) -> Option<Seq<char>> {
    let buy = trade.buy_order_id;
    let sell = trade.sell_order_id;
    let lots = trade.quantity.lots;
    if !(sources.contains(buy) || orders.dom().contains(buy)) || !(sell == buy || sources.contains(
        sell,
    ) || orders.dom().contains(sell)) {
        Some("auction checkpoint trade lacks an active source quantity"@)
    } else {
        let bought = reduced(orders, buy, trade.buy_account_id, Side::Buy, trade.price, lots);
        match bought {
            None => reduction_fault(
                orders,
                buy,
                trade.buy_account_id,
                Side::Buy,
                trade.price,
                lots,
            ),
            Some(rest) => reduction_fault(
                rest,
                sell,
                trade.sell_account_id,
                Side::Sell,
                trade.price,
                lots,
            ),
        }
    }
}

/// Why a remainder cancellation contradicts the active orders.
pub open spec fn remainder_fault(
    start: ActiveOrders,
    orders: ActiveOrders,
    cancellation: CallAuctionCancellation,
) -> Option<Seq<char>> {
    if !orders.dom().contains(cancellation.order_id) {
        Some("auction checkpoint remainder cancellation names an inactive order"@)
    } else if remainder_removed(start, orders, cancellation) is None {
        Some("auction checkpoint remainder cancellation contradicts projected state"@)
    } else {
        None
    }
}

/// Orders that trade among the first `count` events.
pub open spec fn traded_ids(events: Seq<CallAuctionEvent>, count: nat) -> Set<OrderId>
    decreases count,
{
    if count == 0 {
        Set::empty()
    } else {
        match events[count - 1].kind {
            CallAuctionEventKind::Trade(trade) => traded_ids(events, (count - 1) as nat).insert(
                trade.buy_order_id,
            ).insert(trade.sell_order_id),
            _ => traded_ids(events, (count - 1) as nat),
        }
    }
}

/// The first of `count` events of an uncross, from `position` on, that
/// contradicts the active orders.
pub open spec fn uncross_fault(
    start: ActiveOrders,
    events: Seq<CallAuctionEvent>,
    count: int,
    position: int,
) -> Option<Seq<char>>
    decreases count - position,
{
    if position >= count {
        None
    } else {
        let orders = uncross_projection(start, events, position as nat)->0;
        let sources = traded_ids(events, position as nat);
        match events[position].kind {
            CallAuctionEventKind::Trade(trade) => match trade_fault(orders, sources, trade) {
                Some(detail) => Some(detail),
                None => uncross_fault(start, events, count, position + 1),
            },
            CallAuctionEventKind::RemainderCancelled(cancellation) => match remainder_fault(
                start,
                orders,
                cancellation,
            ) {
                Some(detail) => Some(detail),
                None => uncross_fault(start, events, count, position + 1),
            },
            _ => Some("auction checkpoint uncross body contains an invalid event"@),
        }
    }
}

impl ProjectedState {
    /// Why an acceptance contradicts the state, its order or the definition.
    pub open spec fn acceptance_fault(
        self,
        definition: InstrumentDefinition,
        order: CallAuctionOrder,
        snapshot: CallAuctionOrderSnapshot,
    ) -> Option<Seq<char>> {
        if snapshot.priority_sequence != self.next_priority_sequence || self.orders.dom().contains(
            snapshot.order_id,
        ) {
            Some("auction checkpoint accepted-order priority or identity is invalid"@)
        } else if self.accepted.contains(snapshot.order_id) {
            Some("auction checkpoint accepted identities contradict history"@)
        } else if !accepts(snapshot, order) {
            Some("auction checkpoint accepted snapshot differs from its command"@)
        } else if definition.quantity.fault(order.quantity) is Some {
            Some("auction checkpoint accepted quantity violates its definition"@)
        } else if order.constraint matches AuctionOrderConstraint::Limit(price)
            && definition.price.fault(price) is Some {
            Some("auction checkpoint accepted price violates its definition"@)
        } else if self.next_priority_sequence >= u64::MAX {
            Some("auction checkpoint priority sequence is exhausted"@)
        } else {
            None
        }
    }

    /// Why the book revision cannot advance.
    pub open spec fn revision_fault(self) -> Option<Seq<char>> {
        if self.book_revision >= u64::MAX {
            Some("auction checkpoint book revision is exhausted"@)
        } else {
            None
        }
    }

    /// Why an accepted command contradicts the state.
    pub open spec fn step_fault(
        self,
        definition: InstrumentDefinition,
        command: CallAuctionCommand,
        events: Seq<CallAuctionEvent>,
    ) -> Option<Seq<char>> {
        let last = events.len() - 1;
        match command {
            CallAuctionCommand::PhaseControl(_) => None,
            CallAuctionCommand::Submit(submit) => match events[0].kind {
                CallAuctionEventKind::OrderAccepted(snapshot) => match self.acceptance_fault(
                    definition,
                    submit.order,
                    snapshot,
                ) {
                    Some(detail) => Some(detail),
                    None => self.revision_fault(),
                },
                _ => Some("auction checkpoint accepted submission trace is invalid"@),
            },
            CallAuctionCommand::Cancel(_) => match events[0].kind {
                CallAuctionEventKind::OrderCancelled { order, .. } => if removed(
                    self.orders,
                    order,
                ) is None {
                    Some("auction checkpoint cancellation contradicts projected state"@)
                } else {
                    self.revision_fault()
                },
                _ => Some("auction checkpoint accepted cancellation trace is invalid"@),
            },
            CallAuctionCommand::MassCancel(_) => if last > 0 && cancel_projection(
                self.orders,
                events,
                last as nat,
            ) is None {
                Some("auction checkpoint mass cancellation contradicts projected state"@)
            } else if last > 0 && self.revision_fault() is Some {
                self.revision_fault()
            } else {
                match events.last().kind {
                    CallAuctionEventKind::MassCancelCompleted { book_revision, .. } => {
                        if book_revision != self.book_revision + (if last > 0 {
                            1int
                        } else {
                            0int
                        }) {
                            Some("auction checkpoint mass-cancel book revision is invalid"@)
                        } else {
                            None
                        }
                    },
                    _ => Some("auction checkpoint mass-cancel completion is absent"@),
                }
            },
            CallAuctionCommand::Amend(_) => match events[0].kind {
                CallAuctionEventKind::OrderAmended { order, previous_quantity, book_revision } => {
                    let source = CallAuctionOrderSnapshot { quantity: previous_quantity, ..order };
                    if !self.orders.dom().contains(order.order_id) || self.orders[order.order_id]
                        != source {
                        Some("auction checkpoint amendment contradicts projected state"@)
                    } else if self.revision_fault() is Some {
                        self.revision_fault()
                    } else if book_revision != self.book_revision + 1 {
                        Some("auction checkpoint amendment book revision is invalid"@)
                    } else {
                        None
                    }
                },
                _ => Some("auction checkpoint accepted amendment trace is invalid"@),
            },
            CallAuctionCommand::Replace(replace) => match (events[0].kind, events[1].kind) {
                (
                    CallAuctionEventKind::OrderCancelled { order, .. },
                    CallAuctionEventKind::OrderAccepted(snapshot),
                ) => match removed(self.orders, order) {
                    None => Some("auction checkpoint cancellation contradicts projected state"@),
                    Some(orders) => match (ProjectedState { orders, ..self }).acceptance_fault(
                        definition,
                        replace.replacement,
                        snapshot,
                    ) {
                        Some(detail) => Some(detail),
                        None => self.revision_fault(),
                    },
                },
                _ => Some("auction checkpoint accepted replacement trace is invalid"@),
            },
            CallAuctionCommand::Uncross(_) => if uncross_fault(
                self.orders,
                events,
                last,
                0,
            ) is Some {
                uncross_fault(self.orders, events, last, 0)
            } else if self.revision_fault() is Some {
                self.revision_fault()
            } else {
                match events.last().kind {
                    CallAuctionEventKind::UncrossCompleted { book_revision, .. } => {
                        if book_revision != self.book_revision + 1 {
                            Some("auction checkpoint uncross book revision is invalid"@)
                        } else {
                            None
                        }
                    },
                    _ => Some("auction checkpoint uncross completion is absent"@),
                }
            },
        }
    }

    /// Why one retained command contradicts this state, once its trades are
    /// numbered.
    pub open spec fn advance_fault(
        self,
        definition: InstrumentDefinition,
        entry: CallAuctionCommandReportCheckpoint,
    ) -> Option<Seq<char>> {
        match entry.report.outcome {
            CallAuctionCommandOutcome::Rejected(_) => None,
            CallAuctionCommandOutcome::Accepted => self.step_fault(
                definition,
                entry.command,
                entry.report.events@,
            ),
        }
    }
}

/// State after the first `count` retained commands, when their events agree.
pub open spec fn projected(
    history: Seq<CallAuctionCommandReportCheckpoint>,
    definition: InstrumentDefinition,
    count: nat,
) -> Option<ProjectedState>
    decreases count,
{
    if count == 0 {
        Some(empty_projection())
    } else {
        match projected(history, definition, (count - 1) as nat) {
            None => None,
            Some(before) => before.step(definition, history[count - 1]),
        }
    }
}

/// A history that contradicts its projection stays contradictory.
pub proof fn lemma_projection_stops(
    history: Seq<CallAuctionCommandReportCheckpoint>,
    definition: InstrumentDefinition,
    few: nat,
    many: nat,
)
    requires
        few <= many,
        projected(history, definition, few) is None,
    ensures
        projected(history, definition, many) is None,
    decreases many,
{
    if few < many {
        lemma_projection_stops(history, definition, few, (many - 1) as nat);
    }
}

/// Projection of a history under construction.
#[derive(Debug)]
pub struct CallAuctionProjector {
    /// Active orders.
    pub orders: OrderedMap<OrderId, CallAuctionOrderSnapshot>,
    /// Accepted identities.
    pub accepted: OrderedMap<OrderId, ()>,
    /// Sequence of the next accepted order.
    pub next_priority_sequence: u64,
    /// Identity of the next trade.
    pub next_trade_id: u64,
    /// Book revision.
    pub book_revision: u64,
}

impl CallAuctionProjector {
    /// The projected state.
    pub open spec fn state(&self) -> ProjectedState {
        ProjectedState {
            orders: self.orders@,
            accepted: self.accepted@.dom(),
            next_priority_sequence: self.next_priority_sequence as int,
            next_trade_id: self.next_trade_id as int,
            book_revision: self.book_revision as int,
        }
    }

    /// Both indexes are ordered.
    pub open spec fn wf(&self) -> bool {
        self.orders.wf() && self.accepted.wf()
    }

    /// Starts before the first command.
    pub(crate) fn new() -> (r: Self)
        ensures
            r.wf(),
            r.state() == empty_projection(),
    {
        let orders: OrderedMap<OrderId, CallAuctionOrderSnapshot> = OrderedMap::unbounded();
        let accepted: OrderedMap<OrderId, ()> = OrderedMap::unbounded();
        let projector = CallAuctionProjector {
            orders,
            accepted,
            next_priority_sequence: 1,
            next_trade_id: 1,
            book_revision: 0,
        };
        assert(projector.state().accepted =~= Set::<OrderId>::empty());
        projector
    }

    /// Advances over an acceptance.
    fn accept(
        &mut self,
        definition: InstrumentDefinition,
        order: CallAuctionOrder,
        snapshot: CallAuctionOrderSnapshot,
    ) -> (r: Result<(), &'static str>)
        requires
            old(self).wf(),
            definition.wf(),
        ensures
            final(self).wf(),
            match old(self).state().accepting(definition, order, snapshot) {
                Some(next) => r is Ok && final(self).state() == next,
                None => r is Err,
            },
            match r {
                Ok(_) => old(self).state().acceptance_fault(definition, order, snapshot) is None,
                Err(detail) => old(self).state().acceptance_fault(definition, order, snapshot) == Some(detail@),
            },
    {
        if snapshot.priority_sequence != self.next_priority_sequence || self.orders.contains_key(
            snapshot.order_id,
        ) {
            return Err("auction checkpoint accepted-order priority or identity is invalid");
        }
        if self.accepted.contains_key(snapshot.order_id) {
            return Err("auction checkpoint accepted identities contradict history");
        }
        if snapshot.order_id != order.order_id || snapshot.account_id != order.account_id
            || snapshot.side != order.side || snapshot.constraint != order.constraint
            || snapshot.quantity != order.quantity {
            return Err("auction checkpoint accepted snapshot differs from its command");
        }
        if definition.quantity.validate(order.quantity).is_err() {
            return Err("auction checkpoint accepted quantity violates its definition");
        }
        if let AuctionOrderConstraint::Limit(price) = order.constraint {
            if definition.price.validate(price).is_err() {
                return Err("auction checkpoint accepted price violates its definition");
            }
        }
        if self.next_priority_sequence == u64::MAX {
            return Err("auction checkpoint priority sequence is exhausted");
        }
        let ghost accepted = self.accepted@.dom();
        let _ = self.orders.insert(snapshot.order_id, snapshot);
        let _ = self.accepted.insert(snapshot.order_id, ());
        self.next_priority_sequence = self.next_priority_sequence + 1;
        proof {
            assert(self.accepted@.dom() =~= accepted.insert(snapshot.order_id));
        }
        Ok(())
    }

    /// Advances the book revision.
    fn revise(&mut self) -> (r: Result<(), &'static str>)
        requires
            old(self).wf(),
        ensures
            final(self).wf(),
            match old(self).state().revised() {
                Some(next) => r is Ok && final(self).state() == next,
                None => r is Err,
            },
            match r {
                Ok(_) => old(self).state().revision_fault() is None,
                Err(detail) => old(self).state().revision_fault() == Some(detail@),
            },
    {
        if self.book_revision == u64::MAX {
            return Err("auction checkpoint book revision is exhausted");
        }
        self.book_revision = self.book_revision + 1;
        Ok(())
    }

    /// Removes one order that must be as stated.
    fn remove(&mut self, order: CallAuctionOrderSnapshot) -> (r: bool)
        requires
            old(self).wf(),
        ensures
            final(self).wf(),
            match removed(old(self).orders@, order) {
                Some(orders) => r && final(self).state() == (ProjectedState {
                    orders,
                    ..old(self).state()
                }),
                None => !r,
            },
    {
        match self.orders.get(order.order_id) {
            Some(stored) => {
                if stored != order {
                    return false;
                }
            },
            None => {
                return false;
            },
        }
        let _ = self.orders.remove(order.order_id);
        true
    }

    /// Advances over the removals of a mass cancel.
    fn cancel_all(&mut self, events: &[CallAuctionEvent], count: usize) -> (r: bool)
        requires
            old(self).wf(),
            count <= events@.len(),
        ensures
            final(self).wf(),
            match cancel_projection(old(self).orders@, events@, count as nat) {
                Some(orders) => r && final(self).state() == (ProjectedState {
                    orders,
                    ..old(self).state()
                }),
                None => !r,
            },
    {
        let ghost entry = *self;
        let mut index: usize = 0;
        while index < count
            invariant
                entry == *old(self),
                self.wf(),
                index <= count <= events@.len(),
                self.state() == (ProjectedState { orders: self.orders@, ..entry.state() }),
                cancel_projection(entry.orders@, events@, index as nat) == Some(self.orders@),
            decreases count - index,
        {
            let cancelled = match events[index].kind {
                CallAuctionEventKind::OrderCancelled { order, .. } => self.remove(order),
                _ => false,
            };
            if !cancelled {
                proof {
                    lemma_cancelling_stops(entry.orders@, events@, index as nat + 1, count as nat);
                }
                return false;
            }
            index += 1;
        }
        true
    }

    /// Advances over one side of a trade.
    fn reduce_projected_order(
        &mut self,
        order_id: OrderId,
        account_id: AccountId,
        side: Side,
        price: Price,
        executed_lots: u64,
    ) -> (r: Result<(), &'static str>)
        requires
            old(self).wf(),
        ensures
            final(self).wf(),
            match reduced(old(self).orders@, order_id, account_id, side, price, executed_lots) {
                Some(orders) => r is Ok && final(self).state() == (ProjectedState {
                    orders,
                    ..old(self).state()
                }),
                None => r is Err,
            },
            ({
                let fault = reduction_fault(
                    old(self).orders@,
                    order_id,
                    account_id,
                    side,
                    price,
                    executed_lots,
                );
                match r {
                    Ok(_) => fault is None,
                    Err(detail) => fault == Some(detail@),
                }
            }),
    {
        let order = match self.orders.get(order_id) {
            Some(order) => order,
            None => {
                return Err("auction checkpoint trade names an inactive order");
            },
        };
        let price_is_eligible = match order.constraint {
            AuctionOrderConstraint::Market => true,
            AuctionOrderConstraint::Limit(limit) => match side {
                Side::Buy => limit.raw >= price.raw,
                Side::Sell => limit.raw <= price.raw,
            },
        };
        if order.account_id != account_id || order.side != side || !price_is_eligible
            || executed_lots == 0 || executed_lots > order.quantity.lots {
            return Err("auction checkpoint trade contradicts projected order state");
        }
        if executed_lots == order.quantity.lots {
            let _ = self.orders.remove(order_id);
        } else {
            let mut remaining = order;
            remaining.quantity = Quantity { lots: order.quantity.lots - executed_lots };
            let _ = self.orders.insert(order_id, remaining);
        }
        Ok(())
    }

    /// Remembers the quantity of an order before its first trade.
    fn remember_checkpoint_uncross_source(
        &self,
        sources: &mut OrderedMap<OrderId, u64>,
        order_id: OrderId,
    ) -> (r: Result<(), &'static str>)
        requires
            self.wf(),
            old(sources).wf(),
        ensures
            final(sources).wf(),
            r is Ok <==> old(sources)@.dom().contains(order_id) || self.orders@.dom().contains(
                order_id,
            ),
            r matches Err(detail) ==> detail@
                == "auction checkpoint trade lacks an active source quantity"@,
            final(sources)@ == (if r is Ok && !old(sources)@.dom().contains(order_id) {
                old(sources)@.insert(order_id, self.orders@[order_id].quantity.lots)
            } else {
                old(sources)@
            }),
    {
        if sources.contains_key(order_id) {
            return Ok(());
        }
        match self.orders.get(order_id) {
            Some(order) => {
                let _ = sources.insert(order_id, order.quantity.lots);
                Ok(())
            },
            None => Err("auction checkpoint trade lacks an active source quantity"),
        }
    }

    /// What is remembered of the orders before an uncross.
    spec fn remembers(start: ActiveOrders, orders: ActiveOrders, sources: Map<OrderId, u64>) -> bool {
        &&& forall|id: OrderId| #[trigger]
            sources.dom().contains(id) ==> sources[id] == start[id].quantity.lots
        &&& forall|id: OrderId| #[trigger]
            orders.dom().contains(id) && !sources.dom().contains(id) ==> orders[id] == start[id]
    }

    /// Advances over the body of an uncross.
    fn project_checkpoint_uncross(&mut self, events: &[CallAuctionEvent], count: usize) -> (r: Result<(), &'static str>)
        requires
            old(self).wf(),
            count <= events@.len(),
        ensures
            final(self).wf(),
            match uncross_projection(old(self).orders@, events@, count as nat) {
                Some(orders) => r is Ok && final(self).state() == (ProjectedState {
                    orders,
                    ..old(self).state()
                }),
                None => r is Err,
            },
            match r {
                Ok(_) => uncross_fault(old(self).orders@, events@, count as int, 0) is None,
                Err(detail) => uncross_fault(old(self).orders@, events@, count as int, 0) == Some(detail@),
            },
    {
        let ghost entry = *self;
        let ghost start = self.orders@;
        let mut sources: OrderedMap<OrderId, u64> = OrderedMap::unbounded();
        let mut index: usize = 0;
        while index < count
            invariant
                entry == *old(self),
                self.wf(),
                sources.wf(),
                start == entry.orders@,
                index <= count <= events@.len(),
                self.state() == (ProjectedState { orders: self.orders@, ..entry.state() }),
                uncross_projection(start, events@, index as nat) == Some(self.orders@),
                sources@.dom() == traded_ids(events@, index as nat),
                uncross_fault(start, events@, count as int, 0) == uncross_fault(
                    start,
                    events@,
                    count as int,
                    index as int,
                ),
                Self::remembers(start, self.orders@, sources@),
            decreases count - index,
        {
            let agreed = match events[index].kind {
                CallAuctionEventKind::Trade(trade) => self.project_trade(
                    &mut sources,
                    trade,
                    Ghost(start),
                ),
                CallAuctionEventKind::RemainderCancelled(cancellation) => self.project_remainder(
                    &sources,
                    cancellation,
                    Ghost(start),
                ),
                _ => Err("auction checkpoint uncross body contains an invalid event"),
            };
            if let Err(detail) = agreed {
                proof {
                    lemma_uncrossing_stops(start, events@, index as nat + 1, count as nat);
                }
                return Err(detail);
            }
            index += 1;
        }
        Ok(())
    }

    fn project_trade(
        &mut self,
        sources: &mut OrderedMap<OrderId, u64>,
        trade: CallAuctionTrade,
        Ghost(start): Ghost<ActiveOrders>,
    ) -> (r: Result<(), &'static str>)
        requires
            old(self).wf(),
            old(sources).wf(),
            Self::remembers(start, old(self).orders@, old(sources)@),
        ensures
            final(self).wf(),
            final(sources).wf(),
            match traded(old(self).orders@, trade) {
                Some(orders) => {
                    &&& r is Ok
                    &&& final(self).state() == (ProjectedState { orders, ..old(self).state() })
                    &&& Self::remembers(start, orders, final(sources)@)
                    &&& final(sources)@.dom() == old(sources)@.dom().insert(
                        trade.buy_order_id,
                    ).insert(trade.sell_order_id)
                },
                None => r is Err,
            },
            match r {
                Ok(_) => trade_fault(old(self).orders@, old(sources)@.dom(), trade) is None,
                Err(detail) => trade_fault(old(self).orders@, old(sources)@.dom(), trade) == Some(detail@),
            },
    {
        self.remember_checkpoint_uncross_source(sources, trade.buy_order_id)?;
        self.remember_checkpoint_uncross_source(sources, trade.sell_order_id)?;
        proof {
            assert(sources@.dom() =~= old(sources)@.dom().insert(trade.buy_order_id).insert(
                trade.sell_order_id,
            ));
        }
        self.reduce_projected_order(
            trade.buy_order_id,
            trade.buy_account_id,
            Side::Buy,
            trade.price,
            trade.quantity.lots,
        )?;
        self.reduce_projected_order(
            trade.sell_order_id,
            trade.sell_account_id,
            Side::Sell,
            trade.price,
            trade.quantity.lots,
        )
    }

    fn project_remainder(
        &mut self,
        sources: &OrderedMap<OrderId, u64>,
        cancellation: CallAuctionCancellation,
        Ghost(start): Ghost<ActiveOrders>,
    ) -> (r: Result<(), &'static str>)
        requires
            old(self).wf(),
            sources.wf(),
            Self::remembers(start, old(self).orders@, sources@),
        ensures
            final(self).wf(),
            match remainder_removed(start, old(self).orders@, cancellation) {
                Some(orders) => {
                    &&& r is Ok
                    &&& final(self).state() == (ProjectedState { orders, ..old(self).state() })
                    &&& Self::remembers(start, orders, sources@)
                },
                None => r is Err,
            },
            match r {
                Ok(_) => remainder_fault(start, old(self).orders@, cancellation) is None,
                Err(detail) => remainder_fault(start, old(self).orders@, cancellation) == Some(detail@),
            },
    {
        let order = match self.orders.get(cancellation.order_id) {
            Some(order) => order,
            None => {
                return Err("auction checkpoint remainder cancellation names an inactive order");
            },
        };
        let source: u64 = match sources.get(cancellation.order_id) {
            Some(lots) => lots,
            None => order.quantity.lots,
        };
        assert(source == start[cancellation.order_id].quantity.lots);
        if order.account_id != cancellation.account_id || order.side != cancellation.side
            || order.constraint != cancellation.constraint || order.quantity
            != cancellation.quantity || cancellation.quantity.lots.checked_add(
            cancellation.executed_quantity_lots,
        ) != Some(source) {
            return Err("auction checkpoint remainder cancellation contradicts projected state");
        }
        let _ = self.orders.remove(cancellation.order_id);
        Ok(())
    }

    /// Advances over an accepted command.
    fn accepted_command(
        &mut self,
        definition: InstrumentDefinition,
        command: CallAuctionCommand,
        events: &[CallAuctionEvent],
    ) -> (r: Result<(), &'static str>)
        requires
            old(self).wf(),
            definition.wf(),
            events@.len() > 0,
            command is Replace ==> events@.len() == 2,
        ensures
            final(self).wf(),
            match old(self).state().accepted_step(definition, command, events@) {
                Some(next) => r is Ok && final(self).state() == next,
                None => r is Err,
            },
            match r {
                Ok(_) => old(self).state().step_fault(definition, command, events@) is None,
                Err(detail) => old(self).state().step_fault(definition, command, events@) == Some(detail@),
            },
    {
        let last: usize = events.len() - 1;
        match command {
            CallAuctionCommand::PhaseControl(_) => Ok(()),
            CallAuctionCommand::Submit(submit) => match events[0].kind {
                CallAuctionEventKind::OrderAccepted(snapshot) => {
                    self.accept(definition, submit.order, snapshot)?;
                    self.revise()
                },
                _ => Err("auction checkpoint accepted submission trace is invalid"),
            },
            CallAuctionCommand::Cancel(_) => match events[0].kind {
                CallAuctionEventKind::OrderCancelled { order, .. } => {
                    if !self.remove(order) {
                        return Err("auction checkpoint cancellation contradicts projected state");
                    }
                    self.revise()
                },
                _ => Err("auction checkpoint accepted cancellation trace is invalid"),
            },
            CallAuctionCommand::MassCancel(_) => {
                if last > 0 {
                    if !self.cancel_all(events, last) {
                        return Err(
                            "auction checkpoint mass cancellation contradicts projected state",
                        );
                    }
                    self.revise()?;
                }
                match events[last].kind {
                    CallAuctionEventKind::MassCancelCompleted { book_revision, .. } => {
                        if book_revision != self.book_revision {
                            return Err(
                                "auction checkpoint mass-cancel book revision is invalid",
                            );
                        }
                        Ok(())
                    },
                    _ => Err("auction checkpoint mass-cancel completion is absent"),
                }
            },
            CallAuctionCommand::Amend(_) => match events[0].kind {
                CallAuctionEventKind::OrderAmended { order, previous_quantity, book_revision } => {
                    let mut source = order;
                    source.quantity = previous_quantity;
                    let agreed = match self.orders.get(order.order_id) {
                        Some(stored) => stored == source,
                        None => false,
                    };
                    if !agreed {
                        return Err("auction checkpoint amendment contradicts projected state");
                    }
                    let _ = self.orders.insert(order.order_id, order);
                    self.revise()?;
                    if book_revision != self.book_revision {
                        return Err("auction checkpoint amendment book revision is invalid");
                    }
                    Ok(())
                },
                _ => Err("auction checkpoint accepted amendment trace is invalid"),
            },
            CallAuctionCommand::Replace(replace) => match (events[0].kind, events[1].kind) {
                (
                    CallAuctionEventKind::OrderCancelled { order, .. },
                    CallAuctionEventKind::OrderAccepted(snapshot),
                ) => {
                    if !self.remove(order) {
                        return Err("auction checkpoint cancellation contradicts projected state");
                    }
                    self.accept(definition, replace.replacement, snapshot)?;
                    self.revise()
                },
                _ => Err("auction checkpoint accepted replacement trace is invalid"),
            },
            CallAuctionCommand::Uncross(_) => {
                self.project_checkpoint_uncross(events, last)?;
                self.revise()?;
                match events[last].kind {
                    CallAuctionEventKind::UncrossCompleted { book_revision, .. } => {
                        if book_revision != self.book_revision {
                            return Err("auction checkpoint uncross book revision is invalid");
                        }
                        Ok(())
                    },
                    _ => Err("auction checkpoint uncross completion is absent"),
                }
            },
        }
    }

    /// Advances over one retained command whose trace has a valid shape and
    /// whose trades end before `next_trade_id`.
    pub(crate) fn advance(
        &mut self,
        definition: InstrumentDefinition,
        entry: &CallAuctionCommandReportCheckpoint,
        next_trade_id: u64,
    ) -> (r: Result<(), &'static str>)
        requires
            old(self).wf(),
            definition.wf(),
            crate::engine_grammar::report_grammar(*entry),
            numbered_trades(
                entry.report.events@,
                old(self).next_trade_id as int,
                entry.report.events@.len(),
            ) == Some(next_trade_id as int),
        ensures
            final(self).wf(),
            match old(self).state().step(definition, *entry) {
                Some(next) => r is Ok && final(self).state() == next,
                None => r is Err,
            },
            match r {
                Ok(_) => old(self).state().advance_fault(definition, *entry) is None,
                Err(detail) => old(self).state().advance_fault(definition, *entry) == Some(detail@),
            },
    {
        let events = entry.report.events.as_slice();
        let ghost before = self.state();
        self.next_trade_id = next_trade_id;
        proof {
            assert(self.state() == (ProjectedState {
                next_trade_id: next_trade_id as int,
                ..before
            }));
        }
        match entry.report.outcome {
            CallAuctionCommandOutcome::Rejected(_) => Ok(()),
            CallAuctionCommandOutcome::Accepted => self.accepted_command(
                definition,
                entry.command,
                events,
            ),
        }
    }
}

pub(crate) proof fn lemma_numbering_stops(events: Seq<CallAuctionEvent>, first: int, few: nat, many: nat)
    requires
        few <= many,
        numbered_trades(events, first, few) is None,
    ensures
        numbered_trades(events, first, many) is None,
    decreases many,
{
    if few < many {
        lemma_numbering_stops(events, first, few, (many - 1) as nat);
    }
}

proof fn lemma_cancelling_stops(
    start: ActiveOrders,
    events: Seq<CallAuctionEvent>,
    few: nat,
    many: nat,
)
    requires
        few <= many,
        cancel_projection(start, events, few) is None,
    ensures
        cancel_projection(start, events, many) is None,
    decreases many,
{
    if few < many {
        lemma_cancelling_stops(start, events, few, (many - 1) as nat);
    }
}

proof fn lemma_uncrossing_stops(
    start: ActiveOrders,
    events: Seq<CallAuctionEvent>,
    few: nat,
    many: nat,
)
    requires
        few <= many,
        uncross_projection(start, events, few) is None,
    ensures
        uncross_projection(start, events, many) is None,
    decreases many,
{
    if few < many {
        lemma_uncrossing_stops(start, events, few, (many - 1) as nat);
    }
}

} // verus!
