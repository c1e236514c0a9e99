//! Snapshots, batches, depth and audit of a market-data replica.

use vstd::prelude::*;

use crate::auction::AuctionOrderConstraint;
use crate::book_types::CallAuctionLevelSnapshot;
use crate::domain::{Price, Side};
use crate::instrument::InstrumentDefinition;
use crate::market_data_replica::{
    batch_fault, batch_whole, depth_valid, is_mass_cancel, is_replacement, level_use, level_valid,
    link_fault, preflight_complete_batch_grammar, preflight_replica_level_capacity,
    CallAuctionMarketDataReplica,
};
use crate::market_data_state::{
    aggregate_from_level, level_aggregate, price_admitted, side_levels, side_resource, Aggregate,
    CycleTrace, Depth, PublicBook, PublicState,
};
use crate::market_data_types::{
    depth_ordered, level_price, phase_feasible, validate_phase_snapshot,
    CallAuctionBookChangeReason, CallAuctionMarketDataBatch, CallAuctionMarketDataError,
    CallAuctionMarketDataKind, CallAuctionMarketDataLevel, CallAuctionMarketDataResource,
    CallAuctionMarketDataSnapshot, CallAuctionMarketDataUpdate,
};
use crate::ordered_map::OrderedMap;
use crate::storage::try_reserve;

verus! {

/// Depth of a list of limit levels.
pub open spec fn levels_depth(levels: Seq<CallAuctionMarketDataLevel>) -> Depth
    decreases levels.len(),
{
    if levels.len() == 0 {
        Map::empty()
    } else {
        levels_depth(levels.drop_last()).insert(
            level_price(levels.last()),
            level_aggregate(levels.last()),
        )
    }
}

/// Every limit of a list lies on the grid and within the collar.
pub open spec fn levels_admitted(
    definition: InstrumentDefinition,
    levels: Seq<CallAuctionMarketDataLevel>,
) -> bool {
    forall|i: int|
        0 <= i < levels.len() ==> price_admitted(definition, (#[trigger] levels[i]).constraint)
}

/// Public state of a snapshot.
pub open spec fn snapshot_public(snapshot: CallAuctionMarketDataSnapshot) -> PublicState {
    PublicState {
        book: PublicBook {
            market_buy: level_aggregate(snapshot.market_buy),
            market_sell: level_aggregate(snapshot.market_sell),
            bids: levels_depth(snapshot.bids@),
            asks: levels_depth(snapshot.asks@),
        },
        phase: snapshot.phase,
        book_revision: snapshot.book_revision,
        last_trade_id: snapshot.last_trade_id,
        trace: CycleTrace::none(),
        sequence: snapshot.as_of_sequence,
    }
}

/// A public state that an audited replica may hold.
pub open spec fn public_sound(
    state: PublicState,
    definition: InstrumentDefinition,
    maximum: usize,
) -> bool {
    &&& depth_sound(state.book.bids, definition, maximum)
    &&& depth_sound(state.book.asks, definition, maximum)
    &&& state.book.market_buy.shaped()
    &&& state.book.market_sell.shaped()
    &&& state.book_revision <= state.sequence
    &&& state.last_trade_id matches Some(id) ==> id.value <= state.sequence
    &&& phase_feasible(state.phase, state.sequence)
}

/// Depth of occupied, valid levels within a maximum.
pub open spec fn depth_sound(depth: Depth, definition: InstrumentDefinition, maximum: usize) -> bool {
    &&& depth.dom().finite()
    &&& depth.len() <= maximum
    &&& forall|price: Price| #[trigger]
        depth.dom().contains(price) ==> level_valid(definition, (price, depth[price]))
}

proof fn lemma_depth_sound(
    levels: &OrderedMap<Price, Aggregate>,
    definition: InstrumentDefinition,
    maximum: usize,
)
    requires
        levels.wf(),
    ensures
        depth_sound(levels@, definition, maximum) <==> (levels.entries@.len() <= maximum && forall|
            i: int,
        |
            0 <= i < levels.entries@.len() ==> level_valid(
                definition,
                #[trigger] levels.entries@[i],
            )),
{
    levels.lemma_view();
    if depth_sound(levels@, definition, maximum) {
        assert forall|i: int| 0 <= i < levels.entries@.len() implies level_valid(
            definition,
            #[trigger] levels.entries@[i],
        ) by {
            assert(levels@.dom().contains(levels.entries@[i].0));
        }
    }
    if levels.entries@.len() <= maximum && forall|i: int|
        0 <= i < levels.entries@.len() ==> level_valid(definition, #[trigger] levels.entries@[i]) {
        assert forall|price: Price| #[trigger] levels@.dom().contains(price) implies level_valid(
            definition,
            (price, levels@[price]),
        ) by {
            let i = choose|i: int|
                0 <= i < levels.entries@.len() && (#[trigger] levels.entries@[i]).0 == price;
            assert(levels.entries@[i] == (price, levels@[price]));
        }
    }
}

proof fn lemma_set_sound(
    book: PublicBook,
    level: CallAuctionMarketDataLevel,
    definition: InstrumentDefinition,
    maximum: usize,
)
    requires
        depth_sound(book.bids, definition, maximum),
        depth_sound(book.asks, definition, maximum),
        book.market_buy.shaped(),
        book.market_sell.shaped(),
        level.shaped(),
        price_admitted(definition, level.constraint),
        book.holds(level, maximum),
    ensures
        depth_sound(book.set(level).bids, definition, maximum),
        depth_sound(book.set(level).asks, definition, maximum),
        book.set(level).market_buy.shaped(),
        book.set(level).market_sell.shaped(),
{
    let next = book.set(level);
    let aggregate = level_aggregate(level);
    if let AuctionOrderConstraint::Limit(price) = level.constraint {
        let depth = book.depth(level.side);
        let changed = next.depth(level.side);
        if depth.dom().contains(price) && aggregate != Aggregate::none() {
            assert(changed.dom() =~= depth.dom());
        }
        assert forall|other: Price| #[trigger] changed.dom().contains(other) implies level_valid(
            definition,
            (other, changed[other]),
        ) by {
            if other != price {
                assert(depth.dom().contains(other));
            }
        }
    }
}

/// An update that follows keeps a public state sound.
pub proof fn lemma_after_sound(
    state: PublicState,
    definition: InstrumentDefinition,
    maximum: usize,
    update: CallAuctionMarketDataUpdate,
)
    requires
        public_sound(state, definition, maximum),
        update.sequence == state.sequence + 1,
        state.after(definition, maximum, update) is Some,
    ensures
        public_sound(state.after(definition, maximum, update)->0, definition, maximum),
{
    match update.kind {
        CallAuctionMarketDataKind::Book { level, .. } => {
            lemma_set_sound(state.book, level, definition, maximum);
        },
        CallAuctionMarketDataKind::Trade { buy, sell, .. } => {
            lemma_set_sound(state.book, buy, definition, maximum);
            lemma_set_sound(state.book.set(buy), sell, definition, maximum);
        },
        _ => {},
    }
}

/// Updates that follow, one sequence each, keep a public state sound.
pub proof fn lemma_after_all_sound(
    state: PublicState,
    definition: InstrumentDefinition,
    maximum: usize,
    updates: Seq<CallAuctionMarketDataUpdate>,
    count: nat,
)
    requires
        public_sound(state, definition, maximum),
        count <= updates.len(),
        forall|i: int|
            0 <= i < updates.len() ==> (#[trigger] updates[i]).sequence == state.sequence + 1 + i,
        state.after_all(definition, maximum, updates, count) is Some,
    ensures
        public_sound(state.after_all(definition, maximum, updates, count)->0, definition, maximum),
        (state.after_all(definition, maximum, updates, count)->0).sequence == state.sequence
            + count,
    decreases count,
{
    if count > 0 {
        lemma_after_all_sound(state, definition, maximum, updates, (count - 1) as nat);
        let before = state.after_all(definition, maximum, updates, (count - 1) as nat)->0;
        assert(updates[count - 1].sequence == before.sequence + 1);
        lemma_after_sound(before, definition, maximum, updates[count - 1]);
    }
}

/// Linked updates carry consecutive sequences.
pub proof fn lemma_linked(
    definition: InstrumentDefinition,
    updates: Seq<CallAuctionMarketDataUpdate>,
    expected: u64,
    index: int,
)
    requires
        0 <= index,
        link_fault(definition, updates, expected, index) is None,
    ensures
        forall|i: int|
            index <= i < updates.len() ==> {
                &&& (#[trigger] updates[i]).sequence == expected + i - index
                &&& updates[i].instrument_id == definition.instrument_id
                &&& updates[i].instrument_version == definition.version
            },
    decreases updates.len() - index,
{
    if index + 1 < updates.len() {
        lemma_linked(definition, updates, (expected + 1) as u64, index + 1);
    }
}

impl CallAuctionMarketDataReplica {
    /// Whether a complete batch passes every check that precedes mutation.
    pub open spec fn admits_batch(&self, updates: Seq<CallAuctionMarketDataUpdate>) -> bool {
        &&& 0 < updates.len() <= self.limits.max_batch_updates
        &&& self.last_command_sequence < u64::MAX
        &&& self.last_event_sequence < u64::MAX
        &&& link_fault(
            self.definition,
            updates,
            (self.last_event_sequence + 1) as u64,
            0,
        ) is None
        &&& batch_whole(updates)
        &&& level_use(self.bids@, self.asks@).after_all(updates, self.limits, updates.len()) is Some
    }

    /// The error of a complete batch that a check before mutation refuses.
    pub open spec fn refuses_batch(
        &self,
        updates: Seq<CallAuctionMarketDataUpdate>,
        error: CallAuctionMarketDataError,
    ) -> bool {
        if updates.len() == 0 {
            ||| error.refutes_update("complete auction batch is empty"@)
            ||| error.refutes_update("non-replayed auction batch is empty"@)
        } else if updates.len() > self.limits.max_batch_updates {
            error == (CallAuctionMarketDataError::CapacityExceeded {
                resource: CallAuctionMarketDataResource::BatchUpdates,
                maximum: self.limits.max_batch_updates,
                attempted: updates.len() as usize,
            })
        } else if self.last_command_sequence == u64::MAX || self.last_event_sequence == u64::MAX {
            error == CallAuctionMarketDataError::ArithmeticOverflow
        } else {
            match link_fault(
                self.definition,
                updates,
                (self.last_event_sequence + 1) as u64,
                0,
            ) {
                Some(fault) => error == fault,
                None => if !batch_whole(updates) {
                    batch_fault(updates) matches Some(detail) && error.refutes_update(detail)
                } else {
                    level_use(self.bids@, self.asks@).first_fault(
                        updates,
                        self.limits,
                        updates.len(),
                    ) == Some(error)
                },
            }
        }
    }

    /// Public state after a complete batch, when it agrees with this one.
    pub open spec fn public_after(&self, updates: Seq<CallAuctionMarketDataUpdate>) -> Option<
        PublicState,
    > {
        self.public().after_all(
            self.definition,
            self.limits.max_price_levels_per_side,
            updates,
            updates.len(),
        )
    }

    /// What applying a complete batch does.
    pub open spec fn batch_applied(
        &self,
        old: &Self,
        updates: Seq<CallAuctionMarketDataUpdate>,
        r: Result<(), CallAuctionMarketDataError>,
    ) -> bool {
        if !old.admits_batch(updates) {
            r matches Err(error) && old.refuses_batch(updates, error) && self.unchanged(old)
        } else {
            match old.public_after(updates) {
                Some(state) => {
                    &&& r is Ok
                    &&& self.public() == state
                    &&& self.last_command_sequence == old.last_command_sequence + 1
                    &&& self.same_frame(old)
                    &&& !self.poisoned
                },
                None => {
                    &&& r matches Err(error) && old.public().refused_all(
                        old.definition,
                        old.limits.max_price_levels_per_side,
                        updates,
                        error,
                    )
                    &&& self.poisoned
                    &&& self.same_frame(old)
                },
            }
        }
    }

    /// Everything that the audit checks, over the public state.
    pub proof fn lemma_audited(&self)
        requires
            self.bids.wf(),
            self.asks.wf(),
        ensures
            self.audited() <==> {
                let maximum = self.limits.max_price_levels_per_side;
                &&& self.bids.maximum == maximum <= self.bids.reserved
                &&& self.asks.maximum == maximum <= self.asks.reserved
                &&& depth_valid(self.definition, &self.standby_bids, maximum)
                &&& depth_valid(self.definition, &self.standby_asks, maximum)
                &&& self.batch_levels.maximum == self.limits.max_batch_updates
                    <= self.batch_levels.reserved
                &&& self.batch_levels.wf()
                &&& self.batch_levels.entries@.len() == 0
                &&& self.last_command_sequence <= self.last_event_sequence
                &&& public_sound(self.public(), self.definition, maximum)
            },
    {
        let maximum = self.limits.max_price_levels_per_side;
        lemma_depth_sound(&self.bids, self.definition, maximum);
        lemma_depth_sound(&self.asks, self.definition, maximum);
    }

    fn preflight_identity(&self, update: CallAuctionMarketDataUpdate) -> (r: Result<
        (),
        CallAuctionMarketDataError,
    >)
        ensures
            match r {
                Ok(_) => update.instrument_id == self.definition.instrument_id
                    && update.instrument_version == self.definition.version,
                Err(error) => if update.instrument_id != self.definition.instrument_id {
                    error == CallAuctionMarketDataError::WrongInstrument
                } else {
                    error == CallAuctionMarketDataError::WrongInstrumentVersion
                        && update.instrument_version != self.definition.version
                },
            },
    {
        if update.instrument_id != self.definition.instrument_id {
            return Err(CallAuctionMarketDataError::WrongInstrument);
        }
        if update.instrument_version != self.definition.version {
            return Err(CallAuctionMarketDataError::WrongInstrumentVersion);
        }
        Ok(())
    }

    fn preflight_links(&self, updates: &[CallAuctionMarketDataUpdate], first: u64) -> (r: Result<
        (),
        CallAuctionMarketDataError,
    >)
        ensures
            match r {
                Ok(_) => link_fault(self.definition, updates@, first, 0) is None,
                Err(error) => link_fault(self.definition, updates@, first, 0) == Some(error),
            },
    {
        let mut expected: u64 = first;
        let mut index: usize = 0;
        while index < updates.len()
            invariant
                index <= updates@.len(),
                link_fault(self.definition, updates@, first, 0) == link_fault(
                    self.definition,
                    updates@,
                    expected,
                    index as int,
                ),
            decreases updates@.len() - index,
        {
            let update = updates[index];
            if let Err(error) = self.preflight_identity(update) {
                return Err(error);
            }
            if update.sequence != expected {
                return Err(
                    CallAuctionMarketDataError::SequenceGap { expected, actual: update.sequence },
                );
            }
            if index + 1 < updates.len() {
                match expected.checked_add(1) {
                    Some(next) => {
                        expected = next;
                    },
                    None => {
                        return Err(CallAuctionMarketDataError::ArithmeticOverflow);
                    },
                }
            }
            index += 1;
        }
        Ok(())
    }

    fn preflight_batch_level_capacity(&mut self, updates: &[CallAuctionMarketDataUpdate]) -> (r:
        Result<(), CallAuctionMarketDataError>)
        requires
            old(self).wf(),
        ensures
            final(self).wf(),
            final(self).unchanged(old(self)),
            final(self).bids == old(self).bids,
            final(self).asks == old(self).asks,
            ({
                let using = level_use(old(self).bids@, old(self).asks@).after_all(
                    updates@,
                    old(self).limits,
                    updates@.len(),
                );
                match r {
                    Ok(_) => using is Some,
                    Err(error) => {
                        &&& using is None
                        &&& level_use(old(self).bids@, old(self).asks@).first_fault(
                            updates@,
                            old(self).limits,
                            updates@.len(),
                        ) == Some(error)
                    },
                }
            }),
    {
        let limits = self.limits;
        let result = preflight_replica_level_capacity(
            &mut self.batch_levels,
            &self.bids,
            &self.asks,
            limits,
            updates,
        );
        self.batch_levels.clear();
        result
    }

    /// Applies one complete command batch.
    pub(crate) fn apply_complete_batch(&mut self, updates: &[CallAuctionMarketDataUpdate]) -> (r:
        Result<(), CallAuctionMarketDataError>)
        requires
            old(self).wf(),
            !old(self).poisoned,
        ensures
            final(self).wf(),
            final(self).batch_applied(old(self), updates@, r),
            old(self).audited() && !final(self).poisoned ==> final(self).audited(),
    {
        let ghost entry = *self;
        let count: usize = updates.len();
        proof {
            entry.lemma_audited();
        }
        if count == 0 {
            return Err(
                CallAuctionMarketDataError::InvalidUpdate("complete auction batch is empty"),
            );
        }
        if count > self.limits.max_batch_updates {
            return Err(
                CallAuctionMarketDataError::CapacityExceeded {
                    resource: CallAuctionMarketDataResource::BatchUpdates,
                    maximum: self.limits.max_batch_updates,
                    attempted: count,
                },
            );
        }
        let next_command_sequence: u64 = match self.last_command_sequence.checked_add(1) {
            Some(next) => next,
            None => {
                return Err(CallAuctionMarketDataError::ArithmeticOverflow);
            },
        };
        let first: u64 = match self.last_event_sequence.checked_add(1) {
            Some(next) => next,
            None => {
                return Err(CallAuctionMarketDataError::ArithmeticOverflow);
            },
        };
        if let Err(error) = self.preflight_links(updates, first) {
            return Err(error);
        }
        if let Err(error) = preflight_complete_batch_grammar(updates) {
            return Err(error);
        }
        if let Err(error) = self.preflight_batch_level_capacity(updates) {
            proof {
                self.lemma_audited();
            }
            return Err(error);
        }
        let ghost maximum = entry.limits.max_price_levels_per_side;
        let mut index: usize = 0;
        while index < count
            invariant
                index <= count == updates@.len(),
                entry == *old(self),
                entry.admits_batch(updates@),
                !entry.poisoned,
                maximum == entry.limits.max_price_levels_per_side,
                self.wf(),
                self.same_frame(&entry),
                self.last_command_sequence == entry.last_command_sequence,
                !self.poisoned,
                entry.public().after_all(entry.definition, maximum, updates@, index as nat) == Some(
                    self.public(),
                ),
            decreases count - index,
        {
            proof {
                if entry.public_after(updates@) is Some {
                    entry.public().lemma_after_prefix(
                        entry.definition,
                        maximum,
                        updates@,
                        (index + 1) as nat,
                        updates@.len(),
                    );
                }
            }
            if let Err(error) = self.apply_verified(updates[index]) {
                self.poisoned = true;
                return Err(error);
            }
            index += 1;
        }
        self.last_command_sequence = next_command_sequence;
        proof {
            self.lemma_audited();
            if entry.audited() {
                lemma_linked(entry.definition, updates@, first, 0);
                lemma_after_all_sound(
                    entry.public(),
                    entry.definition,
                    maximum,
                    updates@,
                    updates@.len(),
                );
            }
        }
        Ok(())
    }

    /// Applies one contiguous command batch. A batch that contradicts the state
    /// after it passed every check before mutation poisons the replica.
    pub fn apply_batch(&mut self, batch: &CallAuctionMarketDataBatch) -> (r: Result<
        (),
        CallAuctionMarketDataError,
    >)
        requires
            old(self).wf(),
        ensures
            final(self).wf(),
            old(self).audited() && !final(self).poisoned ==> final(self).audited(),
            if old(self).poisoned {
                r == Err::<(), _>(CallAuctionMarketDataError::Poisoned) && *final(self) == *old(self)
            } else if batch.replayed {
                &&& *final(self) == *old(self)
                &&& if batch.updates@.len() == 0 {
                    r is Ok
                } else {
                    r matches Err(error) && error.refutes_update(
                        "replayed auction batch contains updates"@,
                    )
                }
            } else {
                &&& final(self).batch_applied(old(self), batch.updates@, r)
                &&& batch.updates@.len() == 0 ==> (r matches Err(error) && error.refutes_update(
                    "non-replayed auction batch is empty"@,
                ))
            },
    {
        if self.poisoned {
            return Err(CallAuctionMarketDataError::Poisoned);
        }
        if batch.replayed {
            return if batch.updates.len() == 0 {
                Ok(())
            } else {
                Err(
                    CallAuctionMarketDataError::InvalidUpdate(
                        "replayed auction batch contains updates",
                    ),
                )
            };
        }
        if batch.updates.len() == 0 {
            return Err(
                CallAuctionMarketDataError::InvalidUpdate("non-replayed auction batch is empty"),
            );
        }
        self.apply_complete_batch(batch.updates.as_slice())
    }

    /// An update that only a complete batch may carry.
    pub open spec fn needs_batch(kind: CallAuctionMarketDataKind) -> bool {
        is_replacement(kind) || is_mass_cancel(kind)
    }

    /// Applies one decoded update without a command-boundary counter.
    pub fn apply(&mut self, update: CallAuctionMarketDataUpdate) -> (r: Result<
        (),
        CallAuctionMarketDataError,
    >)
        requires
            old(self).wf(),
        ensures
            final(self).wf(),
            final(self).same_frame(old(self)),
            final(self).last_command_sequence == old(self).last_command_sequence,
            old(self).audited() && !final(self).poisoned ==> final(self).audited(),
            if old(self).poisoned {
                r == Err::<(), _>(CallAuctionMarketDataError::Poisoned) && *final(self) == *old(self)
            } else if Self::needs_batch(update.kind) {
                &&& r matches Err(error) && error.refutes_update(
                    if is_replacement(update.kind) {
                        "auction replacement removal requires a complete command batch"@
                    } else {
                        "auction mass cancellation requires a complete command batch"@
                    },
                )
                &&& *final(self) == *old(self)
            } else if update.instrument_id != old(self).definition.instrument_id {
                r == Err::<(), _>(CallAuctionMarketDataError::WrongInstrument) && *final(self)
                    == *old(self)
            } else if update.instrument_version != old(self).definition.version {
                r == Err::<(), _>(CallAuctionMarketDataError::WrongInstrumentVersion)
                    && *final(self) == *old(self)
            } else if old(self).last_event_sequence == u64::MAX {
                r == Err::<(), _>(CallAuctionMarketDataError::ArithmeticOverflow) && *final(self)
                    == *old(self)
            } else if update.sequence != old(self).last_event_sequence + 1 {
                r == Err::<(), _>(
                    CallAuctionMarketDataError::SequenceGap {
                        expected: (old(self).last_event_sequence + 1) as u64,
                        actual: update.sequence,
                    },
                ) && *final(self) == *old(self)
            } else if level_use(old(self).bids@, old(self).asks@).after(
                update.kind,
                old(self).limits,
            ) is None {
                &&& r matches Err(error) && level_use(old(self).bids@, old(self).asks@).fault(
                    update.kind,
                    old(self).limits,
                ) == Some(error)
                &&& final(self).unchanged(old(self))
            } else {
                match old(self).public().after(
                    old(self).definition,
                    old(self).limits.max_price_levels_per_side,
                    update,
                ) {
                    Some(state) => r is Ok && final(self).public() == state && !final(self).poisoned,
                    None => {
                        &&& r matches Err(error) && old(self).public().refused(
                            old(self).definition,
                            old(self).limits.max_price_levels_per_side,
                            update,
                            error,
                        )
                        &&& final(self).poisoned
                    },
                }
            },
    {
        let ghost entry = *self;
        proof {
            entry.lemma_audited();
        }
        if self.poisoned {
            return Err(CallAuctionMarketDataError::Poisoned);
        }
        match update.kind {
            CallAuctionMarketDataKind::Book { reason, .. } => {
                if reason == CallAuctionBookChangeReason::Replaced {
                    return Err(
                        CallAuctionMarketDataError::InvalidUpdate(
                            "auction replacement removal requires a complete command batch",
                        ),
                    );
                }
                if reason == CallAuctionBookChangeReason::MassCancelled {
                    return Err(
                        CallAuctionMarketDataError::InvalidUpdate(
                            "auction mass cancellation requires a complete command batch",
                        ),
                    );
                }
            },
            CallAuctionMarketDataKind::MassCancelCompleted { .. } => {
                return Err(
                    CallAuctionMarketDataError::InvalidUpdate(
                        "auction mass cancellation requires a complete command batch",
                    ),
                );
            },
            _ => {},
        }
        if let Err(error) = self.preflight_identity(update) {
            return Err(error);
        }
        let expected: u64 = match self.last_event_sequence.checked_add(1) {
            Some(expected) => expected,
            None => {
                return Err(CallAuctionMarketDataError::ArithmeticOverflow);
            },
        };
        if update.sequence != expected {
            return Err(
                CallAuctionMarketDataError::SequenceGap { expected, actual: update.sequence },
            );
        }
        let single: [CallAuctionMarketDataUpdate; 1] = [update];
        proof {
            let using = level_use(entry.bids@, entry.asks@);
            assert(using.after_all(single@, entry.limits, 0) == Some(using));
            assert(using.after_all(single@, entry.limits, 1) == using.after(
                update.kind,
                entry.limits,
            ));
        }
        if let Err(error) = self.preflight_batch_level_capacity(&single) {
            proof {
                self.lemma_audited();
            }
            return Err(error);
        }
        if let Err(error) = self.apply_verified(update) {
            self.poisoned = true;
            return Err(error);
        }
        proof {
            self.lemma_audited();
            if entry.audited() {
                lemma_after_sound(
                    entry.public(),
                    entry.definition,
                    entry.limits.max_price_levels_per_side,
                    update,
                );
            }
        }
        Ok(())
    }
}

/// Stores the levels of a snapshot side.
fn fill_depth(
    levels: &mut OrderedMap<Price, Aggregate>,
    source: &Vec<CallAuctionMarketDataLevel>,
    side: Side,
)
    requires
        old(levels).wf(),
        old(levels).entries@.len() == 0,
        depth_ordered(side, source@),
    ensures
        final(levels).wf(),
        final(levels)@ == levels_depth(source@),
        final(levels)@.len() == source@.len(),
        final(levels).maximum == old(levels).maximum,
        final(levels).reserved == old(levels).reserved,
        forall|price: Price| #[trigger]
            final(levels)@.dom().contains(price) ==> exists|i: int|
                0 <= i < source@.len() && level_price(#[trigger] source@[i]) == price
                    && final(levels)@[price] == level_aggregate(source@[i]),
{
    let mut index: usize = 0;
    proof {
        levels.lemma_view();
        assert(levels@ =~= Map::<Price, Aggregate>::empty());
        assert(source@.take(0) =~= Seq::<CallAuctionMarketDataLevel>::empty());
    }
    while index < source.len()
        invariant
            index <= source@.len(),
            depth_ordered(side, source@),
            levels.wf(),
            levels@ == levels_depth(source@.take(index as int)),
            levels@.len() == index,
            levels@.dom().finite(),
            levels.maximum == old(levels).maximum,
            levels.reserved == old(levels).reserved,
            forall|price: Price| #[trigger]
                levels@.dom().contains(price) ==> exists|i: int|
                    0 <= i < index && level_price(#[trigger] source@[i]) == price && levels@[price]
                        == level_aggregate(source@[i]),
        decreases source@.len() - index,
    {
        let level = source[index];
        let price = match level.constraint {
            AuctionOrderConstraint::Limit(price) => price,
            AuctionOrderConstraint::Market => Price::from_raw(0),
        };
        let ghost before = levels@;
        proof {
            assert(source@.take(index + 1).drop_last() =~= source@.take(index as int));
            if before.dom().contains(price) {
                let i = choose|i: int|
                    0 <= i < index && level_price(#[trigger] source@[i]) == price && before[price]
                        == level_aggregate(source@[i]);
                assert(level_price(source@[i]) != level_price(source@[index as int]));
            }
        }
        let _ = levels.insert(price, aggregate_from_level(level));
        proof {
            assert forall|other: Price| #[trigger] levels@.dom().contains(other) implies exists|i: int|
                0 <= i < index + 1 && level_price(#[trigger] source@[i]) == other && levels@[other]
                    == level_aggregate(source@[i]) by {
                if other == price {
                    assert(level_price(source@[index as int]) == price);
                } else {
                    assert(before.dom().contains(other));
                    let i = choose|i: int|
                        0 <= i < index && level_price(#[trigger] source@[i]) == other
                            && before[other] == level_aggregate(source@[i]);
                    assert(level_price(source@[i]) == other);
                }
            }
        }
        index += 1;
    }
    proof {
        assert(source@.take(index as int) =~= source@);
    }
}

/// Entries of a depth index from best to worst.
pub open spec fn ranked_depth(side: Side, entries: Seq<(Price, Aggregate)>) -> Seq<
    CallAuctionLevelSnapshot,
> {
    Seq::new(
        entries.len(),
        |i: int|
            {
                let entry = match side {
                    Side::Buy => entries[entries.len() - 1 - i],
                    Side::Sell => entries[i],
                };
                CallAuctionLevelSnapshot {
                    side,
                    price: entry.0,
                    quantity: entry.1.quantity,
                    order_count: entry.1.order_count,
                }
            },
    )
}

impl CallAuctionMarketDataReplica {
    /// The error of a snapshot that is not applied, when there is a fault.
    pub open spec fn refuses_snapshot(
        &self,
        snapshot: &CallAuctionMarketDataSnapshot,
        error: CallAuctionMarketDataError,
    ) -> bool {
        let maximum = self.limits.max_price_levels_per_side;
        if snapshot.instrument_id != self.definition.instrument_id {
            error == CallAuctionMarketDataError::WrongInstrument
        } else if snapshot.instrument_version != self.definition.version {
            error == CallAuctionMarketDataError::WrongInstrumentVersion
        } else if snapshot.as_of_sequence < self.last_event_sequence {
            error == (CallAuctionMarketDataError::StaleSnapshot {
                current: self.last_event_sequence,
                snapshot: snapshot.as_of_sequence,
            })
        } else if !snapshot.valid() {
            snapshot.fault() matches Some(detail) && error.refutes_snapshot(detail)
        } else if !levels_admitted(self.definition, snapshot.bids@) || !levels_admitted(
            self.definition,
            snapshot.asks@,
        ) {
            error.refutes_snapshot("auction snapshot limit is off grid or outside the collar"@)
        } else if snapshot.bids@.len() > maximum {
            error == (CallAuctionMarketDataError::CapacityExceeded {
                resource: CallAuctionMarketDataResource::BidPriceLevels,
                maximum,
                attempted: snapshot.bids@.len() as usize,
            })
        } else {
            snapshot.asks@.len() > maximum && error
                == (CallAuctionMarketDataError::CapacityExceeded {
                resource: CallAuctionMarketDataResource::AskPriceLevels,
                maximum,
                attempted: snapshot.asks@.len() as usize,
            })
        }
    }

    fn validate_snapshot_prices(&self, levels: &Vec<CallAuctionMarketDataLevel>) -> (r: Result<
        (),
        CallAuctionMarketDataError,
    >)
        requires
            self.definition.wf(),
        ensures
            match r {
                Ok(_) => levels_admitted(self.definition, levels@),
                Err(error) => !levels_admitted(self.definition, levels@) && error.refutes_snapshot(
                    "auction snapshot limit is off grid or outside the collar"@,
                ),
            },
    {
        let mut index: usize = 0;
        while index < levels.len()
            invariant
                self.definition.wf(),
                index <= levels@.len(),
                forall|i: int|
                    0 <= i < index ==> price_admitted(
                        self.definition,
                        (#[trigger] levels@[i]).constraint,
                    ),
            decreases levels@.len() - index,
        {
            if let AuctionOrderConstraint::Limit(price) = levels[index].constraint {
                if self.definition.price_rules().validate(price).is_err() {
                    proof {
                        assert(!price_admitted(self.definition, levels@[index as int].constraint));
                    }
                    return Err(
                        CallAuctionMarketDataError::InvalidSnapshot(
                            "auction snapshot limit is off grid or outside the collar",
                        ),
                    );
                }
            }
            index += 1;
        }
        Ok(())
    }

    /// Atomically replaces local state with a non-stale verified snapshot.
    pub fn apply_snapshot(&mut self, snapshot: &CallAuctionMarketDataSnapshot) -> (r: Result<
        (),
        CallAuctionMarketDataError,
    >)
        requires
            old(self).wf(),
        ensures
            final(self).wf(),
            old(self).audited() ==> final(self).audited(),
            match r {
                Ok(_) => {
                    &&& snapshot.valid()
                    &&& forall|error: CallAuctionMarketDataError|
                        !#[trigger] old(self).refuses_snapshot(snapshot, error)
                    &&& final(self).public() == snapshot_public(*snapshot)
                    &&& final(self).last_command_sequence == snapshot.command_sequence
                    &&& !final(self).poisoned
                    &&& final(self).limits == old(self).limits
                    &&& final(self).definition == old(self).definition
                    &&& final(self).standby_bids == old(self).bids
                    &&& final(self).standby_asks == old(self).asks
                    &&& final(self).batch_levels == old(self).batch_levels
                },
                Err(error) => old(self).refuses_snapshot(snapshot, error) && *final(self) == *old(
                    self,
                ),
            },
    {
        let ghost entry = *self;
        if snapshot.instrument_id != self.definition.instrument_id {
            return Err(CallAuctionMarketDataError::WrongInstrument);
        }
        if snapshot.instrument_version != self.definition.version {
            return Err(CallAuctionMarketDataError::WrongInstrumentVersion);
        }
        if snapshot.as_of_sequence < self.last_event_sequence {
            return Err(
                CallAuctionMarketDataError::StaleSnapshot {
                    current: self.last_event_sequence,
                    snapshot: snapshot.as_of_sequence,
                },
            );
        }
        if let Err(error) = snapshot.validate() {
            return Err(error);
        }
        if let Err(error) = self.validate_snapshot_prices(&snapshot.bids) {
            return Err(error);
        }
        if let Err(error) = self.validate_snapshot_prices(&snapshot.asks) {
            return Err(error);
        }
        let maximum: usize = self.limits.max_price_levels_per_side;
        if snapshot.bids.len() > maximum {
            return Err(
                CallAuctionMarketDataError::CapacityExceeded {
                    resource: CallAuctionMarketDataResource::BidPriceLevels,
                    maximum,
                    attempted: snapshot.bids.len(),
                },
            );
        }
        if snapshot.asks.len() > maximum {
            return Err(
                CallAuctionMarketDataError::CapacityExceeded {
                    resource: CallAuctionMarketDataResource::AskPriceLevels,
                    maximum,
                    attempted: snapshot.asks.len(),
                },
            );
        }
        self.standby_bids.clear();
        self.standby_asks.clear();
        fill_depth(&mut self.standby_bids, &snapshot.bids, Side::Buy);
        fill_depth(&mut self.standby_asks, &snapshot.asks, Side::Sell);
        std::mem::swap(&mut self.bids, &mut self.standby_bids);
        std::mem::swap(&mut self.asks, &mut self.standby_asks);
        self.phase = snapshot.phase;
        self.book_revision = snapshot.book_revision;
        self.market_buy = aggregate_from_level(snapshot.market_buy);
        self.market_sell = aggregate_from_level(snapshot.market_sell);
        self.last_command_sequence = snapshot.command_sequence;
        self.last_event_sequence = snapshot.as_of_sequence;
        self.last_trade_id = snapshot.last_trade_id;
        self.cycle = CycleTrace::empty();
        self.poisoned = false;
        proof {
            self.bids.lemma_view();
            self.asks.lemma_view();
            self.lemma_audited();
            entry.lemma_audited();
            assert forall|price: Price| #[trigger] self.bids@.dom().contains(price) implies level_valid(
                self.definition,
                (price, self.bids@[price]),
            ) by {
                let i = choose|i: int|
                    0 <= i < snapshot.bids@.len() && level_price(#[trigger] snapshot.bids@[i])
                        == price && self.bids@[price] == level_aggregate(snapshot.bids@[i]);
                assert(price_admitted(self.definition, snapshot.bids@[i].constraint));
            }
            assert forall|price: Price| #[trigger] self.asks@.dom().contains(price) implies level_valid(
                self.definition,
                (price, self.asks@[price]),
            ) by {
                let i = choose|i: int|
                    0 <= i < snapshot.asks@.len() && level_price(#[trigger] snapshot.asks@[i])
                        == price && self.asks@[price] == level_aggregate(snapshot.asks@[i]);
                assert(price_admitted(self.definition, snapshot.asks@[i].constraint));
            }
        }
        Ok(())
    }

    /// Entries of the active depth of one side, in ascending price order.
    pub open spec fn side_entries(&self, side: Side) -> Seq<(Price, Aggregate)> {
        match side {
            Side::Buy => self.bids.entries@,
            Side::Sell => self.asks.entries@,
        }
    }

    /// Active depth of one side from best to worst.
    pub open spec fn best_levels(&self, side: Side) -> Seq<CallAuctionLevelSnapshot> {
        ranked_depth(side, self.side_entries(side))
    }

    fn level_count(&self, side: Side) -> (r: usize)
        ensures
            r == self.side_entries(side).len(),
            r == self.best_levels(side).len(),
    {
        match side {
            Side::Buy => self.bids.len(),
            Side::Sell => self.asks.len(),
        }
    }

    fn best_level(&self, side: Side, rank: usize) -> (r: Option<CallAuctionLevelSnapshot>)
        requires
            rank < self.best_levels(side).len(),
        ensures
            ({
                let level = self.best_levels(side)[rank as int];
                r == (if level.quantity == 0 || level.order_count == 0 {
                    None
                } else {
                    Some(level)
                })
            }),
    {
        let count: usize = self.level_count(side);
        match side {
            Side::Buy => {
                let index: usize = count - 1 - rank;
                let aggregate = self.bids.value_at(index);
                CallAuctionLevelSnapshot::from_parts(
                    side,
                    self.bids.key_at(index),
                    aggregate.quantity,
                    aggregate.order_count,
                )
            },
            Side::Sell => {
                let aggregate = self.asks.value_at(rank);
                CallAuctionLevelSnapshot::from_parts(
                    side,
                    self.asks.key_at(rank),
                    aggregate.quantity,
                    aggregate.order_count,
                )
            },
        }
    }

    /// The first levels of one side, at most `limit` of them.
    pub open spec fn first_levels(&self, side: Side, limit: usize) -> Seq<
        CallAuctionLevelSnapshot,
    > {
        let levels = self.best_levels(side);
        levels.take(
            if limit < levels.len() {
                limit as int
            } else {
                levels.len() as int
            },
        )
    }

    /// No level of a list is empty.
    pub open spec fn occupied_levels(levels: Seq<CallAuctionLevelSnapshot>) -> bool {
        forall|i: int|
            0 <= i < levels.len() ==> (#[trigger] levels[i]).quantity > 0 && levels[i].order_count
                > 0
    }

    /// How an empty level of one side is described.
    pub open spec fn empty_level_text(side: Side) -> Seq<char> {
        match side {
            Side::Buy => "auction replica bid output contains an empty level"@,
            Side::Sell => "auction replica ask output contains an empty level"@,
        }
    }

    /// How many levels of one side are returned under a limit.
    fn wanted_levels(&self, side: Side, limit: usize) -> (r: usize)
        ensures
            r == self.first_levels(side, limit).len(),
            r <= self.best_levels(side).len(),
            self.first_levels(side, limit) == self.best_levels(side).take(r as int),
    {
        let count: usize = self.level_count(side);
        if limit < count {
            limit
        } else {
            count
        }
    }

    /// Appends the first levels of one side to an empty output, up to an empty one.
    fn fill_limit_depth(
        &self,
        side: Side,
        limit: usize,
        output: &mut Vec<CallAuctionLevelSnapshot>,
    ) -> (r: Result<(), CallAuctionMarketDataError>)
        requires
            old(output)@.len() == 0,
        ensures
            match r {
                Ok(_) => final(output)@ == self.first_levels(side, limit) && Self::occupied_levels(
                    final(output)@,
                ),
                Err(error) => error.diverges(Self::empty_level_text(side))
                    && !Self::occupied_levels(self.first_levels(side, limit)),
            },
    {
        let wanted: usize = self.wanted_levels(side, limit);
        let ghost depth = self.best_levels(side);
        while output.len() < wanted
            invariant
                output@.len() <= wanted <= depth.len(),
                depth == self.best_levels(side),
                self.first_levels(side, limit) == depth.take(wanted as int),
                output@ == depth.take(output@.len() as int),
                Self::occupied_levels(output@),
            decreases wanted - output@.len(),
        {
            let ghost rank = output@.len() as int;
            match self.best_level(side, output.len()) {
                Some(level) => {
                    proof {
                        assert(depth.take(rank + 1) =~= depth.take(rank).push(depth[rank]));
                    }
                    output.push(level);
                },
                None => {
                    proof {
                        assert(self.first_levels(side, limit)[rank] == depth[rank]);
                    }
                    return Err(
                        CallAuctionMarketDataError::SourceDivergence(
                            match side {
                                Side::Buy => "auction replica bid output contains an empty level",
                                Side::Sell => "auction replica ask output contains an empty level",
                            },
                        ),
                    );
                },
            }
        }
        Ok(())
    }

    /// Fallibly returns limit depth in best-to-worst order.
    pub fn try_limit_depth(&self, side: Side, limit: usize) -> (r: Result<
        Vec<CallAuctionLevelSnapshot>,
        CallAuctionMarketDataError,
    >)
        ensures
            match r {
                Ok(levels) => levels@ == self.first_levels(side, limit) && Self::occupied_levels(
                    levels@,
                ),
                Err(error) => {
                    ||| error == CallAuctionMarketDataError::PreparationAllocationFailed(
                        side_levels(side),
                    ) && self.first_levels(side, limit).len() > 0
                    ||| error.diverges(Self::empty_level_text(side)) && !Self::occupied_levels(
                        self.first_levels(side, limit),
                    )
                },
            },
    {
        let mut output: Vec<CallAuctionLevelSnapshot> = Vec::new();
        if !try_reserve(&mut output, self.wanted_levels(side, limit)) {
            return Err(
                CallAuctionMarketDataError::PreparationAllocationFailed(side_resource(side)),
            );
        }
        match self.fill_limit_depth(side, limit, &mut output) {
            Ok(()) => Ok(output),
            Err(error) => Err(error),
        }
    }

    /// Returns limit depth in best-to-worst order.
    #[must_use]
    pub fn limit_depth(&self, side: Side, limit: usize) -> (r: Vec<CallAuctionLevelSnapshot>)
        requires
            Self::occupied_levels(self.first_levels(side, limit)),
        ensures
            r@ == self.first_levels(side, limit),
    {
        let mut output: Vec<CallAuctionLevelSnapshot> = Vec::new();
        let _ = self.fill_limit_depth(side, limit, &mut output);
        output
    }

    /// The first contradiction in one price arena.
    pub open spec fn depth_fault(
        &self,
        levels: &OrderedMap<Price, Aggregate>,
        side: Side,
        structure: Seq<char>,
    ) -> Option<Seq<char>> {
        let maximum = self.limits.max_price_levels_per_side;
        if levels.maximum != maximum || levels.reserved < maximum {
            Some("auction replica price arena contradicts its configured limit"@)
        } else if !levels.wf() || levels.entries@.len() > levels.maximum {
            Some(structure)
        } else if !depth_valid(self.definition, levels, maximum) {
            Some(
                match side {
                    Side::Buy => "auction replica bid arena retains an invalid level"@,
                    Side::Sell => "auction replica ask arena retains an invalid level"@,
                },
            )
        } else {
            None
        }
    }

    /// The first contradiction that the audit meets.
    pub open spec fn audit_fault(&self) -> Option<Seq<char>> {
        let bids = self.depth_fault(
            &self.bids,
            Side::Buy,
            "auction replica active bid arena is structurally invalid"@,
        );
        let asks = self.depth_fault(
            &self.asks,
            Side::Sell,
            "auction replica active ask arena is structurally invalid"@,
        );
        let standby_bids = self.depth_fault(
            &self.standby_bids,
            Side::Buy,
            "auction replica standby bid arena is structurally invalid"@,
        );
        let standby_asks = self.depth_fault(
            &self.standby_asks,
            Side::Sell,
            "auction replica standby ask arena is structurally invalid"@,
        );
        if bids is Some {
            bids
        } else if asks is Some {
            asks
        } else if standby_bids is Some {
            standby_bids
        } else if standby_asks is Some {
            standby_asks
        } else if self.batch_levels.maximum != self.limits.max_batch_updates
            || self.batch_levels.reserved < self.limits.max_batch_updates
            || self.batch_levels.entries@.len() != 0 || !self.batch_levels.wf() {
            Some("auction replica batch scratch contradicts its fixed empty layout"@)
        } else if !self.audited() {
            Some("auction replica scalar state is internally inconsistent"@)
        } else {
            None
        }
    }

    fn validate_depth(
        &self,
        levels: &OrderedMap<Price, Aggregate>,
        side: Side,
        structure: &'static str,
    ) -> (r: Result<(), CallAuctionMarketDataError>)
        requires
            self.definition.wf(),
        ensures
            match r {
                Ok(_) => self.depth_fault(levels, side, structure@) is None,
                Err(error) => self.depth_fault(levels, side, structure@) matches Some(detail)
                    && error.diverges(detail),
            },
    {
        let maximum: usize = self.limits.max_price_levels_per_side;
        if levels.maximum() != maximum || levels.allocation_capacity() < maximum {
            return Err(
                CallAuctionMarketDataError::SourceDivergence(
                    "auction replica price arena contradicts its configured limit",
                ),
            );
        }
        if !levels.validate() {
            return Err(CallAuctionMarketDataError::SourceDivergence(structure));
        }
        let count: usize = levels.len();
        let mut index: usize = 0;
        while index < count
            invariant
                self.definition.wf(),
                index <= count == levels.entries@.len(),
                count <= levels.maximum == self.limits.max_price_levels_per_side
                    <= levels.reserved,
                levels.wf(),
                forall|i: int|
                    0 <= i < index ==> level_valid(self.definition, #[trigger] levels.entries@[i]),
            decreases count - index,
        {
            let aggregate = levels.value_at(index);
            if aggregate.quantity == 0 || aggregate.order_count == 0
                || self.definition.price_rules().validate(levels.key_at(index)).is_err() {
                proof {
                    assert(!level_valid(self.definition, levels.entries@[index as int]));
                }
                return Err(
                    CallAuctionMarketDataError::SourceDivergence(
                        match side {
                            Side::Buy => "auction replica bid arena retains an invalid level",
                            Side::Sell => "auction replica ask arena retains an invalid level",
                        },
                    ),
                );
            }
            index += 1;
        }
        Ok(())
    }

    /// Audits every fixed layout and active or standby public-state invariant.
    pub fn validate(&self) -> (r: Result<(), CallAuctionMarketDataError>)
        requires
            self.definition.wf(),
        ensures
            match r {
                Ok(_) => self.audited() && self.audit_fault() is None,
                Err(error) => !self.audited() && (self.audit_fault() matches Some(detail)
                    && error.diverges(detail)),
            },
    {
        if let Err(error) = self.validate_depth(
            &self.bids,
            Side::Buy,
            "auction replica active bid arena is structurally invalid",
        ) {
            return Err(error);
        }
        if let Err(error) = self.validate_depth(
            &self.asks,
            Side::Sell,
            "auction replica active ask arena is structurally invalid",
        ) {
            return Err(error);
        }
        if let Err(error) = self.validate_depth(
            &self.standby_bids,
            Side::Buy,
            "auction replica standby bid arena is structurally invalid",
        ) {
            return Err(error);
        }
        if let Err(error) = self.validate_depth(
            &self.standby_asks,
            Side::Sell,
            "auction replica standby ask arena is structurally invalid",
        ) {
            return Err(error);
        }
        if self.batch_levels.maximum() != self.limits.max_batch_updates
            || self.batch_levels.allocation_capacity() < self.limits.max_batch_updates
            || !self.batch_levels.is_empty() || !self.batch_levels.validate() {
            return Err(
                CallAuctionMarketDataError::SourceDivergence(
                    "auction replica batch scratch contradicts its fixed empty layout",
                ),
            );
        }
        let printed_late: bool = match self.last_trade_id {
            Some(trade_id) => trade_id.value > self.last_event_sequence,
            None => false,
        };
        if (self.market_buy.quantity == 0) != (self.market_buy.order_count == 0) || (
        self.market_sell.quantity == 0) != (self.market_sell.order_count == 0)
            || self.last_command_sequence > self.last_event_sequence || self.book_revision
            > self.last_event_sequence || printed_late || validate_phase_snapshot(
            self.phase,
            self.last_event_sequence,
        ).is_err() {
            return Err(
                CallAuctionMarketDataError::SourceDivergence(
                    "auction replica scalar state is internally inconsistent",
                ),
            );
        }
        Ok(())
    }
}

} // verus!
