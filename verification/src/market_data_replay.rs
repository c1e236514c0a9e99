//! Bounded, batch-preserving retransmission of public call-auction updates.

use vstd::prelude::*;

use crate::domain::{InstrumentId, InstrumentVersion};
use crate::market_data_replica::CallAuctionMarketDataReplica;
use crate::market_data_types::{
    CallAuctionMarketDataBatch, CallAuctionMarketDataError, CallAuctionMarketDataUpdate,
};
use crate::storage::{try_vector, unrepresentable};

verus! {

/// Failure before a replay window owns usable state.
#[derive(Clone, Copy, Debug, PartialEq, Eq, Structural)]
pub enum CallAuctionMarketDataReplayConstructionError {
    /// The window could hold no update.
    ZeroCapacity,
    /// Storage could not be reserved.
    ReservationFailed {
        /// Requested retained-update maximum.
        maximum: usize,
    },
}

/// Admission, replay or audit failure of a replay window.
#[derive(Clone, Copy, Debug, PartialEq, Eq)]
pub enum CallAuctionMarketDataReplayError {
    /// A batch has a shape that no publisher gives.
    InvalidBatch(&'static str),
    /// An update belongs to another instrument.
    WrongInstrument,
    /// An update belongs to another immutable instrument version.
    WrongInstrumentVersion,
    /// One batch is larger than the window.
    BatchExceedsCapacity {
        /// Retained-update maximum.
        maximum: usize,
        /// Updates of the batch.
        attempted: usize,
    },
    /// A batch does not follow the latest sequence.
    SequenceGap {
        /// Required next sequence.
        expected: u64,
        /// First sequence of the batch.
        actual: u64,
    },
    /// A batch repeats retained sequences with other updates or boundaries.
    Collision {
        /// First sequence of the batch.
        sequence: u64,
    },
    /// A batch repeats sequences that are no longer retained.
    EvictedOverlap {
        /// First sequence of the batch.
        sequence: u64,
    },
    /// A replay may return no update.
    ZeroLimit,
    /// A cursor lies after the latest sequence.
    FutureCursor {
        /// Latest published sequence.
        latest: u64,
        /// Requested cursor.
        requested: u64,
    },
    /// The update after a cursor is no longer retained.
    UnavailableCursor {
        /// Requested cursor.
        requested: u64,
    },
    /// A cursor lies inside a batch.
    NotBatchBoundary {
        /// Requested cursor.
        requested: u64,
    },
    /// The next batch is larger than the requested limit.
    BatchExceedsLimit {
        /// Requested limit.
        maximum: usize,
        /// Updates of the next batch.
        required: usize,
    },
    /// Retained state contradicts itself.
    CorruptState(&'static str),
}

impl CallAuctionMarketDataReplayError {
    /// An invalid batch with a given description.
    pub open spec fn refutes_batch(self, detail: Seq<char>) -> bool {
        self matches CallAuctionMarketDataReplayError::InvalidBatch(found) && found@ == detail
    }

    /// Corrupt state with a given description.
    pub open spec fn reports_corruption(self, detail: Seq<char>) -> bool {
        self matches CallAuctionMarketDataReplayError::CorruptState(found) && found@ == detail
    }
}

/// Identity and storage of a replay window.
#[derive(Clone, Copy, Debug, PartialEq, Eq, Structural)]
pub struct CallAuctionMarketDataReplayStatus {
    /// Published instrument.
    pub instrument_id: InstrumentId,
    /// Published instrument version.
    pub instrument_version: InstrumentVersion,
    /// Retained-update maximum.
    pub maximum_updates: usize,
    /// Reserved update slots.
    pub allocated_updates: usize,
    /// Retained updates.
    pub retained_updates: usize,
    /// Latest published sequence.
    pub latest_sequence: u64,
}

/// One retained update and the boundaries of its batch.
#[derive(Clone, Copy, Debug, PartialEq, Eq, Structural)]
pub struct RetainedUpdate {
    /// Published update.
    pub update: CallAuctionMarketDataUpdate,
    /// First sequence of its batch.
    pub first: u64,
    /// Last sequence of its batch.
    pub last: u64,
}

/// Fixed-capacity, batch-preserving retransmission storage for one auction.
#[derive(Debug)]
pub struct CallAuctionMarketDataReplayBuffer {
    /// Published instrument.
    pub instrument_id: InstrumentId,
    /// Published instrument version.
    pub instrument_version: InstrumentVersion,
    /// Retained-update maximum.
    pub maximum: usize,
    /// Reserved update slots.
    pub reserved: usize,
    /// Ring of retained updates.
    pub slots: Vec<RetainedUpdate>,
    /// Slot of the oldest update.
    pub head: usize,
    /// Latest published sequence.
    pub latest: u64,
}

/// Entries of one batch.
pub open spec fn batch_entries(updates: Seq<CallAuctionMarketDataUpdate>) -> Seq<RetainedUpdate> {
    Seq::new(
        updates.len(),
        |i: int|
            RetainedUpdate {
                update: updates[i],
                first: updates[0].sequence,
                last: updates.last().sequence,
            },
    )
}

/// The last `maximum` entries of a list.
pub open spec fn newest(entries: Seq<RetainedUpdate>, maximum: int) -> Seq<RetainedUpdate> {
    if entries.len() <= maximum {
        entries
    } else {
        entries.subrange(entries.len() - maximum, entries.len() as int)
    }
}

/// Update sequences are consecutive.
pub open spec fn updates_contiguous(updates: Seq<CallAuctionMarketDataUpdate>) -> bool {
    forall|i: int|
        0 <= i < updates.len() ==> (#[trigger] updates[i]).sequence == updates[0].sequence + i
}

/// Every update belongs to an instrument.
pub open spec fn updates_of_instrument(
    updates: Seq<CallAuctionMarketDataUpdate>,
    instrument_id: InstrumentId,
) -> bool {
    forall|i: int|
        0 <= i < updates.len() ==> (#[trigger] updates[i]).instrument_id == instrument_id
}

/// Every update belongs to an instrument version.
pub open spec fn updates_of_version(
    updates: Seq<CallAuctionMarketDataUpdate>,
    version: InstrumentVersion,
) -> bool {
    forall|i: int|
        0 <= i < updates.len() ==> (#[trigger] updates[i]).instrument_version == version
}

/// One entry is followed by the rest of its batch, or by the next batch.
pub open spec fn entry_links(left: RetainedUpdate, right: RetainedUpdate) -> bool {
    if left.update.sequence == left.last {
        right.first == right.update.sequence
    } else {
        right.first == left.first && right.last == left.last
    }
}

impl CallAuctionMarketDataReplayBuffer {
    /// Retained updates from oldest to newest.
    pub open spec fn retained(&self) -> Seq<RetainedUpdate> {
        self.slots@.subrange(self.head as int, self.slots@.len() as int) + self.slots@.subrange(
            0,
            self.head as int,
        )
    }

    /// The ring holds no more than its maximum, and wraps only when full.
    pub open spec fn ring_ok(&self) -> bool {
        &&& self.maximum > 0
        &&& self.maximum <= self.reserved
        &&& self.slots@.len() <= self.maximum
        &&& self.slots@.len() < self.maximum ==> self.head == 0
        &&& self.slots@.len() == self.maximum ==> self.head < self.maximum
    }

    /// One retained entry belongs to the window and lies in its batch.
    pub open spec fn entry_ok(&self, i: int) -> bool {
        let entry = self.retained()[i];
        &&& entry.update.instrument_id == self.instrument_id
        &&& entry.update.instrument_version == self.instrument_version
        &&& entry.update.sequence == self.latest - self.retained().len() + 1 + i
        &&& entry.first <= entry.update.sequence <= entry.last <= self.latest
        &&& i + 1 < self.retained().len() ==> entry_links(entry, self.retained()[i + 1])
    }

    /// Everything that the audit checks.
    pub open spec fn audited(&self) -> bool {
        &&& self.ring_ok()
        &&& forall|i: int| 0 <= i < self.retained().len() ==> #[trigger] self.entry_ok(i)
    }

    /// Constructs an empty replay window after an already-published boundary.
    ///
    /// More updates than a vector can hold are always refused. Otherwise the
    /// allocator decides.
    pub fn try_new(
        instrument_id: InstrumentId,
        instrument_version: InstrumentVersion,
        initial_sequence: u64,
        maximum_updates: usize,
    ) -> (r: Result<Self, CallAuctionMarketDataReplayConstructionError>)
        ensures
            unrepresentable::<RetainedUpdate>(maximum_updates as int) ==> r is Err,
            match r {
                Ok(buffer) => {
                    &&& maximum_updates > 0
                    &&& buffer.audited()
                    &&& buffer.retained().len() == 0
                    &&& buffer.latest == initial_sequence
                    &&& buffer.maximum == maximum_updates
                    &&& buffer.instrument_id == instrument_id
                    &&& buffer.instrument_version == instrument_version
                },
                Err(error) => if maximum_updates == 0 {
                    error == CallAuctionMarketDataReplayConstructionError::ZeroCapacity
                } else {
                    error == (CallAuctionMarketDataReplayConstructionError::ReservationFailed {
                        maximum: maximum_updates,
                    })
                },
            },
    {
        if maximum_updates == 0 {
            return Err(CallAuctionMarketDataReplayConstructionError::ZeroCapacity);
        }
        let slots: Vec<RetainedUpdate> = match try_vector(maximum_updates) {
            Some(slots) => slots,
            None => {
                return Err(
                    CallAuctionMarketDataReplayConstructionError::ReservationFailed {
                        maximum: maximum_updates,
                    },
                );
            },
        };
        Ok(
            CallAuctionMarketDataReplayBuffer {
                instrument_id,
                instrument_version,
                maximum: maximum_updates,
                reserved: maximum_updates,
                slots,
                head: 0,
                latest: initial_sequence,
            },
        )
    }

    /// Returns this ring's immutable identity and allocation telemetry.
    #[must_use]
    pub fn status(&self) -> (r: CallAuctionMarketDataReplayStatus)
        requires
            self.ring_ok(),
        ensures
            r == (CallAuctionMarketDataReplayStatus {
                instrument_id: self.instrument_id,
                instrument_version: self.instrument_version,
                maximum_updates: self.maximum,
                allocated_updates: self.reserved,
                retained_updates: self.retained().len() as usize,
                latest_sequence: self.latest,
            }),
    {
        CallAuctionMarketDataReplayStatus {
            instrument_id: self.instrument_id,
            instrument_version: self.instrument_version,
            maximum_updates: self.maximum,
            allocated_updates: self.reserved,
            retained_updates: self.slots.len(),
            latest_sequence: self.latest,
        }
    }

    /// Returns the first retained sequence, including a partial oldest batch.
    #[must_use]
    pub fn earliest_sequence(&self) -> (r: Option<u64>)
        requires
            self.ring_ok(),
        ensures
            r == (if self.retained().len() == 0 {
                None
            } else {
                Some(self.retained()[0].update.sequence)
            }),
    {
        if self.slots.len() == 0 {
            None
        } else {
            Some(self.entry(0).update.sequence)
        }
    }

    /// Returns the latest published sequence observed by the ring.
    #[must_use]
    pub fn latest_sequence(&self) -> (r: u64)
        ensures
            r == self.latest,
    {
        self.latest
    }

    /// Returns the number of retained updates.
    #[must_use]
    pub fn retained_len(&self) -> (r: usize)
        requires
            self.ring_ok(),
        ensures
            r == self.retained().len(),
    {
        self.slots.len()
    }

    /// Returns the fixed retained-update maximum.
    #[must_use]
    pub fn maximum_updates(&self) -> (r: usize)
        ensures
            r == self.maximum,
    {
        self.maximum
    }

    /// Returns one retained entry.
    pub(crate) fn entry(&self, index: usize) -> (r: RetainedUpdate)
        requires
            self.ring_ok(),
            index < self.retained().len(),
        ensures
            r == self.retained()[index as int],
    {
        let tail: usize = self.slots.len() - self.head;
        if index < tail {
            self.slots[self.head + index]
        } else {
            self.slots[index - tail]
        }
    }

    /// Appends one entry, and drops the oldest when the ring is full.
    fn push(&mut self, entry: RetainedUpdate)
        requires
            old(self).ring_ok(),
        ensures
            final(self).ring_ok(),
            final(self).retained() == newest(
                old(self).retained().push(entry),
                old(self).maximum as int,
            ),
            final(self).maximum == old(self).maximum,
            final(self).reserved == old(self).reserved,
            final(self).latest == old(self).latest,
            final(self).instrument_id == old(self).instrument_id,
            final(self).instrument_version == old(self).instrument_version,
    {
        let ghost before = self.retained();
        let ghost slots = self.slots@;
        let ghost head = self.head as int;
        if self.slots.len() < self.maximum {
            self.slots.push(entry);
            proof {
                assert(self.retained() =~= before.push(entry));
            }
        } else {
            let position: usize = self.head;
            self.slots.set(position, entry);
            if position + 1 == self.maximum {
                self.head = 0;
            } else {
                self.head = position + 1;
            }
            proof {
                let pushed = before.push(entry);
                let count = slots.len() as int;
                assert(newest(pushed, self.maximum as int) == pushed.subrange(1, count + 1));
                assert forall|i: int| 0 <= i < count implies #[trigger] self.retained()[i]
                    == pushed.subrange(1, count + 1)[i] by {
                    assert(pushed.subrange(1, count + 1)[i] == pushed[i + 1]);
                    if i + 1 < count - head {
                        assert(pushed[i + 1] == slots[head + i + 1]);
                    } else if i + 1 < count {
                        assert(pushed[i + 1] == slots[i + 1 - (count - head)]);
                    } else {
                        assert(pushed[i + 1] == entry);
                    }
                }
                assert(self.retained() =~= pushed.subrange(1, count + 1));
            }
        }
    }

    /// Whether a batch is retained exactly as it is, boundaries included.
    pub open spec fn retains_batch(&self, updates: Seq<CallAuctionMarketDataUpdate>) -> bool {
        let start = updates[0].sequence - (self.latest - self.retained().len() + 1);
        &&& updates.last().sequence <= self.latest
        &&& forall|i: int|
            0 <= i < updates.len() ==> self.retained()[start + i] == #[trigger] batch_entries(
                updates,
            )[i]
    }

    /// What admitting a batch does.
    pub open spec fn pushed(
        &self,
        old: &Self,
        batch: CallAuctionMarketDataBatch,
        r: Result<usize, CallAuctionMarketDataReplayError>,
    ) -> bool {
        let updates = batch.updates@;
        let first = updates[0].sequence;
        if batch.replayed {
            &&& *self == *old
            &&& if updates.len() == 0 {
                r matches Ok(count) && count == 0
            } else {
                r matches Err(error) && error.refutes_batch(
                    "replayed auction batch contains updates"@,
                )
            }
        } else if updates.len() == 0 {
            &&& r matches Err(error) && error.refutes_batch("non-replayed auction batch is empty"@)
            &&& *self == *old
        } else if !updates_of_instrument(updates, old.instrument_id) {
            r matches Err(error) && error is WrongInstrument && *self == *old
        } else if !updates_of_version(updates, old.instrument_version) {
            r matches Err(error) && error is WrongInstrumentVersion && *self == *old
        } else if !updates_contiguous(updates) {
            &&& r matches Err(error) && error.refutes_batch(
                "auction batch sequences are not contiguous"@,
            )
            &&& *self == *old
        } else if updates.len() > old.maximum {
            r matches Err(error) && error
                == (CallAuctionMarketDataReplayError::BatchExceedsCapacity {
                maximum: old.maximum,
                attempted: updates.len() as usize,
            }) && *self == *old
        } else if first > old.latest + 1 {
            r matches Err(error) && error == (CallAuctionMarketDataReplayError::SequenceGap {
                expected: (old.latest + 1) as u64,
                actual: first,
            }) && *self == *old
        } else if first == old.latest + 1 {
            &&& r matches Ok(count) && count == updates.len()
            &&& self.retained() == newest(
                old.retained() + batch_entries(updates),
                old.maximum as int,
            )
            &&& self.latest == updates.last().sequence
            &&& self.maximum == old.maximum
            &&& self.reserved == old.reserved
            &&& self.instrument_id == old.instrument_id
            &&& self.instrument_version == old.instrument_version
        } else {
            &&& *self == *old
            &&& if first < old.latest - old.retained().len() + 1 {
                r matches Err(error) && error
                    == (CallAuctionMarketDataReplayError::EvictedOverlap { sequence: first })
            } else if old.retains_batch(updates) {
                r matches Ok(count) && count == 0
            } else {
                r matches Err(error) && error == (CallAuctionMarketDataReplayError::Collision {
                    sequence: first,
                })
            }
        }
    }

    fn check_updates(&self, updates: &Vec<CallAuctionMarketDataUpdate>) -> (r: (bool, bool, bool))
        requires
            updates@.len() > 0,
        ensures
            r.0 == updates_of_instrument(updates@, self.instrument_id),
            r.1 == updates_of_version(updates@, self.instrument_version),
            r.2 == updates_contiguous(updates@),
    {
        let mut instrument: bool = true;
        let mut version: bool = true;
        let mut contiguous: bool = true;
        let mut index: usize = 0;
        while index < updates.len()
            invariant
                updates@.len() > 0,
                index <= updates@.len(),
                instrument == forall|i: int|
                    0 <= i < index ==> (#[trigger] updates@[i]).instrument_id == self.instrument_id,
                version == forall|i: int|
                    0 <= i < index ==> (#[trigger] updates@[i]).instrument_version
                        == self.instrument_version,
                contiguous == forall|i: int|
                    0 <= i < index ==> (#[trigger] updates@[i]).sequence == updates@[0].sequence
                        + i,
            decreases updates@.len() - index,
        {
            let update = updates[index];
            proof {
                assert(updates@[index as int] == update);
            }
            if update.instrument_id != self.instrument_id {
                instrument = false;
            }
            if update.instrument_version != self.instrument_version {
                version = false;
            }
            if updates[0].sequence.checked_add(index as u64) != Some(update.sequence) {
                contiguous = false;
            }
            index += 1;
        }
        (instrument, version, contiguous)
    }

    fn check_retained(&self, updates: &Vec<CallAuctionMarketDataUpdate>, start: usize) -> (r: bool)
        requires
            self.audited(),
            updates@.len() > 0,
            updates_contiguous(updates@),
            updates@[0].sequence <= self.latest,
            start == updates@[0].sequence - (self.latest - self.retained().len() + 1),
        ensures
            r == self.retains_batch(updates@),
    {
        let first: u64 = updates[0].sequence;
        let last: u64 = updates[updates.len() - 1].sequence;
        if last > self.latest {
            return false;
        }
        let mut index: usize = 0;
        while index < updates.len()
            invariant
                self.audited(),
                updates@.len() > 0,
                updates_contiguous(updates@),
                first == updates@[0].sequence,
                last == updates@.last().sequence,
                last <= self.latest,
                start == first - (self.latest - self.retained().len() + 1),
                index <= updates@.len(),
                forall|i: int|
                    0 <= i < index ==> self.retained()[start + i] == #[trigger] batch_entries(
                        updates@,
                    )[i],
            decreases updates@.len() - index,
        {
            proof {
                assert(updates@[index as int].sequence == first + index);
                assert(updates@[updates@.len() - 1].sequence == first + updates@.len() - 1);
            }
            let wanted = RetainedUpdate { update: updates[index], first, last };
            proof {
                assert(batch_entries(updates@)[index as int] == wanted);
            }
            if self.entry(start + index) != wanted {
                return false;
            }
            index += 1;
        }
        true
    }

    /// Atomically admits one auction publisher command batch. Returns how many
    /// of its updates are new.
    pub fn push_batch(&mut self, batch: &CallAuctionMarketDataBatch) -> (r: Result<
        usize,
        CallAuctionMarketDataReplayError,
    >)
        requires
            old(self).audited(),
        ensures
            final(self).audited(),
            final(self).pushed(old(self), *batch, r),
    {
        let ghost entry = *self;
        let ghost updates = batch.updates@;
        if batch.replayed {
            if batch.updates.len() == 0 {
                return Ok(0);
            }
            return Err(
                CallAuctionMarketDataReplayError::InvalidBatch(
                    "replayed auction batch contains updates",
                ),
            );
        }
        if batch.updates.len() == 0 {
            return Err(
                CallAuctionMarketDataReplayError::InvalidBatch(
                    "non-replayed auction batch is empty",
                ),
            );
        }
        let (instrument, version, contiguous) = self.check_updates(&batch.updates);
        if !instrument {
            return Err(CallAuctionMarketDataReplayError::WrongInstrument);
        }
        if !version {
            return Err(CallAuctionMarketDataReplayError::WrongInstrumentVersion);
        }
        if !contiguous {
            return Err(
                CallAuctionMarketDataReplayError::InvalidBatch(
                    "auction batch sequences are not contiguous",
                ),
            );
        }
        let count: usize = batch.updates.len();
        if count > self.maximum {
            return Err(
                CallAuctionMarketDataReplayError::BatchExceedsCapacity {
                    maximum: self.maximum,
                    attempted: count,
                },
            );
        }
        let first: u64 = batch.updates[0].sequence;
        let last: u64 = batch.updates[count - 1].sequence;
        if first <= self.latest {
            let retained: u64 = self.slots.len() as u64;
            if self.latest - first >= retained {
                return Err(
                    CallAuctionMarketDataReplayError::EvictedOverlap { sequence: first },
                );
            }
            let start: usize = self.slots.len() - 1 - (self.latest - first) as usize;
            return if self.check_retained(&batch.updates, start) {
                Ok(0)
            } else {
                Err(CallAuctionMarketDataReplayError::Collision { sequence: first })
            };
        }
        if first - 1 > self.latest {
            return Err(
                CallAuctionMarketDataReplayError::SequenceGap {
                    expected: self.latest + 1,
                    actual: first,
                },
            );
        }
        let ghost added = batch_entries(updates);
        let mut index: usize = 0;
        proof {
            assert(entry.retained() + added.take(0) =~= entry.retained());
        }
        while index < count
            invariant
                entry == *old(self),
                entry.ring_ok(),
                updates == batch.updates@,
                added == batch_entries(updates),
                index <= count == updates.len(),
                first == updates[0].sequence,
                last == updates.last().sequence,
                self.ring_ok(),
                self.maximum == entry.maximum,
                self.reserved == entry.reserved,
                self.latest == entry.latest,
                self.instrument_id == entry.instrument_id,
                self.instrument_version == entry.instrument_version,
                self.retained() == newest(
                    entry.retained() + added.take(index as int),
                    entry.maximum as int,
                ),
            decreases count - index,
        {
            let ghost whole = entry.retained() + added.take(index as int);
            let ghost longer = entry.retained() + added.take(index + 1);
            self.push(RetainedUpdate { update: batch.updates[index], first, last });
            proof {
                let maximum = entry.maximum as int;
                assert(longer =~= whole.push(added[index as int]));
                assert(newest(newest(whole, maximum).push(added[index as int]), maximum) =~= newest(
                    whole.push(added[index as int]),
                    maximum,
                ));
            }
            index += 1;
        }
        self.latest = last;
        proof {
            assert(added.take(count as int) =~= added);
            lemma_appended(&entry, self, updates);
        }
        Ok(count)
    }

    /// Audits allocation, occupancy, identity, sequences, and batch boundaries.
    pub fn validate(&self) -> (r: Result<(), CallAuctionMarketDataReplayError>)
        ensures
            match r {
                Ok(_) => self.audited(),
                Err(error) => {
                    &&& !self.audited()
                    &&& error.reports_corruption(
                        if self.ring_ok() {
                            "auction replay ring retains an inconsistent update"@
                        } else {
                            "auction replay ring contradicts its fixed layout"@
                        },
                    )
                },
            },
    {
        let count: usize = self.slots.len();
        if self.maximum == 0 || self.reserved < self.maximum || count > self.maximum || (count
            < self.maximum && self.head != 0) || (count == self.maximum && self.head
            >= self.maximum) {
            return Err(
                CallAuctionMarketDataReplayError::CorruptState(
                    "auction replay ring contradicts its fixed layout",
                ),
            );
        }
        let mut index: usize = 0;
        while index < count
            invariant
                self.ring_ok(),
                index <= count == self.retained().len(),
                forall|i: int| 0 <= i < index ==> #[trigger] self.entry_ok(i),
            decreases count - index,
        {
            let entry = self.entry(index);
            let behind: u64 = (count - 1 - index) as u64;
            let linked: bool = if index + 1 < count {
                let next = self.entry(index + 1);
                if entry.update.sequence == entry.last {
                    next.first == next.update.sequence
                } else {
                    next.first == entry.first && next.last == entry.last
                }
            } else {
                true
            };
            if entry.update.instrument_id != self.instrument_id || entry.update.instrument_version
                != self.instrument_version || self.latest.checked_sub(behind) != Some(
                entry.update.sequence,
            ) || entry.first > entry.update.sequence || entry.update.sequence > entry.last
                || entry.last > self.latest || !linked {
                proof {
                    assert(!self.entry_ok(index as int));
                }
                return Err(
                    CallAuctionMarketDataReplayError::CorruptState(
                        "auction replay ring retains an inconsistent update",
                    ),
                );
            }
            proof {
                assert(self.entry_ok(index as int));
            }
            index += 1;
        }
        Ok(())
    }
}

/// A window to which a batch was appended passes its audit.
proof fn lemma_appended(
    old: &CallAuctionMarketDataReplayBuffer,
    new: &CallAuctionMarketDataReplayBuffer,
    updates: Seq<CallAuctionMarketDataUpdate>,
)
    requires
        old.audited(),
        new.ring_ok(),
        new.maximum == old.maximum,
        new.instrument_id == old.instrument_id,
        new.instrument_version == old.instrument_version,
        updates.len() > 0,
        updates_contiguous(updates),
        updates_of_instrument(updates, old.instrument_id),
        updates_of_version(updates, old.instrument_version),
        updates[0].sequence == old.latest + 1,
        new.latest == updates.last().sequence,
        new.retained() == newest(old.retained() + batch_entries(updates), old.maximum as int),
    ensures
        new.audited(),
{
    let before = old.retained();
    let added = batch_entries(updates);
    let whole = before + added;
    let kept = new.retained();
    let skip = whole.len() - kept.len();
    assert(updates[updates.len() - 1].sequence == updates[0].sequence + updates.len() - 1);
    assert forall|j: int| 0 <= j < before.len() implies {
        &&& #[trigger] before[j] == whole[j]
        &&& before[j].update.sequence == old.latest - before.len() + 1 + j
        &&& before[j].first <= before[j].update.sequence <= before[j].last <= old.latest
        &&& before[j].update.instrument_id == old.instrument_id
        &&& before[j].update.instrument_version == old.instrument_version
    } by {
        assert(old.entry_ok(j));
    }
    assert forall|i: int| 0 <= i < kept.len() implies #[trigger] new.entry_ok(i) by {
        let j = i + skip;
        assert(kept[i] == whole[j]);
        if j < before.len() {
            assert(before[j] == whole[j]);
            assert(old.entry_ok(j));
            if i + 1 < kept.len() {
                assert(kept[i + 1] == whole[j + 1]);
                if j + 1 < before.len() {
                    assert(whole[j + 1] == before[j + 1]);
                } else {
                    assert(whole[j + 1] == added[0]);
                    assert(before[j].update.sequence == old.latest);
                }
            }
        } else {
            let k = j - before.len();
            assert(whole[j] == added[k]);
            assert(updates[k].sequence == updates[0].sequence + k);
            if i + 1 < kept.len() {
                assert(kept[i + 1] == whole[j + 1]);
                assert(whole[j + 1] == added[k + 1]);
                assert(updates[k + 1].sequence == updates[0].sequence + k + 1);
            }
        }
    }
}

/// One complete retained batch.
#[derive(Clone, Copy, Debug)]
pub struct CallAuctionMarketDataReplayBatch<'a> {
    /// Window that retains the batch.
    pub buffer: &'a CallAuctionMarketDataReplayBuffer,
    /// Position of its first update.
    pub start: usize,
    /// Number of its updates.
    pub count: usize,
}

/// Complete retained batches after one cursor.
#[derive(Debug)]
pub struct CallAuctionMarketDataReplay<'a> {
    /// Batches in sequence order.
    pub batches: Vec<CallAuctionMarketDataReplayBatch<'a>>,
    /// Updates of all batches.
    pub update_count: usize,
}

impl<'a> CallAuctionMarketDataReplayBatch<'a> {
    /// Exactly one whole batch of a window.
    pub open spec fn wf(&self) -> bool {
        let entries = self.buffer.retained();
        &&& self.buffer.audited()
        &&& self.count > 0
        &&& self.start + self.count <= entries.len()
        &&& entries[self.start as int].first == entries[self.start as int].update.sequence
        &&& entries[self.start + self.count - 1].last == entries[self.start + self.count
            - 1].update.sequence
        &&& forall|i: int|
            self.start <= i < self.start + self.count ==> {
                &&& (#[trigger] entries[i]).first == entries[self.start as int].first
                &&& entries[i].last == entries[self.start as int].last
            }
    }

    /// Updates of the batch.
    pub open spec fn content(&self) -> Seq<CallAuctionMarketDataUpdate> {
        Seq::new(self.count as nat, |i: int| self.buffer.retained()[self.start + i].update)
    }

    /// Returns the number of updates.
    #[must_use]
    pub fn len(&self) -> (r: usize)
        ensures
            r == self.content().len(),
    {
        self.count
    }

    /// Returns whether the batch holds no update.
    #[must_use]
    pub fn is_empty(&self) -> (r: bool)
        ensures
            r == (self.content().len() == 0),
    {
        self.count == 0
    }

    /// Returns one update.
    #[must_use]
    pub fn update(&self, index: usize) -> (r: CallAuctionMarketDataUpdate)
        requires
            self.wf(),
            index < self.content().len(),
        ensures
            r == self.content()[index as int],
    {
        self.buffer.entry(self.start + index).update
    }

    /// Returns the updates.
    #[must_use]
    pub fn updates(&self) -> (r: Vec<CallAuctionMarketDataUpdate>)
        requires
            self.wf(),
        ensures
            r@ == self.content(),
    {
        let mut output: Vec<CallAuctionMarketDataUpdate> = Vec::new();
        while output.len() < self.count
            invariant
                self.wf(),
                output@.len() <= self.count,
                output@ == self.content().take(output@.len() as int),
            decreases self.count - output@.len(),
        {
            let ghost index = output@.len() as int;
            let update = self.update(output.len());
            output.push(update);
            proof {
                assert(self.content().take(index + 1) =~= self.content().take(index).push(update));
            }
        }
        proof {
            assert(self.content().take(self.count as int) =~= self.content());
        }
        output
    }
}

/// A batch that begins in the window is retained whole.
proof fn lemma_batch_whole(buffer: &CallAuctionMarketDataReplayBuffer, start: int, ahead: int)
    requires
        buffer.audited(),
        0 <= start < buffer.retained().len(),
        buffer.retained()[start].first == buffer.retained()[start].update.sequence,
        0 <= ahead <= buffer.retained()[start].last - buffer.retained()[start].update.sequence,
    ensures
        start + ahead < buffer.retained().len(),
        buffer.retained()[start + ahead].first == buffer.retained()[start].first,
        buffer.retained()[start + ahead].last == buffer.retained()[start].last,
        buffer.retained()[start + ahead].update.sequence
            == buffer.retained()[start].update.sequence + ahead,
    decreases ahead,
{
    assert(buffer.entry_ok(start));
    if ahead > 0 {
        lemma_batch_whole(buffer, start, ahead - 1);
        assert(buffer.entry_ok(start + ahead - 1));
        assert(buffer.entry_ok(start + ahead));
    }
}

impl CallAuctionMarketDataReplayBuffer {
    /// Position of the update after a cursor.
    pub open spec fn position_after(&self, after: u64) -> int {
        self.retained().len() - (self.latest - after)
    }

    /// Batches of a replay follow each other from one position on, and the next
    /// one would exceed the limit.
    pub open spec fn replays(
        &self,
        replay: CallAuctionMarketDataReplay,
        start: int,
        maximum: usize,
    ) -> bool {
        let batches = replay.batches@;
        let end = start + replay.update_count;
        &&& replay.update_count <= maximum
        &&& end <= self.retained().len()
        &&& batches.len() == 0 ==> replay.update_count == 0
        &&& forall|i: int|
            0 <= i < batches.len() ==> (#[trigger] batches[i]).wf() && batches[i].buffer == self
        &&& batches.len() > 0 ==> batches[0].start == start && batches.last().start
            + batches.last().count == end
        &&& forall|i: int|
            0 <= i < batches.len() - 1 ==> (#[trigger] batches[i]).start + batches[i].count
                == batches[i + 1].start
        &&& end < self.retained().len() ==> self.retained()[end].last
            - self.retained()[end].update.sequence + 1 > maximum - replay.update_count
    }

    /// Returns complete batches strictly after `after_sequence` without copying
    /// their updates. `maximum_updates` bounds the total and never splits a batch.
    #[verifier::rlimit(50)]
    pub fn replay_batches_after(&self, after_sequence: u64, maximum_updates: usize) -> (r: Result<
        CallAuctionMarketDataReplay<'_>,
        CallAuctionMarketDataReplayError,
    >)
        requires
            self.audited(),
        ensures
            ({
                let position = self.position_after(after_sequence);
                let entry = self.retained()[position];
                if maximum_updates == 0 {
                    r matches Err(error) && error is ZeroLimit
                } else if after_sequence > self.latest {
                    r matches Err(error) && error
                        == (CallAuctionMarketDataReplayError::FutureCursor {
                        latest: self.latest,
                        requested: after_sequence,
                    })
                } else if position < 0 {
                    r matches Err(error) && error
                        == (CallAuctionMarketDataReplayError::UnavailableCursor {
                        requested: after_sequence,
                    })
                } else if after_sequence < self.latest && entry.first != entry.update.sequence {
                    r matches Err(error) && error
                        == (CallAuctionMarketDataReplayError::NotBatchBoundary {
                        requested: after_sequence,
                    })
                } else if after_sequence < self.latest && entry.last - entry.first + 1
                    > maximum_updates {
                    r matches Err(error) && error
                        == (CallAuctionMarketDataReplayError::BatchExceedsLimit {
                        maximum: maximum_updates,
                        required: (entry.last - entry.first + 1) as usize,
                    })
                } else {
                    r matches Ok(replay) && self.replays(replay, position, maximum_updates) && (
                    after_sequence < self.latest ==> replay.batches@.len() > 0)
                }
            }),
    {
        if maximum_updates == 0 {
            return Err(CallAuctionMarketDataReplayError::ZeroLimit);
        }
        if after_sequence > self.latest {
            return Err(
                CallAuctionMarketDataReplayError::FutureCursor {
                    latest: self.latest,
                    requested: after_sequence,
                },
            );
        }
        let behind: u64 = self.latest - after_sequence;
        let count: usize = self.slots.len();
        if behind > count as u64 {
            return Err(
                CallAuctionMarketDataReplayError::UnavailableCursor { requested: after_sequence },
            );
        }
        let start: usize = count - behind as usize;
        let mut batches: Vec<CallAuctionMarketDataReplayBatch<'_>> = Vec::new();
        let mut update_count: usize = 0;
        if start == count {
            return Ok(CallAuctionMarketDataReplay { batches, update_count });
        }
        let opening = self.entry(start);
        proof {
            assert(self.entry_ok(start as int));
        }
        if opening.first != opening.update.sequence {
            return Err(
                CallAuctionMarketDataReplayError::NotBatchBoundary { requested: after_sequence },
            );
        }
        proof {
            lemma_batch_whole(self, start as int, opening.last - opening.first);
        }
        let opening_len: usize = (opening.last - opening.first) as usize + 1;
        if opening_len > maximum_updates {
            return Err(
                CallAuctionMarketDataReplayError::BatchExceedsLimit {
                    maximum: maximum_updates,
                    required: opening_len,
                },
            );
        }
        let mut done: bool = false;
        while !done
            invariant
                self.audited(),
                count == self.retained().len(),
                start < count,
                update_count <= maximum_updates,
                start + update_count <= count,
                start + update_count < count ==> self.retained()[start + update_count].first
                    == self.retained()[start + update_count].update.sequence,
                opening == self.retained()[start as int],
                opening.last - opening.first + 1 <= maximum_updates,
                batches@.len() == 0 ==> update_count == 0,
                forall|i: int|
                    0 <= i < batches@.len() ==> (#[trigger] batches@[i]).wf() && batches@[i].buffer
                        == self,
                batches@.len() > 0 ==> batches@[0].start == start && batches@.last().start
                    + batches@.last().count == start + update_count,
                forall|i: int|
                    0 <= i < batches@.len() - 1 ==> (#[trigger] batches@[i]).start
                        + batches@[i].count == batches@[i + 1].start,
                done ==> batches@.len() > 0,
                done && start + update_count < count ==> self.retained()[start + update_count].last
                    - self.retained()[start + update_count].update.sequence + 1 > maximum_updates
                    - update_count,
            decreases count - update_count + if done {
                0int
            } else {
                1int
            },
        {
            let position: usize = start + update_count;
            if position == count {
                done = true;
            } else {
                let entry = self.entry(position);
                proof {
                    assert(self.entry_ok(position as int));
                    lemma_batch_whole(self, position as int, entry.last - entry.first);
                }
                let batch_len: usize = (entry.last - entry.first) as usize + 1;
                if batch_len > maximum_updates - update_count {
                    done = true;
                } else {
                    let batch = CallAuctionMarketDataReplayBatch {
                        buffer: self,
                        start: position,
                        count: batch_len,
                    };
                    proof {
                        assert forall|i: int| position <= i < position + batch_len implies {
                            &&& (#[trigger] self.retained()[i]).first == entry.first
                            &&& self.retained()[i].last == entry.last
                        } by {
                            lemma_batch_whole(self, position as int, i - position);
                        }
                        assert(batch.wf());
                        if position + batch_len < count {
                            assert(self.entry_ok(position + batch_len - 1));
                            assert(entry_links(
                                self.retained()[position + batch_len - 1],
                                self.retained()[position + batch_len],
                            ));
                        }
                    }
                    batches.push(batch);
                    update_count = update_count + batch_len;
                }
            }
        }
        Ok(CallAuctionMarketDataReplay { batches, update_count })
    }
}

impl CallAuctionMarketDataReplica {
    /// Applies one complete batch returned by retained replay, under the rules
    /// of [`Self::apply_batch`].
    pub fn apply_replay_batch(&mut self, batch: &CallAuctionMarketDataReplayBatch<'_>) -> (r: Result<
        (),
        CallAuctionMarketDataError,
    >)
        requires
            old(self).wf(),
            batch.wf(),
        ensures
            final(self).wf(),
            old(self).audited() && !final(self).poisoned ==> final(self).audited(),
            if old(self).poisoned {
                r == Err::<(), _>(CallAuctionMarketDataError::Poisoned) && *final(self) == *old(self)
            } else {
                final(self).batch_applied(old(self), batch.content(), r)
            },
    {
        if self.poisoned {
            return Err(CallAuctionMarketDataError::Poisoned);
        }
        let updates = batch.updates();
        self.apply_complete_batch(updates.as_slice())
    }
}

/// Replaying what was pushed gives back the batch that was pushed.
pub proof fn law_replay_returns_pushed_batch(
    old: &CallAuctionMarketDataReplayBuffer,
    new: &CallAuctionMarketDataReplayBuffer,
    batch: CallAuctionMarketDataBatch,
    pushed: Result<usize, CallAuctionMarketDataReplayError>,
    replay: CallAuctionMarketDataReplay,
    maximum: usize,
)
    requires
        old.audited(),
        new.audited(),
        new.pushed(old, batch, pushed),
        pushed matches Ok(count) && count > 0,
        new.replays(replay, new.position_after(old.latest), maximum),
        replay.batches@.len() > 0,
    ensures
        replay.batches@.len() == 1,
        replay.batches@[0].content() == batch.updates@,
{
    let updates = batch.updates@;
    let added = batch_entries(updates);
    let whole = old.retained() + added;
    let kept = new.retained();
    assert(updates[updates.len() - 1].sequence == updates[0].sequence + updates.len() - 1);
    let position = new.position_after(old.latest);
    assert(position == kept.len() - updates.len());
    assert forall|k: int| 0 <= k < updates.len() implies #[trigger] kept[position + k]
        == added[k] by {
        assert(kept[position + k] == whole[old.retained().len() + k]);
        assert(whole[old.retained().len() + k] == added[k]);
    }
    let found = replay.batches@[0];
    assert(found.wf());
    assert(found.start == position);
    let end = found.start + found.count - 1;
    assert(kept[position + (end - position)] == added[end - position]);
    assert(kept[end].last == updates.last().sequence);
    assert(updates[end - position].sequence == updates[0].sequence + (end - position));
    assert(found.count == updates.len());
    if replay.batches@.len() > 1 {
        assert(replay.batches@[0].start + replay.batches@[0].count == replay.batches@[1].start);
        assert(replay.batches@[1].wf());
    }
    assert(found.content() =~= updates) by {
        assert forall|k: int| 0 <= k < updates.len() implies found.content()[k] == updates[k] by {
            assert(kept[position + k] == added[k]);
        }
    }
}

} // verus!
