//! The bounded store of log records.

use crate::filter::{lemma_empty_filter_matches_all, matched, LogFilter};
use crate::log_entry::{LogEntry, LogRecord};
use vstd::prelude::*;

verus! {

/// The number of records that a store keeps unless told otherwise.
pub const DEFAULT_CAPACITY: usize = 100_000;

/// The values of a list of records, in order.
pub open spec fn records_view(records: Seq<LogEntry>) -> Seq<LogRecord> {
    Seq::new(records.len(), |i: int| records[i]@)
}

/// The last `count` items of a sequence, or all of them where it has no
/// more.
pub open spec fn keep_last<T>(items: Seq<T>, count: nat) -> Seq<T> {
    if items.len() > count {
        items.subrange(items.len() - count, items.len() as int)
    } else {
        items
    }
}

/// What a store of a given capacity holds after a series of arrivals, each
/// appended in turn.
pub open spec fn append_all(
    stored: Seq<LogRecord>,
    arrivals: Seq<LogRecord>,
    capacity: nat,
) -> Seq<LogRecord>
    decreases arrivals.len(),
{
    if arrivals.len() == 0 {
        stored
    } else {
        keep_last(
            append_all(stored, arrivals.drop_last(), capacity).push(arrivals.last()),
            capacity,
        )
    }
}

/// Trimming before and after one more arrival is trimming once after it.
pub proof fn lemma_keep_last_push<T>(items: Seq<T>, item: T, count: nat)
    ensures
        keep_last(keep_last(items, count).push(item), count) == keep_last(items.push(item), count),
        keep_last(items, count).len() <= count,
{
}

/// After any series of appends a store holds no more than its capacity, and
/// what it holds is the most recent records of all that it was given, in the
/// order of their arrival.
pub proof fn lemma_appends_keep_most_recent(
    stored: Seq<LogRecord>,
    arrivals: Seq<LogRecord>,
    capacity: nat,
)
    requires
        stored.len() <= capacity,
    ensures
        append_all(stored, arrivals, capacity) == keep_last(stored + arrivals, capacity),
        append_all(stored, arrivals, capacity).len() <= capacity,
        stored.len() + arrivals.len() > capacity ==> append_all(stored, arrivals, capacity)
            == (stored + arrivals).subrange(
            stored.len() + arrivals.len() - capacity,
            (stored.len() + arrivals.len()) as int,
        ),
    decreases arrivals.len(),
{
    if arrivals.len() > 0 {
        let earlier = arrivals.drop_last();
        lemma_appends_keep_most_recent(stored, earlier, capacity);
        lemma_keep_last_push(stored + earlier, arrivals.last(), capacity);
    }
}

/// A bounded sequence of records in the order of their arrival. Once it is
/// full, each append drops the oldest records.
pub struct Store {
    records: Vec<LogEntry>,
    capacity: usize,
}

impl View for Store {
    type V = Seq<LogRecord>;

    closed spec fn view(&self) -> Seq<LogRecord> {
        records_view(self.records@)
    }
}

impl Store {
    #[verifier::type_invariant]
    spec fn within_capacity(self) -> bool {
        self.records@.len() <= self.capacity
    }

    /// The most records that the store keeps.
    pub closed spec fn limit(&self) -> nat {
        self.capacity as nat
    }

    /// An empty store that keeps at most `capacity` records.
    pub fn new(capacity: usize) -> (store: Store)
        ensures
            store@ == Seq::<LogRecord>::empty(),
            store.limit() == capacity,
    {
        let store = Store { records: Vec::new(), capacity };
        store
    }

    /// The most records that the store keeps.
    pub fn capacity(&self) -> (capacity: usize)
        ensures
            capacity == self.limit(),
    {
        self.capacity
    }

    /// The number of records in the store. It never exceeds the capacity.
    pub fn len(&self) -> (count: usize)
        ensures
            count == self@.len(),
            count <= self.limit(),
    {
        proof {
            use_type_invariant(self);
        }
        self.records.len()
    }

    /// Whether the store holds no record.
    pub fn is_empty(&self) -> (empty: bool)
        ensures
            empty == (self@.len() == 0),
    {
        self.records.len() == 0
    }

    /// The records in the store, oldest first.
    pub fn records(&self) -> (records: &Vec<LogEntry>)
        ensures
            records_view(records@) == self@,
    {
        &self.records
    }

    /// The record at a position, oldest first, where the store holds that
    /// many.
    pub fn get(&self, position: usize) -> (record: Option<&LogEntry>)
        ensures
            record is Some <==> position < self@.len(),
            record matches Some(found) ==> found@ == self@[position as int],
    {
        if position < self.records.len() {
            Some(&self.records[position])
        } else {
            None
        }
    }

    /// Adds a record at the tail. Where that exceeds the capacity, the oldest
    /// records leave, all at once, and exactly the capacity stays.
    pub fn append(&mut self, record: LogEntry)
        ensures
            final(self)@ == keep_last(old(self)@.push(record@), old(self).limit()),
            final(self)@.len() <= final(self).limit(),
            final(self).limit() == old(self).limit(),
    {
        let mut records: Vec<LogEntry> = Vec::new();
        core::mem::swap(&mut self.records, &mut records);
        records.push(record);
        if records.len() > self.capacity {
            let excess: usize = records.len() - self.capacity;
            let kept = records.split_off(excess);
            records = kept;
        }
        self.records = records;
    }

    /// The records that match a filter, in the order of their arrival. With
    /// no filter, or with the empty filter, every record is returned and none
    /// is tested.
    pub fn snapshot(&self, filter: Option<&LogFilter>) -> (records: Vec<LogEntry>)
        ensures
            records_view(records@) == match filter {
                Some(f) => matched(self@, f@),
                None => self@,
            },
            records@.len() <= self@.len(),
    {
        match filter {
            Some(f) => {
                if f.is_empty() {
                    proof {
                        lemma_empty_filter_matches_all(self@, f@);
                    }
                    self.copy_all()
                } else {
                    self.copy_matching(f)
                }
            },
            None => self.copy_all(),
        }
    }

    /// Empties the store. Its capacity stays.
    pub fn clear(&mut self)
        ensures
            final(self)@ == Seq::<LogRecord>::empty(),
            final(self).limit() == old(self).limit(),
    {
        self.records = Vec::new();
    }

    fn copy_all(&self) -> (records: Vec<LogEntry>)
        ensures
            records_view(records@) == self@,
    {
        let mut records: Vec<LogEntry> = Vec::new();
        let mut i: usize = 0;
        while i < self.records.len()
            invariant
                i <= self.records.len(),
                records.len() == i,
                forall|k: int| 0 <= k < i ==> records[k]@ == self.records[k]@,
            decreases self.records.len() - i,
        {
            records.push(self.records[i].clone());
            i += 1;
        }
        records
    }

    fn copy_matching(&self, filter: &LogFilter) -> (records: Vec<LogEntry>)
        ensures
            records_view(records@) == matched(self@, filter@),
            records@.len() <= self@.len(),
    {
        let mut records: Vec<LogEntry> = Vec::new();
        let mut i: usize = 0;
        while i < self.records.len()
            invariant
                i <= self.records.len(),
                records@.len() <= i,
                records_view(records@) == matched(self@.take(i as int), filter@),
            decreases self.records.len() - i,
        {
            assert(self@.take(i + 1).drop_last() =~= self@.take(i as int));
            if filter.matches(&self.records[i]) {
                records.push(self.records[i].clone());
            }
            i += 1;
        }
        assert(self@.take(i as int) =~= self@);
        records
    }
}

} // verus!
