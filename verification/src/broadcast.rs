//! Fan-out of records to live subscribers, each with a bounded queue of its
//! own that drops its oldest record when it is full.

use crate::log_entry::{LogEntry, LogRecord};
use crate::store::{keep_last, lemma_keep_last_push, records_view};
use std::collections::VecDeque;
use vstd::prelude::*;

verus! {

/// The number of live records that a subscriber's queue holds unless told
/// otherwise.
pub const DEFAULT_QUEUE_CAPACITY: usize = 1000;

/// What one subscriber has yet to receive: first the rest of the backlog
/// that it was given when it subscribed, then the queue of live records.
pub struct SubscriberView {
    pub backlog: Seq<LogRecord>,
    pub queue: Seq<LogRecord>,
    pub dropped: u64,
}

impl SubscriberView {
    /// Everything that the subscriber has yet to receive, in the order in
    /// which it will receive it.
    pub open spec fn pending(self) -> Seq<LogRecord> {
        self.backlog + self.queue
    }

    /// The subscriber after one more record was published. The record joins
    /// the tail of the queue; where the queue was full, its oldest record is
    /// dropped and counted. The count stops at the largest number.
    pub open spec fn offered(self, record: LogRecord, capacity: nat) -> SubscriberView {
        let lost = self.queue.len() + 1 - keep_last(self.queue.push(record), capacity).len();
        SubscriberView {
            backlog: self.backlog,
            queue: keep_last(self.queue.push(record), capacity),
            dropped: if self.dropped + lost > u64::MAX {
                u64::MAX
            } else {
                (self.dropped + lost) as u64
            },
        }
    }

    /// The subscriber after it received its next record.
    pub open spec fn advanced(self) -> SubscriberView {
        if self.backlog.len() > 0 {
            SubscriberView { backlog: self.backlog.drop_first(), ..self }
        } else {
            SubscriberView { queue: self.queue.drop_first(), ..self }
        }
    }
}

/// A subscriber receives what it has yet to receive from the front: taking
/// the next record removes the first of them and leaves the rest in order,
/// so that no record is received twice.
pub proof fn lemma_next_takes_the_head(subscriber: SubscriberView)
    requires
        subscriber.pending().len() > 0,
    ensures
        subscriber.advanced().pending() == subscriber.pending().drop_first(),
        subscriber.advanced().dropped == subscriber.dropped,
{
}

/// Two records published one after the other reach a subscriber in that
/// order and once each: they take the last two places of its queue, behind
/// everything it had yet to receive, and a queue too short for both keeps
/// the later one.
pub proof fn lemma_successive_publishes_keep_order(
    subscriber: SubscriberView,
    first: LogRecord,
    second: LogRecord,
    capacity: nat,
)
    requires
        subscriber.queue.len() <= capacity,
    ensures
        ({
            let after = subscriber.offered(first, capacity).offered(second, capacity);
            &&& after.backlog == subscriber.backlog
            &&& after.queue == keep_last(subscriber.queue.push(first).push(second), capacity)
            &&& after.queue.len() <= capacity
            &&& capacity >= 2 ==> {
                &&& after.queue.len() >= 2
                &&& after.queue[after.queue.len() - 2] == first
                &&& after.queue[after.queue.len() - 1] == second
                &&& after.pending().len() <= subscriber.pending().len() + 2
            }
            &&& capacity == 1 ==> after.queue == seq![second]
        }),
{
    lemma_keep_last_push(subscriber.queue.push(first), second, capacity);
}

struct Subscriber {
    id: u64,
    backlog: VecDeque<LogEntry>,
    queue: VecDeque<LogEntry>,
    dropped: u64,
}

impl View for Subscriber {
    type V = SubscriberView;

    closed spec fn view(&self) -> SubscriberView {
        SubscriberView {
            backlog: records_view(self.backlog@),
            queue: records_view(self.queue@),
            dropped: self.dropped,
        }
    }
}

impl Subscriber {
    fn offer(&mut self, record: LogEntry, capacity: usize)
        requires
            old(self).queue@.len() <= capacity,
        ensures
            final(self)@ == old(self)@.offered(record@, capacity as nat),
            final(self).id == old(self).id,
            final(self).queue@.len() <= capacity,
    {
        if capacity == 0 {
            if self.dropped < u64::MAX {
                self.dropped = self.dropped + 1;
            }
            assert(self@.queue =~= keep_last(old(self)@.queue.push(record@), 0));
        } else {
            if self.queue.len() >= capacity {
                let _ = self.queue.pop_front();
                if self.dropped < u64::MAX {
                    self.dropped = self.dropped + 1;
                }
            }
            self.queue.push_back(record);
            assert(self@.queue =~= keep_last(old(self)@.queue.push(record@), capacity as nat));
        }
    }

    fn take_next(&mut self) -> (next: Option<LogEntry>)
        ensures
            old(self)@.pending().len() == 0 ==> next is None && final(self)@ == old(self)@,
            old(self)@.pending().len() > 0 ==> (next matches Some(record) && record@ == old(
                self,
            )@.pending()[0] && final(self)@ == old(self)@.advanced()),
            final(self).id == old(self).id,
            final(self).queue@.len() <= old(self).queue@.len(),
    {
        if self.backlog.len() > 0 {
            let next = self.backlog.pop_front();
            assert(self@.backlog =~= old(self)@.backlog.drop_first());
            next
        } else if self.queue.len() > 0 {
            let next = self.queue.pop_front();
            assert(self@.queue =~= old(self)@.queue.drop_first());
            next
        } else {
            None
        }
    }
}

/// The subscribers' identifiers and what each has yet to receive.
pub open spec fn registry(subscribers: Seq<(u64, SubscriberView)>) -> Map<u64, SubscriberView> {
    Map::new(
        |id: u64| exists|i: int| 0 <= i < subscribers.len() && #[trigger] subscribers[i].0 == id,
        |id: u64|
            subscribers[choose|i: int|
                0 <= i < subscribers.len() && #[trigger] subscribers[i].0 == id].1,
    )
}

/// No identifier occurs twice.
pub open spec fn distinct_ids(subscribers: Seq<(u64, SubscriberView)>) -> bool {
    forall|i: int, j: int|
        0 <= i < subscribers.len() && 0 <= j < subscribers.len() && i != j
            ==> #[trigger] subscribers[i].0 != #[trigger] subscribers[j].0
}

/// The fan-out point: records published to it reach every subscriber.
pub struct Broadcaster {
    subscribers: Vec<Subscriber>,
    queue_capacity: usize,
    next_id: u64,
}

spec fn listing_of(subscribers: Seq<Subscriber>) -> Seq<(u64, SubscriberView)> {
    Seq::new(subscribers.len(), |i: int| (subscribers[i].id, subscribers[i]@))
}

spec fn admissible(subscribers: Seq<Subscriber>, next_id: u64, capacity: usize) -> bool {
    &&& distinct_ids(listing_of(subscribers))
    &&& forall|i: int| 0 <= i < subscribers.len() ==> (#[trigger] subscribers[i]).id < next_id
    &&& forall|i: int|
        0 <= i < subscribers.len() ==> (#[trigger] subscribers[i]).queue@.len() <= capacity
}

impl View for Broadcaster {
    type V = Map<u64, SubscriberView>;

    closed spec fn view(&self) -> Map<u64, SubscriberView> {
        registry(listing_of(self.subscribers@))
    }
}

impl Broadcaster {
    #[verifier::type_invariant]
    spec fn well_formed(self) -> bool {
        admissible(self.subscribers@, self.next_id, self.queue_capacity)
    }

    /// The most live records that the queue of one subscriber holds.
    pub closed spec fn queue_limit(&self) -> nat {
        self.queue_capacity as nat
    }

    /// The number of identifiers handed out so far.
    pub closed spec fn issued(&self) -> nat {
        self.next_id as nat
    }

    /// A broadcaster without subscribers, whose queues hold at most
    /// `queue_capacity` records each.
    pub fn new(queue_capacity: usize) -> (broadcaster: Broadcaster)
        ensures
            broadcaster@ == Map::<u64, SubscriberView>::empty(),
            broadcaster.queue_limit() == queue_capacity,
            broadcaster.issued() == 0,
    {
        let broadcaster = Broadcaster { subscribers: Vec::new(), queue_capacity, next_id: 0 };
        broadcaster
    }

    fn position(&self, id: u64) -> (at: Option<usize>)
        ensures
            at matches Some(i) ==> i < self.subscribers@.len() && self.subscribers@[i as int].id
                == id,
            at is None ==> forall|k: int|
                0 <= k < self.subscribers@.len() ==> (#[trigger] listing_of(
                    self.subscribers@,
                )[k]).0 != id,
    {
        let mut i: usize = 0;
        while i < self.subscribers.len()
            invariant
                i <= self.subscribers.len(),
                forall|k: int| 0 <= k < i ==> (#[trigger] self.subscribers@[k]).id != id,
            decreases self.subscribers.len() - i,
        {
            if self.subscribers[i].id == id {
                return Some(i);
            }
            i += 1;
        }
        None
    }

    /// Registers a subscriber that is first to receive a backlog, in the
    /// order given, and then every record published from now on. Returns its
    /// identifier, which no subscriber had before, or nothing once all
    /// identifiers are used up.
    pub fn subscribe(&mut self, backlog: &Vec<LogEntry>) -> (id: Option<u64>)
        ensures
            id is Some <==> old(self).issued() < u64::MAX,
            id matches Some(fresh) ==> {
                &&& fresh == old(self).issued()
                &&& !old(self)@.contains_key(fresh)
                &&& final(self)@ == old(self)@.insert(
                    fresh,
                    SubscriberView {
                        backlog: records_view(backlog@),
                        queue: Seq::empty(),
                        dropped: 0,
                    },
                )
                &&& final(self).issued() == old(self).issued() + 1
            },
            id is None ==> final(self)@ == old(self)@ && final(self).issued() == old(self).issued(),
            final(self).queue_limit() == old(self).queue_limit(),
    {
        proof {
            use_type_invariant(&*self);
        }
        if self.next_id == u64::MAX {
            return None;
        }
        let id = self.next_id;
        let mut replay: VecDeque<LogEntry> = VecDeque::new();
        let mut i: usize = 0;
        while i < backlog.len()
            invariant
                i <= backlog.len(),
                replay@.len() == i,
                forall|k: int| 0 <= k < i ==> replay@[k]@ == backlog[k]@,
            decreases backlog.len() - i,
        {
            replay.push_back(backlog[i].clone());
            i += 1;
        }
        let subscriber = Subscriber { id, backlog: replay, queue: VecDeque::new(), dropped: 0 };
        assert(subscriber@.backlog =~= records_view(backlog@));
        assert(subscriber@.queue =~= Seq::empty());
        let ghost before = listing_of(self.subscribers@);
        let ghost entry = subscriber@;
        let mut subscribers: Vec<Subscriber> = Vec::new();
        core::mem::swap(&mut self.subscribers, &mut subscribers);
        subscribers.push(subscriber);
        proof {
            let after = listing_of(subscribers@);
            assert(after =~= before.push((id, entry)));
            lemma_registry_absent(before, id);
            lemma_registry_push(before, id, entry);
        }
        self.next_id = id + 1;
        self.subscribers = subscribers;
        Some(id)
    }

    /// Removes a subscriber. Every other subscriber is left as it was.
    pub fn unsubscribe(&mut self, id: u64) -> (removed: bool)
        ensures
            removed == old(self)@.contains_key(id),
            final(self)@ == old(self)@.remove(id),
            final(self).queue_limit() == old(self).queue_limit(),
            final(self).issued() == old(self).issued(),
    {
        proof {
            use_type_invariant(&*self);
        }
        let ghost before = listing_of(self.subscribers@);
        match self.position(id) {
            None => {
                proof {
                    lemma_registry_absent(before, id);
                }
                false
            },
            Some(at) => {
                let mut subscribers: Vec<Subscriber> = Vec::new();
                core::mem::swap(&mut self.subscribers, &mut subscribers);
                let _ = subscribers.remove(at);
                proof {
                    assert(listing_of(subscribers@) =~= before.remove(at as int));
                    lemma_registry_entry(before, at as int);
                    lemma_registry_remove(before, at as int);
                }
                self.subscribers = subscribers;
                true
            },
        }
    }

    /// Hands a record to every subscriber. The record joins the tail of each
    /// queue; a queue that is full drops its oldest record. This never fails,
    /// however far behind a subscriber is.
    pub fn publish(&mut self, record: &LogEntry)
        ensures
            final(self)@ == old(self)@.map_values(
                |subscriber: SubscriberView|
                    subscriber.offered(record@, old(self).queue_limit()),
            ),
            final(self).queue_limit() == old(self).queue_limit(),
            final(self).issued() == old(self).issued(),
    {
        proof {
            use_type_invariant(&*self);
        }
        let ghost before = listing_of(self.subscribers@);
        let ghost limit = self.queue_limit();
        let capacity = self.queue_capacity;
        let mut subscribers: Vec<Subscriber> = Vec::new();
        core::mem::swap(&mut self.subscribers, &mut subscribers);
        let ghost previous = subscribers@;
        let mut i: usize = 0;
        while i < subscribers.len()
            invariant
                i <= subscribers.len(),
                subscribers.len() == previous.len(),
                forall|k: int|
                    0 <= k < i ==> (#[trigger] subscribers@[k]).id == previous[k].id
                        && subscribers@[k]@ == previous[k]@.offered(record@, capacity as nat)
                        && subscribers@[k].queue@.len() <= capacity,
                forall|k: int|
                    i <= k < subscribers.len() ==> (#[trigger] subscribers@[k]) == previous[k],
                forall|k: int|
                    0 <= k < previous.len() ==> (#[trigger] previous[k]).queue@.len()
                        <= capacity,
            decreases subscribers.len() - i,
        {
            subscribers[i].offer(record.clone(), capacity);
            i += 1;
        }
        proof {
            let after = listing_of(subscribers@);
            let change = |subscriber: SubscriberView| subscriber.offered(record@, limit);
            assert(after =~= each_changed(before, change));
            lemma_registry_map_values(before, change);
        }
        self.subscribers = subscribers;
    }

    /// Takes the next record that a subscriber has yet to receive: the rest
    /// of its backlog first, then its queue, oldest first. Returns nothing
    /// where the subscriber is not registered or has nothing to receive.
    pub fn next(&mut self, id: u64) -> (next: Option<LogEntry>)
        ensures
            next is Some <==> old(self)@.contains_key(id) && old(self)@[id].pending().len() > 0,
            next matches Some(record) ==> {
                &&& record@ == old(self)@[id].pending()[0]
                &&& final(self)@ == old(self)@.insert(id, old(self)@[id].advanced())
            },
            next is None ==> final(self)@ == old(self)@,
            final(self).queue_limit() == old(self).queue_limit(),
            final(self).issued() == old(self).issued(),
    {
        proof {
            use_type_invariant(&*self);
        }
        let ghost before = listing_of(self.subscribers@);
        match self.position(id) {
            None => {
                proof {
                    lemma_registry_absent(before, id);
                }
                None
            },
            Some(at) => {
                proof {
                    lemma_registry_entry(before, at as int);
                }
                let mut subscribers: Vec<Subscriber> = Vec::new();
                core::mem::swap(&mut self.subscribers, &mut subscribers);
                let next = subscribers[at].take_next();
                proof {
                    let after = listing_of(subscribers@);
                    if next is Some {
                        assert(after =~= before.update(
                            at as int,
                            (id, before[at as int].1.advanced()),
                        ));
                        lemma_registry_update(before, at as int, before[at as int].1.advanced());
                    } else {
                        assert(after =~= before);
                    }
                }
                self.subscribers = subscribers;
                next
            },
        }
    }

    /// How many records a subscriber has yet to receive, and how many its
    /// queue has dropped: `(pending, dropped)`. Nothing where it is not
    /// registered.
    pub fn status(&self, id: u64) -> (status: Option<(usize, u64)>)
        ensures
            status is Some <==> self@.contains_key(id),
            status matches Some(counts) ==> counts.1 == self@[id].dropped && (counts.0
                == self@[id].pending().len() || (counts.0 == usize::MAX
                && self@[id].pending().len() > usize::MAX)),
    {
        proof {
            use_type_invariant(self);
        }
        match self.position(id) {
            None => {
                proof {
                    lemma_registry_absent(listing_of(self.subscribers@), id);
                }
                None
            },
            Some(at) => {
                proof {
                    lemma_registry_entry(listing_of(self.subscribers@), at as int);
                }
                let backlog = self.subscribers[at].backlog.len();
                let queued = self.subscribers[at].queue.len();
                let pending = if backlog <= usize::MAX - queued {
                    backlog + queued
                } else {
                    usize::MAX
                };
                Some((pending, self.subscribers[at].dropped))
            },
        }
    }

    /// The number of subscribers.
    pub fn subscriber_count(&self) -> (count: usize)
        ensures
            count == self@.dom().len(),
            self@.dom().finite(),
    {
        proof {
            use_type_invariant(self);
            lemma_registry_size(listing_of(self.subscribers@));
        }
        self.subscribers.len()
    }
}

/// Each listed subscriber is in the registry under its identifier.
pub proof fn lemma_registry_entry(subscribers: Seq<(u64, SubscriberView)>, at: int)
    requires
        distinct_ids(subscribers),
        0 <= at < subscribers.len(),
    ensures
        registry(subscribers).contains_key(subscribers[at].0),
        registry(subscribers)[subscribers[at].0] == subscribers[at].1,
{
}

/// An identifier that no listed subscriber has is not in the registry.
pub proof fn lemma_registry_absent(subscribers: Seq<(u64, SubscriberView)>, id: u64)
    requires
        forall|i: int| 0 <= i < subscribers.len() ==> (#[trigger] subscribers[i]).0 != id,
    ensures
        !registry(subscribers).contains_key(id),
{
}

/// Listing one more subscriber under a new identifier adds it to the
/// registry.
pub proof fn lemma_registry_push(
    subscribers: Seq<(u64, SubscriberView)>,
    id: u64,
    subscriber: SubscriberView,
)
    requires
        distinct_ids(subscribers.push((id, subscriber))),
    ensures
        registry(subscribers.push((id, subscriber))) == registry(subscribers).insert(
            id,
            subscriber,
        ),
{
    let longer = subscribers.push((id, subscriber));
    assert(distinct_ids(subscribers)) by {
        assert forall|a: int, b: int|
            0 <= a < subscribers.len() && 0 <= b < subscribers.len() && a
                != b implies #[trigger] subscribers[a].0 != #[trigger] subscribers[b].0 by {
            assert(longer[a].0 != longer[b].0);
        }
    }
    assert forall|other: u64| #[trigger]
        registry(longer).contains_key(other) == registry(subscribers).insert(
            id,
            subscriber,
        ).contains_key(other) by {
        if registry(subscribers).contains_key(other) {
            let i = choose|i: int|
                0 <= i < subscribers.len() && #[trigger] subscribers[i].0 == other;
            assert(longer[i].0 == other);
        }
        if other == id {
            assert(longer[longer.len() - 1].0 == other);
        }
    }
    assert forall|other: u64| #[trigger]
        registry(longer).contains_key(other) implies registry(longer)[other] == registry(
        subscribers,
    ).insert(id, subscriber)[other] by {
        let i = choose|i: int| 0 <= i < longer.len() && #[trigger] longer[i].0 == other;
        lemma_registry_entry(longer, i);
        if i < subscribers.len() {
            lemma_registry_entry(subscribers, i);
            assert(longer[i].0 != longer[longer.len() - 1].0);
        }
    }
}

/// Taking a subscriber off the list removes it from the registry.
pub proof fn lemma_registry_remove(subscribers: Seq<(u64, SubscriberView)>, at: int)
    requires
        distinct_ids(subscribers),
        0 <= at < subscribers.len(),
    ensures
        distinct_ids(subscribers.remove(at)),
        registry(subscribers.remove(at)) == registry(subscribers).remove(subscribers[at].0),
{
    let shorter = subscribers.remove(at);
    let id = subscribers[at].0;
    assert forall|other: u64| #[trigger]
        registry(shorter).contains_key(other) == registry(subscribers).remove(id).contains_key(
            other,
        ) by {
        if registry(subscribers).remove(id).contains_key(other) {
            let i = choose|i: int|
                0 <= i < subscribers.len() && #[trigger] subscribers[i].0 == other;
            let moved = if i < at {
                i
            } else {
                i - 1
            };
            assert(shorter[moved].0 == other);
        }
    }
    assert forall|other: u64| #[trigger]
        registry(shorter).contains_key(other) implies registry(shorter)[other] == registry(
        subscribers,
    ).remove(id)[other] by {
        let i = choose|i: int| 0 <= i < shorter.len() && #[trigger] shorter[i].0 == other;
        let from = if i < at {
            i
        } else {
            i + 1
        };
        lemma_registry_entry(shorter, i);
        lemma_registry_entry(subscribers, from);
    }
}

/// Changing what one listed subscriber has yet to receive changes its entry
/// in the registry, and no other.
pub proof fn lemma_registry_update(
    subscribers: Seq<(u64, SubscriberView)>,
    at: int,
    subscriber: SubscriberView,
)
    requires
        distinct_ids(subscribers),
        0 <= at < subscribers.len(),
    ensures
        distinct_ids(subscribers.update(at, (subscribers[at].0, subscriber))),
        registry(subscribers.update(at, (subscribers[at].0, subscriber))) == registry(
            subscribers,
        ).insert(subscribers[at].0, subscriber),
{
    let id = subscribers[at].0;
    let changed = subscribers.update(at, (id, subscriber));
    assert forall|other: u64| #[trigger]
        registry(changed).contains_key(other) == registry(subscribers).insert(
            id,
            subscriber,
        ).contains_key(other) by {
        if registry(subscribers).contains_key(other) {
            let i = choose|i: int|
                0 <= i < subscribers.len() && #[trigger] subscribers[i].0 == other;
            assert(changed[i].0 == other);
        }
    }
    assert forall|other: u64| #[trigger]
        registry(changed).contains_key(other) implies registry(changed)[other] == registry(
        subscribers,
    ).insert(id, subscriber)[other] by {
        let i = choose|i: int| 0 <= i < changed.len() && #[trigger] changed[i].0 == other;
        lemma_registry_entry(changed, i);
        lemma_registry_entry(subscribers, i);
    }
}

/// The list of subscribers after what each has yet to receive was changed
/// in the same way.
pub open spec fn each_changed(
    subscribers: Seq<(u64, SubscriberView)>,
    change: spec_fn(SubscriberView) -> SubscriberView,
) -> Seq<(u64, SubscriberView)> {
    Seq::new(subscribers.len(), |k: int| (subscribers[k].0, change(subscribers[k].1)))
}

/// Changing what every listed subscriber has yet to receive in the same way
/// changes every entry of the registry in that way.
pub proof fn lemma_registry_map_values(
    subscribers: Seq<(u64, SubscriberView)>,
    change: spec_fn(SubscriberView) -> SubscriberView,
)
    requires
        distinct_ids(subscribers),
    ensures
        distinct_ids(each_changed(subscribers, change)),
        registry(each_changed(subscribers, change)) == registry(subscribers).map_values(change),
{
    let changed = each_changed(subscribers, change);
    assert forall|other: u64| #[trigger]
        registry(changed).contains_key(other) == registry(subscribers).map_values(
            change,
        ).contains_key(other) by {
        if registry(subscribers).contains_key(other) {
            let i = choose|i: int|
                0 <= i < subscribers.len() && #[trigger] subscribers[i].0 == other;
            assert(changed[i].0 == other);
        }
    }
    assert forall|other: u64| #[trigger]
        registry(changed).contains_key(other) implies registry(changed)[other] == registry(
        subscribers,
    ).map_values(change)[other] by {
        let i = choose|i: int| 0 <= i < changed.len() && #[trigger] changed[i].0 == other;
        lemma_registry_entry(changed, i);
        lemma_registry_entry(subscribers, i);
    }
}

/// A registry without repeated identifiers has as many entries as
/// subscribers.
pub proof fn lemma_registry_size(subscribers: Seq<(u64, SubscriberView)>)
    requires
        distinct_ids(subscribers),
    ensures
        registry(subscribers).dom().finite(),
        registry(subscribers).dom().len() == subscribers.len(),
    decreases subscribers.len(),
{
    if subscribers.len() == 0 {
        assert(registry(subscribers).dom() =~= Set::empty());
    } else {
        let earlier = subscribers.drop_last();
        lemma_registry_size(earlier);
        let id = subscribers.last().0;
        assert(registry(subscribers).dom() =~= registry(earlier).dom().insert(id)) by {
            assert forall|other: u64| registry(subscribers).dom().contains(other) implies registry(
                earlier,
            ).dom().insert(id).contains(other) by {
                let i = choose|i: int|
                    0 <= i < subscribers.len() && #[trigger] subscribers[i].0 == other;
                if i < earlier.len() {
                    assert(earlier[i].0 == other);
                }
            }
        }
        assert(!registry(earlier).dom().contains(id));
    }
}

} // verus!
