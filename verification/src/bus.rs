//! Message bus: an ordered, at-least-once, per-key-ordered pub/sub
//! channel decoupling tick ingestion from consumption.
//!
//! Messages published under one key reach each subscriber of the topic
//! in publish order; across different keys nothing is promised. Every
//! subscriber has its own bounded queue; when it is full the bus either
//! refuses the publish (`Block`, the bounded-channel discipline: the
//! caller waits and retries) or drops that queue's oldest entry
//! (`DropOldest`) — an explicit configuration, never a silent choice.
//! Delivery is at-least-once from the pipeline's point of view, so
//! consumers must tolerate duplicate ticks; a duplicate carries the
//! same timestamp again, which the ordering here permits.
//!
//! Publishers hand every key's messages over in non-decreasing
//! timestamp order (the tick invariant of the data model); the bus then
//! guarantees that whatever each subscriber observes is, per key, in
//! non-decreasing timestamp order too — that is `lemma_per_key_ordering`.

use vstd::prelude::*;

use crate::tick::MarketTick;

verus! {

/// What the bus does when a subscriber's bounded queue is full.
#[derive(Clone, Copy, Debug, PartialEq, Eq, Structural)]
pub enum BackpressureMode {
    /// Refuse the publish; the publisher waits and retries. Nothing is
    /// delivered to anyone, so no subscriber ever sees a partial
    /// publish.
    Block,
    /// Drop the full queue's oldest entry to make room.
    DropOldest,
}

/// Why a bus call failed.
#[derive(Clone, Copy, Debug, PartialEq, Eq, Structural)]
pub enum BusError {
    /// The subscriber was disconnected. Fatal for that subscriber; the
    /// caller owns any reconnection logic.
    Disconnected,
    /// `Block` mode and some matching subscriber's queue is full; the
    /// publish changed nothing and may be retried.
    Backpressure,
}

/// One queued delivery: the partition key and the tick.
#[derive(Debug)]
pub struct BusEntry {
    pub key: String,
    pub tick: MarketTick,
}

/// One observed delivery, as the model records it.
pub ghost struct Delivered {
    pub key: Seq<char>,
    pub timestamp: u64,
}

/// Last delivered timestamp for one key of one subscriber.
#[derive(Debug)]
struct KeyTs {
    key: String,
    ts: u64,
}

/// Highest published timestamp for one key of one topic.
#[derive(Debug)]
struct TopicKeyTs {
    topic: String,
    key: String,
    ts: u64,
}

/// One subscriber: its topic, its bounded inbound queue, the last
/// delivered timestamp per key, and the (ghost) history of everything
/// it has observed.
struct Subscription {
    topic: String,
    connected: bool,
    queue: Vec<BusEntry>,
    seen: Vec<KeyTs>,
    hist: Ghost<Seq<Delivered>>,
}

/// No key named twice.
spec fn keyts_unique(s: Seq<KeyTs>) -> bool {
    forall|i: int, j: int| 0 <= i < j < s.len() ==> s[i].key@ != s[j].key@
}

/// No (topic, key) pair named twice.
spec fn topickeyts_unique(s: Seq<TopicKeyTs>) -> bool {
    forall|i: int, j: int|
        0 <= i < j < s.len() ==> !(s[i].topic@ == s[j].topic@ && s[i].key@ == s[j].key@)
}

/// The map a seen-table denotes.
spec fn seen_map(s: Seq<KeyTs>) -> Map<Seq<char>, u64>
    decreases s.len(),
{
    if s.len() == 0 {
        Map::empty()
    } else {
        seen_map(s.drop_last()).insert(s.last().key@, s.last().ts)
    }
}

/// The map a high-water table denotes.
spec fn hwm_map(s: Seq<TopicKeyTs>) -> Map<(Seq<char>, Seq<char>), u64>
    decreases s.len(),
{
    if s.len() == 0 {
        Map::empty()
    } else {
        hwm_map(s.drop_last()).insert((s.last().topic@, s.last().key@), s.last().ts)
    }
}

/// Timestamp below which nothing new may arrive for this key; zero
/// when the key was never seen.
pub open spec fn mark_of(m: Map<Seq<char>, u64>, key: Seq<char>) -> int {
    if m.contains_key(key) {
        m[key] as int
    } else {
        0
    }
}

/// Highest published timestamp for a (topic, key); zero when nothing
/// was ever published under it.
pub open spec fn hwm_of(m: Map<(Seq<char>, Seq<char>), u64>, topic: Seq<char>, key: Seq<char>) -> int {
    if m.contains_key((topic, key)) {
        m[(topic, key)] as int
    } else {
        0
    }
}

proof fn lemma_seen_map_absent(s: Seq<KeyTs>, key: Seq<char>)
    requires
        forall|i: int| 0 <= i < s.len() ==> s[i].key@ != key,
    ensures
        !seen_map(s).contains_key(key),
    decreases s.len(),
{
    if s.len() > 0 {
        lemma_seen_map_absent(s.drop_last(), key);
    }
}

proof fn lemma_seen_map_at(s: Seq<KeyTs>, i: int)
    requires
        keyts_unique(s),
        0 <= i < s.len(),
    ensures
        seen_map(s).contains_key(s[i].key@),
        seen_map(s)[s[i].key@] == s[i].ts,
    decreases s.len(),
{
    if i < s.len() - 1 {
        lemma_seen_map_at(s.drop_last(), i);
    }
}

proof fn lemma_seen_map_update(s: Seq<KeyTs>, i: int, e: KeyTs)
    requires
        keyts_unique(s),
        0 <= i < s.len(),
        e.key@ == s[i].key@,
    ensures
        seen_map(s.update(i, e)) =~= seen_map(s).insert(e.key@, e.ts),
    decreases s.len(),
{
    if i == s.len() - 1 {
        assert(s.update(i, e).drop_last() =~= s.drop_last());
    } else {
        lemma_seen_map_update(s.drop_last(), i, e);
        assert(s.update(i, e).drop_last() =~= s.drop_last().update(i, e));
    }
}

proof fn lemma_hwm_map_update(s: Seq<TopicKeyTs>, i: int, e: TopicKeyTs)
    requires
        topickeyts_unique(s),
        0 <= i < s.len(),
        e.topic@ == s[i].topic@,
        e.key@ == s[i].key@,
    ensures
        hwm_map(s.update(i, e)) =~= hwm_map(s).insert((e.topic@, e.key@), e.ts),
    decreases s.len(),
{
    if i == s.len() - 1 {
        assert(s.update(i, e).drop_last() =~= s.drop_last());
    } else {
        lemma_hwm_map_update(s.drop_last(), i, e);
        assert(s.update(i, e).drop_last() =~= s.drop_last().update(i, e));
    }
}

/// A sequence of deliveries carries, for each key, non-decreasing
/// timestamps.
pub open spec fn per_key_ordered(h: Seq<Delivered>) -> bool {
    forall|i: int, j: int|
        0 <= i < j < h.len() && h[i].key == h[j].key ==> h[i].timestamp <= h[j].timestamp
}

/// What one subscriber's queue becomes when an entry is delivered to
/// it: appended, after dropping the oldest entry if the queue was full.
/// (In `Block` mode a full queue refuses the whole publish instead, so
/// the drop happens only under `DropOldest`.)
pub open spec fn delivered_queue(q: Seq<BusEntry>, capacity: int, e: BusEntry) -> Seq<BusEntry> {
    if q.len() < capacity {
        q.push(e)
    } else {
        q.drop_first().push(e)
    }
}

/// Records that `key` was observed at `ts`: its mark is created or
/// overwritten, every other mark stays.
fn record_seen(seen: &mut Vec<KeyTs>, key: &String, ts: u64)
    requires
        keyts_unique(old(seen)@),
    ensures
        keyts_unique(final(seen)@),
        seen_map(final(seen)@) == seen_map(old(seen)@).insert(key@, ts),
{
    let n = seen.len();
    let mut j: usize = 0;
    while j < n
        invariant
            n == seen@.len(),
            j <= n,
            seen@ == old(seen)@,
            keyts_unique(seen@),
            forall|k: int| 0 <= k < j ==> seen@[k].key@ != key@,
        decreases n - j,
    {
        if seen[j].key == *key {
            proof {
                lemma_seen_map_at(seen@, j as int);
            }
            seen[j].ts = ts;
            proof {
                let e = KeyTs { key: old(seen)@[j as int].key, ts };
                assert(seen@ =~= old(seen)@.update(j as int, e));
                lemma_seen_map_update(old(seen)@, j as int, e);
            }
            return ;
        }
        j += 1;
    }
    proof {
        lemma_seen_map_absent(seen@, key@);
    }
    seen.push(KeyTs { key: key.clone(), ts });
    proof {
        assert(seen@.drop_last() =~= old(seen)@);
        assert(keyts_unique(seen@));
    }
}

/// Delivering one entry to a queue that satisfies the subscriber
/// invariant (against marks `seen` and high-water map `hw`) yields a
/// queue that satisfies it again, provided the entry's timestamp is the
/// current high-water mark of its key.
proof fn lemma_deliver_queue(
    q: Seq<BusEntry>,
    seen: Map<Seq<char>, u64>,
    hw: Map<(Seq<char>, Seq<char>), u64>,
    topic: Seq<char>,
    e: BusEntry,
    capacity: int,
)
    requires
        capacity >= 1,
        q.len() <= capacity,
        forall|a: int, b: int|
            0 <= a < b < q.len() && q[a].key@ == q[b].key@ ==> q[a].tick.timestamp
                <= q[b].tick.timestamp,
        forall|a: int| 0 <= a < q.len() ==> mark_of(seen, (#[trigger] q[a]).key@) <= q[a].tick.timestamp,
        forall|a: int|
            0 <= a < q.len() ==> (#[trigger] q[a]).tick.timestamp as int <= hwm_of(
                hw,
                topic,
                q[a].key@,
            ),
        forall|k: Seq<char>| #[trigger] mark_of(seen, k) <= hwm_of(hw, topic, k),
        e.tick.timestamp as int == hwm_of(hw, topic, e.key@),
    ensures
        ({
            let q2 = delivered_queue(q, capacity, e);
            &&& q2.len() <= capacity
            &&& forall|a: int, b: int|
                0 <= a < b < q2.len() && q2[a].key@ == q2[b].key@ ==> q2[a].tick.timestamp
                    <= q2[b].tick.timestamp
            &&& forall|a: int|
                0 <= a < q2.len() ==> mark_of(seen, (#[trigger] q2[a]).key@)
                    <= q2[a].tick.timestamp
            &&& forall|a: int|
                0 <= a < q2.len() ==> (#[trigger] q2[a]).tick.timestamp as int <= hwm_of(
                    hw,
                    topic,
                    q2[a].key@,
                )
        }),
{
    let q1: Seq<BusEntry> = if q.len() < capacity {
        q
    } else {
        q.drop_first()
    };
    let q2 = delivered_queue(q, capacity, e);
    let shift: int = if q.len() < capacity {
        0
    } else {
        1
    };
    assert(q2 =~= q1.push(e));
    assert(forall|a: int| 0 <= a < q1.len() ==> q1[a] == q[a + shift]);
    assert forall|a: int, b: int|
        0 <= a < b < q2.len() && q2[a].key@ == q2[b].key@ implies q2[a].tick.timestamp
            <= q2[b].tick.timestamp by {
        assert(q2[a] == q[a + shift]);
        if b < q2.len() - 1 {
            assert(q2[b] == q[b + shift]);
        } else {
            assert(q2[b] == e);
            assert(q[a + shift].tick.timestamp as int <= hwm_of(hw, topic, q[a + shift].key@));
        }
    }
    assert forall|a: int|
        0 <= a < q2.len() implies mark_of(seen, (#[trigger] q2[a]).key@)
            <= q2[a].tick.timestamp by {
        if a < q2.len() - 1 {
            assert(q2[a] == q[a + shift]);
        } else {
            assert(q2[a] == e);
            assert(mark_of(seen, e.key@) <= hwm_of(hw, topic, e.key@));
        }
    }
    assert forall|a: int|
        0 <= a < q2.len() implies (#[trigger] q2[a]).tick.timestamp as int <= hwm_of(
            hw,
            topic,
            q2[a].key@,
        ) by {
        if a < q2.len() - 1 {
            assert(q2[a] == q[a + shift]);
        } else {
            assert(q2[a] == e);
        }
    }
}

/// The pub/sub channel: a configured backpressure mode, one bounded
/// queue per subscriber, and per-(topic, key) publish high-water marks.
pub struct MessageBus {
    mode: BackpressureMode,
    capacity: usize,
    subs: Vec<Subscription>,
    hwm: Vec<TopicKeyTs>,
}

impl MessageBus {
    /// The configured backpressure mode.
    pub closed spec fn spec_mode(&self) -> BackpressureMode {
        self.mode
    }

    /// The configured per-subscriber queue bound.
    pub closed spec fn spec_capacity(&self) -> int {
        self.capacity as int
    }

    /// How many subscribers exist (connected or not).
    pub closed spec fn sub_count(&self) -> int {
        self.subs@.len() as int
    }

    /// The topic subscriber `s` reads.
    pub closed spec fn sub_topic(&self, s: int) -> Seq<char> {
        self.subs@[s].topic@
    }

    /// Is subscriber `s` still connected?
    pub closed spec fn sub_connected(&self, s: int) -> bool {
        self.subs@[s].connected
    }

    /// Subscriber `s`'s queued, not yet observed deliveries.
    pub closed spec fn queue_seq(&self, s: int) -> Seq<BusEntry> {
        self.subs@[s].queue@
    }

    /// Everything subscriber `s` has observed, oldest first.
    pub closed spec fn observed(&self, s: int) -> Seq<Delivered> {
        self.subs@[s].hist@
    }

    /// The last timestamp subscriber `s` observed for a key (zero
    /// before the first).
    pub closed spec fn seen_ts(&self, s: int, key: Seq<char>) -> int {
        mark_of(seen_map(self.subs@[s].seen@), key)
    }

    /// The highest timestamp published so far under a (topic, key).
    pub closed spec fn published_hwm(&self, topic: Seq<char>, key: Seq<char>) -> int {
        hwm_of(hwm_map(self.hwm@), topic, key)
    }

    /// Does subscriber `s` receive a publish on `topic`?
    pub open spec fn sub_matches(&self, s: int, topic: Seq<char>) -> bool {
        self.sub_topic(s) == topic && self.sub_connected(s)
    }

    /// One subscriber's internal invariant, against the bus-wide
    /// high-water marks.
    spec fn sub_wf(&self, s: int) -> bool {
        let sub = self.subs@[s];
        let q = sub.queue@;
        let seen = seen_map(sub.seen@);
        let h = sub.hist@;
        &&& q.len() <= self.capacity
        &&& keyts_unique(sub.seen@)
        &&& forall|i: int, j: int|
            0 <= i < j < q.len() && q[i].key@ == q[j].key@ ==> q[i].tick.timestamp
                <= q[j].tick.timestamp
        &&& forall|i: int|
            0 <= i < q.len() ==> mark_of(seen, (#[trigger] q[i]).key@) <= q[i].tick.timestamp
        &&& forall|i: int|
            0 <= i < q.len() ==> (#[trigger] q[i]).tick.timestamp as int <= hwm_of(
                hwm_map(self.hwm@),
                sub.topic@,
                q[i].key@,
            )
        &&& forall|k: Seq<char>| #[trigger]
            mark_of(seen, k) <= hwm_of(hwm_map(self.hwm@), sub.topic@, k)
        &&& per_key_ordered(h)
        &&& forall|i: int|
            0 <= i < h.len() ==> (#[trigger] h[i]).timestamp as int <= mark_of(seen, h[i].key)
    }

    /// The bus invariant: a positive bound, unique high-water entries,
    /// and every subscriber's invariant.
    pub closed spec fn wf(&self) -> bool {
        &&& self.capacity >= 1
        &&& topickeyts_unique(self.hwm@)
        &&& forall|s: int| 0 <= s < self.subs@.len() ==> self.sub_wf(s)
    }

    /// A bus with the given backpressure mode and per-subscriber queue
    /// bound, and no subscribers yet.
    pub fn new(mode: BackpressureMode, capacity: usize) -> (r: MessageBus)
        requires
            capacity >= 1,
        ensures
            r.wf(),
            r.spec_mode() == mode,
            r.spec_capacity() == capacity,
            r.sub_count() == 0,
    {
        MessageBus { mode, capacity, subs: Vec::new(), hwm: Vec::new() }
    }

    /// Registers a subscriber for a topic and returns its handle. The
    /// stream it will observe is infinite and not restartable: there is
    /// no way to rewind `observed`.
    pub fn subscribe(&mut self, topic: &String) -> (s: usize)
        requires
            old(self).wf(),
        ensures
            final(self).wf(),
            s == old(self).sub_count(),
            final(self).sub_count() == old(self).sub_count() + 1,
            final(self).sub_topic(s as int) == topic@,
            final(self).sub_connected(s as int),
            final(self).queue_seq(s as int) == Seq::<BusEntry>::empty(),
            final(self).observed(s as int) == Seq::<Delivered>::empty(),
            final(self).spec_mode() == old(self).spec_mode(),
            final(self).spec_capacity() == old(self).spec_capacity(),
            forall|t: int|
                0 <= t < old(self).sub_count() ==> final(self).sub_topic(t) == old(self).sub_topic(t) && final(self).sub_connected(t) == old(self).sub_connected(t)
                    && final(self).queue_seq(t) == old(self).queue_seq(t) && final(self).observed(
                    t,
                ) == old(self).observed(t),
            forall|t: Seq<char>, k: Seq<char>|
                final(self).published_hwm(t, k) == old(self).published_hwm(t, k),
    {
        let s = self.subs.len();
        let sub = Subscription {
            topic: topic.clone(),
            connected: true,
            queue: Vec::new(),
            seen: Vec::new(),
            hist: Ghost(Seq::empty()),
        };
        self.subs.push(sub);
        proof {
            assert(final(self).queue_seq(s as int) =~= Seq::<BusEntry>::empty());
            assert(final(self).observed(s as int) =~= Seq::<Delivered>::empty());
            assert forall|t: int| 0 <= t < final(self).subs@.len() implies final(self).sub_wf(
                t,
            ) by {
                if t < s {
                    assert(old(self).sub_wf(t));
                }
            }
        }
        s
    }

    /// Index of the high-water entry for a (topic, key), if any.
    fn find_hwm(&self, topic: &String, key: &String) -> (r: Option<usize>)
        ensures
            match r {
                Some(i) => i < self.hwm@.len() && self.hwm@[i as int].topic@ == topic@
                    && self.hwm@[i as int].key@ == key@,
                None => forall|i: int|
                    0 <= i < self.hwm@.len() ==> !(self.hwm@[i].topic@ == topic@
                        && self.hwm@[i].key@ == key@),
            },
    {
        let n = self.hwm.len();
        let mut j: usize = 0;
        while j < n
            invariant
                n == self.hwm@.len(),
                j <= n,
                forall|k: int|
                    0 <= k < j ==> !(self.hwm@[k].topic@ == topic@ && self.hwm@[k].key@ == key@),
            decreases n - j,
        {
            if self.hwm[j].topic == *topic && self.hwm[j].key == *key {
                return Some(j);
            }
            j += 1;
        }
        None
    }

    /// Raises the high-water mark of one (topic, key). Touches nothing
    /// else.
    fn bump_hwm(&mut self, topic: &String, key: &String, ts: u64)
        requires
            topickeyts_unique(old(self).hwm@),
            ts as int >= hwm_of(hwm_map(old(self).hwm@), topic@, key@),
        ensures
            final(self).subs == old(self).subs,
            final(self).mode == old(self).mode,
            final(self).capacity == old(self).capacity,
            topickeyts_unique(final(self).hwm@),
            hwm_map(final(self).hwm@) == hwm_map(old(self).hwm@).insert(
                (topic@, key@),
                ts,
            ),
    {
        let idx = self.find_hwm(topic, key);
        match idx {
            Some(i) => {
                self.hwm[i].ts = ts;
                proof {
                    let e = TopicKeyTs {
                        topic: old(self).hwm@[i as int].topic,
                        key: old(self).hwm@[i as int].key,
                        ts,
                    };
                    assert(self.hwm@ =~= old(self).hwm@.update(i as int, e));
                    lemma_hwm_map_update(old(self).hwm@, i as int, e);
                }
            },
            None => {
                self.hwm.push(TopicKeyTs { topic: topic.clone(), key: key.clone(), ts });
                proof {
                    assert(self.hwm@.drop_last() =~= old(self).hwm@);
                    assert(topickeyts_unique(self.hwm@));
                }
            },
        }
    }

    /// Index of some matching subscriber whose queue is full, if any.
    fn find_full_matching(&self, topic: &String) -> (r: Option<usize>)
        ensures
            match r {
                Some(i) => 0 <= i < self.sub_count() && self.sub_matches(i as int, topic@)
                    && self.queue_seq(i as int).len() == self.spec_capacity(),
                None => forall|t: int|
                    0 <= t < self.sub_count() && self.sub_matches(t, topic@) ==> self.queue_seq(
                        t,
                    ).len() != self.spec_capacity(),
            },
    {
        let n = self.subs.len();
        let mut j: usize = 0;
        while j < n
            invariant
                n == self.subs@.len(),
                j <= n,
                forall|t: int|
                    0 <= t < j && self.sub_matches(t, topic@) ==> self.queue_seq(t).len()
                        != self.spec_capacity(),
            decreases n - j,
        {
            if self.subs[j].connected && self.subs[j].topic == *topic && self.subs[j].queue.len()
                == self.capacity {
                return Some(j);
            }
            j += 1;
        }
        None
    }

    /// Publishes one tick under a key. Every connected subscriber of
    /// the topic receives it at the back of its queue — after dropping
    /// that queue's oldest entry if it was full and the mode says so.
    /// In `Block` mode a full matching queue refuses the whole publish
    /// instead (`Backpressure`), leaving every queue untouched, so no
    /// subscriber ever observes a partial publish.
    ///
    /// Publishers hand each key's ticks over in non-decreasing
    /// timestamp order; that is this function's precondition and the
    /// data model's per-symbol tick invariant.
    pub fn publish(&mut self, topic: &String, key: &String, tick: MarketTick) -> (r: Result<
        (),
        BusError,
    >)
        requires
            old(self).wf(),
            tick.timestamp as int >= old(self).published_hwm(topic@, key@),
        ensures
            final(self).wf(),
            final(self).spec_mode() == old(self).spec_mode(),
            final(self).spec_capacity() == old(self).spec_capacity(),
            final(self).sub_count() == old(self).sub_count(),
            forall|t: int|
                0 <= t < old(self).sub_count() ==> final(self).sub_topic(t) == old(self).sub_topic(t) && final(self).sub_connected(t) == old(self).sub_connected(t)
                    && final(self).observed(t) == old(self).observed(t),
            forall|t: int, k: Seq<char>|
                0 <= t < old(self).sub_count() ==> final(self).seen_ts(t, k) == old(self).seen_ts(
                    t,
                    k,
                ),
            (r is Ok) == !(old(self).spec_mode() == BackpressureMode::Block && exists|t: int|
                0 <= t < old(self).sub_count() && old(self).sub_matches(t, topic@)
                    && old(self).queue_seq(t).len() == old(self).spec_capacity()),
            r is Ok ==> {
                &&& final(self).published_hwm(topic@, key@) == tick.timestamp
                &&& forall|t2: Seq<char>, k2: Seq<char>|
                    !(t2 == topic@ && k2 == key@) ==> final(self).published_hwm(t2, k2) == old(self).published_hwm(t2, k2)
                &&& forall|t: int|
                    0 <= t < old(self).sub_count() && old(self).sub_matches(t, topic@) ==> final(self).queue_seq(t) == delivered_queue(
                        old(self).queue_seq(t),
                        old(self).spec_capacity(),
                        BusEntry { key: *key, tick: tick },
                    )
                &&& forall|t: int|
                    0 <= t < old(self).sub_count() && !old(self).sub_matches(t, topic@) ==> final(self).queue_seq(t) == old(self).queue_seq(t)
            },
            r is Err ==> *final(self) == *old(self) && r == Result::<(), BusError>::Err(
                BusError::Backpressure,
            ),
    {
        if self.mode == BackpressureMode::Block {
            if let Some(_full) = self.find_full_matching(topic) {
                return Err(BusError::Backpressure);
            }
        }
        let ghost old_hwm = hwm_map(self.hwm@);
        self.bump_hwm(topic, key, tick.timestamp);
        let ghost new_hwm = hwm_map(self.hwm@);
        proof {
            assert forall|t2: Seq<char>, k2: Seq<char>|
                hwm_of(new_hwm, t2, k2) >= hwm_of(old_hwm, t2, k2) by {
                if t2 == topic@ && k2 == key@ {
                } else {
                    assert(((t2, k2) == (topic@, key@)) == (t2 == topic@ && k2 == key@));
                }
            }
            assert forall|t: int| 0 <= t < self.subs@.len() implies self.sub_wf(t) by {
                assert(old(self).sub_wf(t));
                let sub = self.subs@[t];
                assert forall|i: int|
                    0 <= i < sub.queue@.len() implies (#[trigger] sub.queue@[i]).tick.timestamp
                        as int <= hwm_of(new_hwm, sub.topic@, sub.queue@[i].key@) by {
                    assert(sub.queue@[i].tick.timestamp as int <= hwm_of(
                        old_hwm,
                        sub.topic@,
                        sub.queue@[i].key@,
                    ));
                }
                assert forall|k: Seq<char>| #[trigger]
                    mark_of(seen_map(sub.seen@), k) <= hwm_of(new_hwm, sub.topic@, k) by {
                    assert(mark_of(seen_map(sub.seen@), k) <= hwm_of(old_hwm, sub.topic@, k));
                }
            }
        }
        let n = self.subs.len();
        let ghost mid = *self;
        let mut i: usize = 0;
        while i < n
            invariant
                n == self.subs@.len(),
                i <= n,
                self.mode == mid.mode,
                self.capacity == mid.capacity,
                self.hwm == mid.hwm,
                self.capacity >= 1,
                topickeyts_unique(self.hwm@),
                hwm_map(self.hwm@) == old_hwm.insert((topic@, key@), tick.timestamp),
                forall|t: int| 0 <= t < n ==> self.sub_wf(t),
                forall|t: int| i <= t < n ==> self.subs@[t] == mid.subs@[t],
                forall|t: int|
                    0 <= t < i ==> (#[trigger] self.subs@[t]).topic == mid.subs@[t].topic
                        && self.subs@[t].connected == mid.subs@[t].connected && self.subs@[t].seen
                        == mid.subs@[t].seen && self.subs@[t].hist == mid.subs@[t].hist,
                forall|t: int|
                    0 <= t < i && mid.sub_matches(t, topic@) ==> (#[trigger] self.subs@[t]).queue@
                        == delivered_queue(
                        mid.subs@[t].queue@,
                        mid.capacity as int,
                        BusEntry { key: *key, tick: tick },
                    ),
                forall|t: int|
                    0 <= t < i && !mid.sub_matches(t, topic@) ==> (#[trigger] self.subs@[t]).queue
                        == mid.subs@[t].queue,
            decreases n - i,
        {
            let ghost self0 = *self;
            let ghost before = self.subs@[i as int];
            if self.subs[i].connected && self.subs[i].topic == *topic {
                let ghost e = BusEntry { key: *key, tick: tick };
                proof {
                    assert(self0.sub_wf(i as int));
                    assert(before.topic@ == topic@);
                    assert(hwm_of(hwm_map(self.hwm@), topic@, e.key@) == tick.timestamp);
                    lemma_deliver_queue(
                        before.queue@,
                        seen_map(before.seen@),
                        hwm_map(self.hwm@),
                        topic@,
                        e,
                        mid.capacity as int,
                    );
                }
                if self.subs[i].queue.len() == self.capacity {
                    let _dropped = self.subs[i].queue.remove(0);
                    proof {
                        assert(self.subs@[i as int].queue@ =~= before.queue@.drop_first());
                    }
                }
                let ghost qmid = self.subs@[i as int].queue@;
                self.subs[i].queue.push(BusEntry { key: key.clone(), tick: tick.duplicate() });
                proof {
                    let sub = self.subs@[i as int];
                    assert(sub.queue@ =~= qmid.push(e));
                    assert(sub.queue@ == delivered_queue(before.queue@, mid.capacity as int, e));
                    assert(sub.topic == before.topic && sub.connected == before.connected
                        && sub.seen == before.seen && sub.hist == before.hist);
                    assert(self.sub_wf(i as int));
                    assert forall|t: int| 0 <= t < n implies self.sub_wf(t) by {
                        if t != i as int {
                            assert(self.subs@[t] == self0.subs@[t]);
                            assert(self0.sub_wf(t));
                        }
                    }
                }
            }
            i += 1;
        }
        proof {
            assert forall|t2: Seq<char>, k2: Seq<char>|
                !(t2 == topic@ && k2 == key@) implies hwm_of(hwm_map(self.hwm@), t2, k2) == hwm_of(
                old_hwm,
                t2,
                k2,
            ) by {
                assert(((t2, k2) == (topic@, key@)) == (t2 == topic@ && k2 == key@));
            }
        }
        Ok(())
    }

    /// Pulls the oldest queued delivery for subscriber `s`. `Ok(None)`
    /// means no tick has arrived yet — the stream is still open;
    /// `Err(Disconnected)` says this subscriber's stream is over, for
    /// the caller's reconnection logic to handle. Every delivered tick
    /// carries a timestamp at least as large as the last one this
    /// subscriber observed for the same key.
    pub fn poll(&mut self, s: usize) -> (r: Result<Option<MarketTick>, BusError>)
        requires
            old(self).wf(),
            s < old(self).sub_count(),
        ensures
            final(self).wf(),
            final(self).sub_count() == old(self).sub_count(),
            final(self).spec_mode() == old(self).spec_mode(),
            final(self).spec_capacity() == old(self).spec_capacity(),
            forall|t2: Seq<char>, k2: Seq<char>|
                final(self).published_hwm(t2, k2) == old(self).published_hwm(t2, k2),
            forall|t: int|
                0 <= t < old(self).sub_count() && t != s ==> final(self).sub_topic(t) == old(
                    self,
                ).sub_topic(t) && final(self).sub_connected(t) == old(self).sub_connected(t)
                    && final(self).queue_seq(t) == old(self).queue_seq(t) && final(self).observed(
                    t,
                ) == old(self).observed(t),
            final(self).sub_topic(s as int) == old(self).sub_topic(s as int),
            final(self).sub_connected(s as int) == old(self).sub_connected(s as int),
            match r {
                Err(e) => e == BusError::Disconnected && !old(self).sub_connected(s as int)
                    && *final(self) == *old(self),
                Ok(None) => old(self).sub_connected(s as int) && old(self).queue_seq(
                    s as int,
                ).len() == 0 && *final(self) == *old(self),
                Ok(Some(t)) => {
                    let e = old(self).queue_seq(s as int)[0];
                    &&& old(self).sub_connected(s as int)
                    &&& old(self).queue_seq(s as int).len() > 0
                    &&& t == e.tick
                    &&& final(self).queue_seq(s as int) == old(self).queue_seq(
                        s as int,
                    ).drop_first()
                    &&& final(self).observed(s as int) == old(self).observed(s as int).push(
                        Delivered { key: e.key@, timestamp: e.tick.timestamp },
                    )
                    &&& t.timestamp >= old(self).seen_ts(s as int, e.key@)
                    &&& final(self).seen_ts(s as int, e.key@) == t.timestamp
                    &&& forall|k: Seq<char>|
                        k != e.key@ ==> final(self).seen_ts(s as int, k) == old(self).seen_ts(
                            s as int,
                            k,
                        )
                },
            },
    {
        if !self.subs[s].connected {
            return Err(BusError::Disconnected);
        }
        if self.subs[s].queue.len() == 0 {
            return Ok(None);
        }
        let ghost self0 = *self;
        proof {
            assert(self0.sub_wf(s as int));
        }
        let entry = self.subs[s].queue.remove(0);
        proof {
            assert(self.subs@[s as int].queue@ =~= self0.subs@[s as int].queue@.drop_first());
        }
        record_seen(&mut self.subs[s].seen, &entry.key, entry.tick.timestamp);
        let ghost hist0 = self.subs@[s as int].hist@;
        let ghost delivered = Delivered { key: entry.key@, timestamp: entry.tick.timestamp };
        self.subs[s].hist = Ghost(hist0.push(delivered));
        proof {
            let sub0 = self0.subs@[s as int];
            let q0 = sub0.queue@;
            let e0 = q0[0];
            let sub = self.subs@[s as int];
            let q = sub.queue@;
            let seen0 = seen_map(sub0.seen@);
            let seen1 = seen_map(sub.seen@);
            assert(seen1 == seen0.insert(e0.key@, e0.tick.timestamp));
            assert(forall|a: int| 0 <= a < q.len() ==> q[a] == q0[a + 1]);
            assert(e0.tick.timestamp as int <= hwm_of(hwm_map(self.hwm@), sub0.topic@, e0.key@));
            assert forall|a: int|
                0 <= a < q.len() implies mark_of(seen1, (#[trigger] q[a]).key@)
                    <= q[a].tick.timestamp by {
                if q[a].key@ == e0.key@ {
                    assert(q0[0].tick.timestamp <= q0[a + 1].tick.timestamp);
                } else {
                    assert(mark_of(seen1, q[a].key@) == mark_of(seen0, q[a].key@));
                }
            }
            assert forall|k: Seq<char>| #[trigger]
                mark_of(seen1, k) <= hwm_of(hwm_map(self.hwm@), sub.topic@, k) by {
                if k != e0.key@ {
                    assert(mark_of(seen1, k) == mark_of(seen0, k));
                }
            }
            let h = sub.hist@;
            assert(h =~= hist0.push(delivered));
            assert forall|a: int, b: int|
                0 <= a < b < h.len() && h[a].key == h[b].key implies h[a].timestamp
                    <= h[b].timestamp by {
                if b == h.len() - 1 {
                    assert(h[a].timestamp as int <= mark_of(seen0, h[a].key));
                }
            }
            assert forall|a: int|
                0 <= a < h.len() implies (#[trigger] h[a]).timestamp as int <= mark_of(
                    seen1,
                    h[a].key,
                ) by {
                if a < h.len() - 1 {
                    if h[a].key == e0.key@ {
                        assert(h[a].timestamp as int <= mark_of(seen0, e0.key@));
                        assert(mark_of(seen0, e0.key@) <= e0.tick.timestamp as int);
                    } else {
                        assert(mark_of(seen1, h[a].key) == mark_of(seen0, h[a].key));
                    }
                }
            }
            assert(self.sub_wf(s as int));
            assert forall|t: int| 0 <= t < self.subs@.len() implies self.sub_wf(t) by {
                if t != s as int {
                    assert(self.subs@[t] == self0.subs@[t]);
                    assert(self0.sub_wf(t));
                }
            }
        }
        Ok(Some(entry.tick))
    }

    /// Disconnects a subscriber: it receives nothing further, and its
    /// next poll reports `Disconnected` so the caller can run its
    /// reconnection logic.
    pub fn disconnect(&mut self, s: usize)
        requires
            old(self).wf(),
            s < old(self).sub_count(),
        ensures
            final(self).wf(),
            final(self).sub_count() == old(self).sub_count(),
            !final(self).sub_connected(s as int),
            final(self).sub_topic(s as int) == old(self).sub_topic(s as int),
            final(self).queue_seq(s as int) == old(self).queue_seq(s as int),
            final(self).observed(s as int) == old(self).observed(s as int),
            final(self).spec_mode() == old(self).spec_mode(),
            final(self).spec_capacity() == old(self).spec_capacity(),
            forall|t: int|
                0 <= t < old(self).sub_count() && t != s ==> final(self).sub_topic(t) == old(self).sub_topic(t) && final(self).sub_connected(t) == old(self).sub_connected(t)
                    && final(self).queue_seq(t) == old(self).queue_seq(t) && final(self).observed(
                    t,
                ) == old(self).observed(t),
            forall|t: Seq<char>, k: Seq<char>|
                final(self).published_hwm(t, k) == old(self).published_hwm(t, k),
    {
        self.subs[s].connected = false;
        proof {
            assert forall|t: int| 0 <= t < self.subs@.len() implies self.sub_wf(t) by {
                assert(old(self).sub_wf(t));
            }
        }
    }

    /// Per-key ordering: whatever a subscriber has observed appears,
    /// for any one key, in non-decreasing timestamp order — however
    /// publishers of different keys interleaved their publishes, and
    /// whether or not entries were dropped under backpressure. (Each
    /// key's publishes themselves arrive in non-decreasing timestamp
    /// order; that is `publish`'s precondition.)
    pub proof fn lemma_per_key_ordering(&self, s: int)
        requires
            self.wf(),
            0 <= s < self.sub_count(),
        ensures
            per_key_ordered(self.observed(s)),
    {
        assert(self.sub_wf(s));
    }
}

} // verus!
