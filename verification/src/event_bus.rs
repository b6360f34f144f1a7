use vstd::prelude::*;

verus! {

/// One broadcast event: a routing key, the emitting component's name, an
/// opaque payload and a wall-clock timestamp. Immutable; cloned to each
/// subscriber.
#[derive(Debug)]
pub struct Event {
    pub event_type: String,
    pub source: String,
    pub payload: Vec<u8>,
    pub timestamp: i64,
}

/// The mathematical image of an `Event`.
pub ghost struct EventView {
    pub event_type: Seq<char>,
    pub source: Seq<char>,
    pub payload: Seq<u8>,
    pub timestamp: i64,
}

impl View for Event {
    type V = EventView;

    open spec fn view(&self) -> EventView {
        EventView {
            event_type: self.event_type@,
            source: self.source@,
            payload: self.payload@,
            timestamp: self.timestamp,
        }
    }
}

impl Clone for Event {
    fn clone(&self) -> (r: Self)
        ensures
            r@ == self@,
    {
        Event {
            event_type: self.event_type.clone(),
            source: self.source.clone(),
            payload: self.payload.clone(),
            timestamp: self.timestamp,
        }
    }
}

/// What a bounded subscriber queue becomes when one more event arrives:
/// the event is appended, and if the queue is already at capacity the
/// oldest unread event is dropped first (lagging-receiver semantics), so
/// a slow subscriber never blocks a publisher.
pub open spec fn lag_push(q: Seq<EventView>, e: EventView, cap: nat) -> Seq<EventView> {
    if q.len() < cap {
        q.push(e)
    } else {
        q.drop_first().push(e)
    }
}

struct Topic {
    name: String,
    receivers: Vec<Vec<Event>>,
}

/// Topic-keyed publish/subscribe fan-out. A topic channel is created
/// lazily on first subscribe; each subscriber gets an independent
/// bounded queue and a receiver handle (an index that stays valid for
/// the life of the bus). There is no replay: a subscriber only receives
/// events published after it subscribed. Publishing to a topic nobody
/// ever subscribed to is a silent no-op.
pub struct EventBus {
    topics: Vec<Topic>,
    capacity: usize,
}

impl EventBus {
    /// Topic names are pairwise distinct and every queue is bounded.
    pub closed spec fn wf(self) -> bool {
        &&& forall|i: int, j: int|
            0 <= i < self.topics@.len() && 0 <= j < self.topics@.len() && i != j
                ==> #[trigger] self.topics@[i].name@ != #[trigger] self.topics@[j].name@
        &&& forall|i: int, r: int|
            0 <= i < self.topics@.len() && 0 <= r < (#[trigger] self.topics@[i]).receivers@.len()
                ==> #[trigger] self.topics@[i].receivers@[r]@.len() <= self.capacity
        &&& self.capacity >= 1
    }

    /// The capacity every subscriber queue is bounded by.
    pub closed spec fn cap(self) -> nat {
        self.capacity as nat
    }

    /// Whether a channel for topic `t` exists.
    pub closed spec fn has_topic(self, t: Seq<char>) -> bool {
        exists|i: int| 0 <= i < self.topics@.len() && (#[trigger] self.topics@[i]).name@ == t
    }

    spec fn idx_of(self, t: Seq<char>) -> int {
        choose|i: int| 0 <= i < self.topics@.len() && (#[trigger] self.topics@[i]).name@ == t
    }

    /// How many subscribers topic `t` has ever had.
    pub closed spec fn receiver_count(self, t: Seq<char>) -> nat {
        if self.has_topic(t) {
            self.topics@[self.idx_of(t)].receivers@.len()
        } else {
            0
        }
    }

    /// The unread events of receiver `rid` on topic `t`, oldest first.
    pub closed spec fn receiver_queue(self, t: Seq<char>, rid: int) -> Seq<EventView> {
        if self.has_topic(t) && 0 <= rid < self.receiver_count(t) {
            self.topics@[self.idx_of(t)].receivers@[rid]@.map_values(|e: Event| e@)
        } else {
            Seq::empty()
        }
    }

    /// The names of all topics with a channel, in creation order.
    pub closed spec fn topic_names(self) -> Seq<Seq<char>> {
        self.topics@.map_values(|t: Topic| t.name@)
    }

    proof fn lemma_at(self, i: int)
        requires
            self.wf(),
            0 <= i < self.topics@.len(),
        ensures
            self.has_topic(self.topics@[i].name@),
            self.idx_of(self.topics@[i].name@) == i,
    {
        let t = self.topics@[i].name@;
        assert(self.has_topic(t));
        let j = self.idx_of(t);
        assert(0 <= j < self.topics@.len() && self.topics@[j].name@ == t);
        assert(j == i);
    }

    /// A bus with no topics, whose subscriber queues will be bounded by
    /// `capacity`.
    pub fn new(capacity: usize) -> (r: EventBus)
        requires
            capacity >= 1,
        ensures
            r.wf(),
            r.cap() == capacity,
            forall|t: Seq<char>| !r.has_topic(t),
            r.topic_names() == Seq::<Seq<char>>::empty(),
    {
        let r = EventBus { topics: Vec::new(), capacity };
        proof {
            assert(r.topic_names() =~= Seq::<Seq<char>>::empty());
        }
        r
    }

    fn find_topic(&self, name: &String) -> (r: Option<usize>)
        ensures
            match r {
                Some(i) => i < self.topics@.len() && self.topics@[i as int].name@ == name@,
                None => forall|i: int|
                    0 <= i < self.topics@.len() ==> (#[trigger] self.topics@[i]).name@ != name@,
            },
    {
        let mut i: usize = 0;
        while i < self.topics.len()
            invariant
                i <= self.topics@.len(),
                forall|j: int| 0 <= j < i ==> (#[trigger] self.topics@[j]).name@ != name@,
            decreases self.topics@.len() - i,
        {
            if self.topics[i].name == *name {
                return Some(i);
            }
            i = i + 1;
        }
        None
    }

    /// Subscribe to events of topic `event_type`, creating the channel
    /// if it does not exist yet. Returns a fresh receiver handle whose
    /// queue starts empty: a subscriber never sees an event published
    /// before it subscribed. No other topic or receiver is affected.
    pub fn subscribe(&mut self, event_type: String) -> (rid: usize)
        requires
            old(self).wf(),
        ensures
            final(self).wf(),
            final(self).cap() == old(self).cap(),
            final(self).has_topic(event_type@),
            rid == old(self).receiver_count(event_type@),
            final(self).receiver_count(event_type@) == rid + 1,
            final(self).receiver_queue(event_type@, rid as int) == Seq::<EventView>::empty(),
            forall|r2: int|
                0 <= r2 < rid ==> #[trigger] final(self).receiver_queue(event_type@, r2) == old(
                    self,
                ).receiver_queue(event_type@, r2),
            forall|t2: Seq<char>|
                t2 != event_type@ ==> #[trigger] final(self).has_topic(t2) == old(self).has_topic(
                    t2,
                ),
            forall|t2: Seq<char>|
                t2 != event_type@ ==> #[trigger] final(self).receiver_count(t2) == old(
                    self,
                ).receiver_count(t2),
            forall|t2: Seq<char>, r2: int|
                t2 != event_type@ ==> #[trigger] final(self).receiver_queue(t2, r2) == old(
                    self,
                ).receiver_queue(t2, r2),
            final(self).topic_names() == if old(self).has_topic(event_type@) {
                old(self).topic_names()
            } else {
                old(self).topic_names().push(event_type@)
            },
            final(self).topic_names().contains(event_type@),
    {
        let found = self.find_topic(&event_type);
        match found {
            Some(i) => {
                proof {
                    self.lemma_at(i as int);
                }
                let topic = &mut self.topics[i];
                let rid = topic.receivers.len();
                topic.receivers.push(Vec::new());
                proof {
                    assert(self.topics@ =~= old(self).topics@.update(
                        i as int,
                        self.topics@[i as int],
                    ));
                    assert(self.topics@[i as int].name@ == event_type@);
                    old(self).lemma_at(i as int);
                    self.lemma_at(i as int);
                    assert(self.receiver_queue(event_type@, rid as int) =~= Seq::<
                        EventView,
                    >::empty());
                    assert forall|r2: int| 0 <= r2 < rid implies #[trigger] self.receiver_queue(
                        event_type@,
                        r2,
                    ) == old(self).receiver_queue(event_type@, r2) by {
                        assert(self.topics@[i as int].receivers@[r2]
                            == old(self).topics@[i as int].receivers@[r2]);
                    }
                    self.lemma_frame(*old(self), i as int);
                    assert(self.topic_names() =~= old(self).topic_names());
                    assert(self.topic_names()[i as int] == event_type@);
                    assert(self.topic_names().contains(event_type@));
                }
                rid
            },
            None => {
                let mut receivers: Vec<Vec<Event>> = Vec::new();
                receivers.push(Vec::new());
                self.topics.push(Topic { name: event_type, receivers });
                let ghost et = old(self).topics@.len() as int;
                proof {
                    let n = old(self).topics@.len() as int;
                    assert(self.topics@ =~= old(self).topics@.push(self.topics@[n]));
                    self.lemma_at(n);
                    let t = self.topics@[n].name@;
                    if old(self).has_topic(t) {
                        let j = old(self).idx_of(t);
                        assert(self.topics@[j].name@ == t);
                        assert(false);
                    }
                    assert(old(self).receiver_count(t) == 0);
                    assert(self.receiver_queue(t, 0) =~= Seq::<EventView>::empty());
                    self.lemma_frame_push(*old(self), n);
                    assert(self.topic_names() =~= old(self).topic_names().push(t));
                    assert(self.topic_names()[n] == t);
                    assert(self.topic_names().contains(t));
                }
                0
            },
        }
    }

    proof fn lemma_frame(self, pre: EventBus, i: int)
        requires
            pre.wf(),
            self.wf(),
            0 <= i < pre.topics@.len(),
            self.topics@.len() == pre.topics@.len(),
            forall|j: int|
                0 <= j < pre.topics@.len() && j != i ==> #[trigger] self.topics@[j]
                    == pre.topics@[j],
            forall|j: int|
                0 <= j < pre.topics@.len() ==> (#[trigger] self.topics@[j]).name@
                    == pre.topics@[j].name@,
        ensures
            forall|t2: Seq<char>|
                t2 != pre.topics@[i].name@ ==> #[trigger] self.has_topic(t2) == pre.has_topic(t2),
            forall|t2: Seq<char>|
                t2 != pre.topics@[i].name@ ==> #[trigger] self.receiver_count(t2)
                    == pre.receiver_count(t2),
            forall|t2: Seq<char>, r2: int|
                t2 != pre.topics@[i].name@ ==> #[trigger] self.receiver_queue(t2, r2)
                    == pre.receiver_queue(t2, r2),
    {
        let tn = pre.topics@[i].name@;
        assert forall|t2: Seq<char>| t2 != tn implies #[trigger] self.has_topic(t2)
            == pre.has_topic(t2) by {
            if pre.has_topic(t2) {
                let j = pre.idx_of(t2);
                assert(self.topics@[j].name@ == t2);
            }
            if self.has_topic(t2) {
                let j = self.idx_of(t2);
                assert(pre.topics@[j].name@ == t2);
            }
        }
        assert forall|t2: Seq<char>| t2 != tn implies #[trigger] self.receiver_count(t2)
            == pre.receiver_count(t2) by {
            if pre.has_topic(t2) {
                let j = pre.idx_of(t2);
                assert(j != i);
                pre.lemma_at(j);
                self.lemma_at(j);
            }
        }
        assert forall|t2: Seq<char>, r2: int| t2 != tn implies #[trigger] self.receiver_queue(
            t2,
            r2,
        ) == pre.receiver_queue(t2, r2) by {
            if pre.has_topic(t2) {
                let j = pre.idx_of(t2);
                assert(j != i);
                pre.lemma_at(j);
                self.lemma_at(j);
            }
        }
    }

    proof fn lemma_frame_push(self, pre: EventBus, n: int)
        requires
            pre.wf(),
            self.wf(),
            n == pre.topics@.len(),
            self.topics@.len() == n + 1,
            forall|j: int| 0 <= j < n ==> #[trigger] self.topics@[j] == pre.topics@[j],
        ensures
            forall|t2: Seq<char>|
                t2 != self.topics@[n].name@ ==> #[trigger] self.has_topic(t2) == pre.has_topic(t2),
            forall|t2: Seq<char>|
                t2 != self.topics@[n].name@ ==> #[trigger] self.receiver_count(t2)
                    == pre.receiver_count(t2),
            forall|t2: Seq<char>, r2: int|
                t2 != self.topics@[n].name@ ==> #[trigger] self.receiver_queue(t2, r2)
                    == pre.receiver_queue(t2, r2),
    {
        let tn = self.topics@[n].name@;
        assert forall|t2: Seq<char>| t2 != tn implies #[trigger] self.has_topic(t2)
            == pre.has_topic(t2) by {
            if pre.has_topic(t2) {
                let j = pre.idx_of(t2);
                assert(self.topics@[j].name@ == t2);
            }
            if self.has_topic(t2) {
                let j = self.idx_of(t2);
                assert(j != n);
                assert(pre.topics@[j].name@ == t2);
            }
        }
        assert forall|t2: Seq<char>| t2 != tn implies #[trigger] self.receiver_count(t2)
            == pre.receiver_count(t2) by {
            if pre.has_topic(t2) {
                let j = pre.idx_of(t2);
                assert(j != n);
                pre.lemma_at(j);
                self.lemma_at(j);
            }
        }
        assert forall|t2: Seq<char>, r2: int| t2 != tn implies #[trigger] self.receiver_queue(
            t2,
            r2,
        ) == pre.receiver_queue(t2, r2) by {
            if pre.has_topic(t2) {
                let j = pre.idx_of(t2);
                assert(j != n);
                pre.lemma_at(j);
                self.lemma_at(j);
            }
        }
    }

    /// Publish an event on its routing key's topic. When the topic has a
    /// channel, every existing subscriber queue takes the event through
    /// `lag_push`; a topic nobody ever subscribed to drops the event
    /// silently — that is a legal no-op, not an error. Publishing never
    /// creates a topic, never blocks and never fails.
    pub fn publish(&mut self, event: Event)
        requires
            old(self).wf(),
        ensures
            final(self).wf(),
            final(self).cap() == old(self).cap(),
            forall|t2: Seq<char>| #[trigger]
                final(self).has_topic(t2) == old(self).has_topic(t2),
            forall|t2: Seq<char>| #[trigger]
                final(self).receiver_count(t2) == old(self).receiver_count(t2),
            forall|r2: int|
                0 <= r2 < old(self).receiver_count(event.event_type@)
                    ==> #[trigger] final(self).receiver_queue(event.event_type@, r2) == lag_push(
                    old(self).receiver_queue(event.event_type@, r2),
                    event@,
                    old(self).cap(),
                ),
            forall|t2: Seq<char>, r2: int|
                t2 != event.event_type@ ==> #[trigger] final(self).receiver_queue(t2, r2) == old(
                    self,
                ).receiver_queue(t2, r2),
            final(self).topic_names() == old(self).topic_names(),
    {
        let found = self.find_topic(&event.event_type);
        match found {
            None => {
                proof {
                    if self.has_topic(event.event_type@) {
                        let j = self.idx_of(event.event_type@);
                        assert(false);
                    }
                }
            },
            Some(i) => {
                proof {
                    self.lemma_at(i as int);
                }
                let ghost pre = *self;
                let cap = self.capacity;
                let topic = &mut self.topics[i];
                let ghost rs0 = topic.receivers@;
                let count = topic.receivers.len();
                let mut r: usize = 0;
                while r < count
                    invariant
                        topic.receivers@.len() == count,
                        rs0.len() == count,
                        r <= count,
                        cap == pre.capacity,
                        cap >= 1,
                        forall|r2: int|
                            r <= r2 < count ==> #[trigger] topic.receivers@[r2] == rs0[r2],
                        forall|r2: int|
                            0 <= r2 < r ==> (#[trigger] topic.receivers@[r2])@.map_values(
                                |e: Event| e@,
                            ) == lag_push(
                                rs0[r2]@.map_values(|e: Event| e@),
                                event@,
                                cap as nat,
                            ),
                        forall|r2: int|
                            0 <= r2 < count ==> #[trigger] topic.receivers@[r2]@.len() <= cap,
                        forall|r2: int| 0 <= r2 < count ==> #[trigger] rs0[r2]@.len() <= cap,
                        topic.name@ == pre.topics@[i as int].name@,
                    decreases count - r,
                {
                    let ghost prev = topic.receivers@;
                    let q = &mut topic.receivers[r];
                    if q.len() >= cap {
                        q.remove(0);
                    }
                    q.push(event.clone());
                    proof {
                        assert(topic.receivers@ =~= prev.update(
                            r as int,
                            topic.receivers@[r as int],
                        ));
                        assert(topic.receivers@[r as int]@.map_values(|e: Event| e@) =~= lag_push(
                            rs0[r as int]@.map_values(|e: Event| e@),
                            event@,
                            cap as nat,
                        ));
                    }
                    r = r + 1;
                }
                proof {
                    assert(self.topics@ =~= pre.topics@.update(i as int, self.topics@[i as int]));
                    assert(self.topics@[i as int].name@ == event.event_type@);
                    pre.lemma_at(i as int);
                    self.lemma_at(i as int);
                    assert forall|t2: Seq<char>| #[trigger]
                        self.has_topic(t2) == pre.has_topic(t2) by {
                        if pre.has_topic(t2) {
                            let j = pre.idx_of(t2);
                            assert(self.topics@[j].name@ == t2);
                        }
                        if self.has_topic(t2) {
                            let j = self.idx_of(t2);
                            assert(pre.topics@[j].name@ == t2);
                        }
                    }
                    assert forall|t2: Seq<char>| #[trigger]
                        self.receiver_count(t2) == pre.receiver_count(t2) by {
                        if pre.has_topic(t2) {
                            let j = pre.idx_of(t2);
                            pre.lemma_at(j);
                            self.lemma_at(j);
                        }
                    }
                    assert forall|t2: Seq<char>, r2: int| t2 != event.event_type@ implies #[trigger]
                        self.receiver_queue(t2, r2) == pre.receiver_queue(t2, r2) by {
                        if pre.has_topic(t2) {
                            let j = pre.idx_of(t2);
                            assert(j != i);
                            pre.lemma_at(j);
                            self.lemma_at(j);
                        }
                    }
                    assert(self.topic_names() =~= pre.topic_names());
                }
            },
        }
    }

    /// Take the oldest unread event of receiver `rid` on the given
    /// topic, if any. Events come out in publish order, each at most
    /// once per receiver.
    pub fn recv_event(&mut self, event_type: &String, rid: usize) -> (r: Option<Event>)
        requires
            old(self).wf(),
        ensures
            final(self).wf(),
            final(self).cap() == old(self).cap(),
            match r {
                Some(e) => {
                    &&& old(self).receiver_queue(event_type@, rid as int).len() > 0
                    &&& e@ == old(self).receiver_queue(event_type@, rid as int)[0]
                    &&& final(self).receiver_queue(event_type@, rid as int) == old(
                        self,
                    ).receiver_queue(event_type@, rid as int).drop_first()
                },
                None => {
                    &&& old(self).receiver_queue(event_type@, rid as int).len() == 0
                    &&& *final(self) == *old(self)
                },
            },
            forall|t2: Seq<char>| #[trigger]
                final(self).has_topic(t2) == old(self).has_topic(t2),
            forall|t2: Seq<char>| #[trigger]
                final(self).receiver_count(t2) == old(self).receiver_count(t2),
            forall|t2: Seq<char>, r2: int|
                !(t2 == event_type@ && r2 == rid as int) ==> #[trigger] final(self).receiver_queue(
                    t2,
                    r2,
                ) == old(self).receiver_queue(t2, r2),
            final(self).topic_names() == old(self).topic_names(),
    {
        let found = self.find_topic(event_type);
        match found {
            None => {
                proof {
                    if self.has_topic(event_type@) {
                        let j = self.idx_of(event_type@);
                        assert(false);
                    }
                }
                None
            },
            Some(i) => {
                proof {
                    self.lemma_at(i as int);
                }
                if rid >= self.topics[i].receivers.len() {
                    return None;
                }
                if self.topics[i].receivers[rid].len() == 0 {
                    return None;
                }
                let topic = &mut self.topics[i];
                let q = &mut topic.receivers[rid];
                let e = q.remove(0);
                proof {
                    assert(self.topics@ =~= old(self).topics@.update(
                        i as int,
                        self.topics@[i as int],
                    ));
                    assert(self.topics@[i as int].receivers@ =~= old(
                        self,
                    ).topics@[i as int].receivers@.update(
                        rid as int,
                        self.topics@[i as int].receivers@[rid as int],
                    ));
                    assert(self.topics@[i as int].name@ == event_type@);
                    old(self).lemma_at(i as int);
                    self.lemma_at(i as int);
                    assert(self.receiver_queue(event_type@, rid as int) =~= old(
                        self,
                    ).receiver_queue(event_type@, rid as int).drop_first());
                    assert(e@ == old(self).receiver_queue(event_type@, rid as int)[0]);
                    assert forall|t2: Seq<char>| #[trigger]
                        self.has_topic(t2) == old(self).has_topic(t2) by {
                        if old(self).has_topic(t2) {
                            let j = old(self).idx_of(t2);
                            assert(self.topics@[j].name@ == t2);
                        }
                        if self.has_topic(t2) {
                            let j = self.idx_of(t2);
                            assert(old(self).topics@[j].name@ == t2);
                        }
                    }
                    assert forall|t2: Seq<char>| #[trigger]
                        self.receiver_count(t2) == old(self).receiver_count(t2) by {
                        if old(self).has_topic(t2) {
                            let j = old(self).idx_of(t2);
                            old(self).lemma_at(j);
                            self.lemma_at(j);
                        }
                    }
                    assert forall|t2: Seq<char>, r2: int|
                        !(t2 == event_type@ && r2 == rid as int) implies #[trigger]
                        self.receiver_queue(t2, r2) == old(self).receiver_queue(t2, r2) by {
                        if old(self).has_topic(t2) {
                            let j = old(self).idx_of(t2);
                            old(self).lemma_at(j);
                            self.lemma_at(j);
                            if j != i {
                            } else {
                                assert(t2 == event_type@);
                                assert(r2 != rid as int);
                                if 0 <= r2 < old(self).receiver_count(t2) {
                                    assert(self.topics@[i as int].receivers@[r2] == old(
                                        self,
                                    ).topics@[i as int].receivers@[r2]);
                                }
                            }
                        }
                    }
                    assert(self.topic_names() =~= old(self).topic_names());
                }
                Some(e)
            },
        }
    }

    /// A topic has a channel exactly when its name stands in the topic
    /// list: what `has_topic` says and what `get_subscriptions` shows
    /// agree.
    pub proof fn lemma_topic_names_match(self)
        ensures
            forall|t: Seq<char>| #[trigger] self.has_topic(t) == self.topic_names().contains(t),
    {
        assert forall|t: Seq<char>| #[trigger]
            self.has_topic(t) == self.topic_names().contains(t) by {
            if self.has_topic(t) {
                let i = choose|i: int|
                    0 <= i < self.topics@.len() && (#[trigger] self.topics@[i]).name@ == t;
                assert(self.topic_names()[i] == t);
            }
            if self.topic_names().contains(t) {
                let i = choose|i: int|
                    0 <= i < self.topic_names().len() && self.topic_names()[i] == t;
                assert(self.topics@[i].name@ == t);
            }
        }
    }

    /// The names of all topics that have a channel, in creation order.
    pub fn get_subscriptions(&self) -> (r: Vec<String>)
        ensures
            r@.len() == self.topic_names().len(),
            forall|i: int| 0 <= i < r@.len() ==> #[trigger] r@[i]@ == self.topic_names()[i],
    {
        let mut out: Vec<String> = Vec::new();
        let mut i: usize = 0;
        while i < self.topics.len()
            invariant
                i <= self.topics@.len(),
                out@.len() == i,
                forall|j: int| 0 <= j < i ==> #[trigger] out@[j]@ == self.topic_names()[j],
            decreases self.topics@.len() - i,
        {
            out.push(self.topics[i].name.clone());
            i = i + 1;
        }
        out
    }
}

/// A receiver that subscribes before a publish holds exactly that event
/// exactly once: its fresh queue is empty, one `lag_push` on an empty
/// queue yields the singleton sequence of that event, the first receive
/// yields the event, and afterwards the queue is empty again. A receiver
/// that subscribes after the publish starts with an empty queue and so
/// never receives it.
pub proof fn lemma_fresh_receiver_sees_one_publish(e: EventView, cap: nat)
    requires
        cap >= 1,
    ensures
        lag_push(Seq::<EventView>::empty(), e, cap) =~= seq![e],
        lag_push(Seq::<EventView>::empty(), e, cap)[0] == e,
        lag_push(Seq::<EventView>::empty(), e, cap).drop_first() =~= Seq::<EventView>::empty(),
{
}

} // verus!
