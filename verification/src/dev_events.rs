//! An on-chain event log: contracts emit events under a topic, readers
//! query them by topic or emitter, and addresses subscribe to topics.
use vstd::prelude::*;
use crate::keymap::{str_eq, KeyMap};

verus! {

/// An event, numbered from 1 in the order emitted.
#[derive(Clone, Debug)]
pub struct IndexedEvent {
    pub id: u64,
    pub emitter: String,
    pub topic: String,
    pub data: Vec<u8>,
    pub block_height: u64,
    pub timestamp: u64,
}

/// The log.
#[derive(Clone, Debug)]
pub struct EventIndexState {
    pub events: Vec<IndexedEvent>,
    /// For each topic, its subscribers in the order they subscribed.
    pub subscribers: KeyMap<String, Vec<String>>,
    pub next_id: u64,
}

/// The events that references point to.
pub open spec fn events_of(refs: Seq<&IndexedEvent>) -> Seq<IndexedEvent> {
    refs.map_values(|e: &IndexedEvent| *e)
}

/// The first `n` items of `s`, or all of them where there are fewer.
pub open spec fn first_n<A>(s: Seq<A>, n: int) -> Seq<A> {
    if n < s.len() {
        s.take(n)
    } else {
        s
    }
}

/// The last `n` items of `s`, or all of them where there are fewer.
pub open spec fn last_n<A>(s: Seq<A>, n: int) -> Seq<A> {
    if n < s.len() {
        s.skip(s.len() - n)
    } else {
        s
    }
}

/// Whether an event is under `topic` with an id of at least `from_id`.
pub open spec fn on_topic_from(topic: Seq<char>, from_id: u64) -> spec_fn(IndexedEvent) -> bool {
    |e: IndexedEvent| e.topic@ == topic && e.id >= from_id
}

/// Whether an event comes from `emitter` with an id of at least `from_id`.
pub open spec fn by_emitter_from(emitter: Seq<char>, from_id: u64) -> spec_fn(IndexedEvent) -> bool {
    |e: IndexedEvent| e.emitter@ == emitter && e.id >= from_id
}

/// The characters of each string.
pub open spec fn texts(v: Seq<String>) -> Seq<Seq<char>> {
    v.map_values(|s: String| s@)
}

/// `listed` with `name` added at its end, unless it is there already.
pub open spec fn added_once(listed: Seq<Seq<char>>, name: Seq<char>) -> Seq<Seq<char>> {
    if listed.contains(name) {
        listed
    } else {
        listed.push(name)
    }
}

/// The first `limit` events of `events` that satisfy `pred`, by reference.
fn select<'a>(events: &'a Vec<IndexedEvent>, topic: &str, by_topic: bool, from_id: u64, limit: usize) -> (r: Vec<
    &'a IndexedEvent,
>)
    ensures
        events_of(r@) == first_n(
            events@.filter(
                if by_topic {
                    on_topic_from(topic@, from_id)
                } else {
                    by_emitter_from(topic@, from_id)
                },
            ),
            limit as int,
        ),
{
    let ghost pred = if by_topic {
        on_topic_from(topic@, from_id)
    } else {
        by_emitter_from(topic@, from_id)
    };
    let mut out: Vec<&IndexedEvent> = Vec::new();
    let mut j: usize = 0;
    while j < events.len() && out.len() < limit
        invariant
            j <= events@.len(),
            by_topic ==> pred == on_topic_from(topic@, from_id),
            !by_topic ==> pred == by_emitter_from(topic@, from_id),
            events_of(out@) == events@.take(j as int).filter(pred),
            out@.len() <= limit,
        decreases events@.len() - j,
    {
        let e = &events[j];
        proof {
            assert(events@.take(j + 1) =~= events@.take(j as int).push(*e));
            events@.take(j as int).lemma_filter_push(*e, pred);
        }
        let matches = if by_topic {
            str_eq(e.topic.as_str(), topic)
        } else {
            str_eq(e.emitter.as_str(), topic)
        };
        if matches && e.id >= from_id {
            let ghost before = out@;
            out.push(e);
            assert(events_of(out@) =~= events_of(before).push(*e));
        }
        j += 1;
    }
    proof {
        if out@.len() < limit {
            assert(events@.take(events@.len() as int) =~= events@);
        } else {
            lemma_filter_prefix(events@, pred, j as int);
            assert(first_n(events@.filter(pred), limit as int) =~= events_of(out@));
        }
    }
    out
}

/// Filtering a prefix keeps a prefix of what filtering the whole keeps.
proof fn lemma_filter_prefix<A>(s: Seq<A>, pred: spec_fn(A) -> bool, j: int)
    requires
        0 <= j <= s.len(),
    ensures
        s.take(j).filter(pred).len() <= s.filter(pred).len(),
        s.take(j).filter(pred) =~= s.filter(pred).take(s.take(j).filter(pred).len() as int),
    decreases s.len() - j,
{
    if j < s.len() {
        lemma_filter_prefix(s, pred, j + 1);
        assert(s.take(j + 1) =~= s.take(j).push(s[j]));
        s.take(j).lemma_filter_push(s[j], pred);
        let f = s.take(j).filter(pred);
        let g = s.take(j + 1).filter(pred);
        let all = s.filter(pred);
        if pred(s[j]) {
            assert(g =~= f.push(s[j]));
            assert(f =~= all.take(f.len() as int)) by {
                assert forall|i: int| 0 <= i < f.len() implies f[i] == all[i] by {
                    assert(g[i] == all[i]);
                }
            }
        } else {
            assert(g =~= f);
        }
    } else {
        assert(s.take(j) =~= s);
    }
}

/// Whether `name` is one of `names`.
fn listed_name(names: &Vec<String>, name: &str) -> (r: bool)
    ensures
        r == texts(names@).contains(name@),
{
    let mut i: usize = 0;
    while i < names.len()
        invariant
            i <= names@.len(),
            forall|k: int| 0 <= k < i ==> names@[k]@ != name@,
        decreases names@.len() - i,
    {
        if str_eq(names[i].as_str(), name) {
            assert(texts(names@)[i as int] == name@);
            return true;
        }
        i += 1;
    }
    proof {
        if texts(names@).contains(name@) {
            let k = choose|k: int| 0 <= k < texts(names@).len() && texts(names@)[k] == name@;
            assert(names@[k]@ == name@);
        }
    }
    false
}

/// Adds `name` at the end of `names`, unless it is there already.
fn add_name_once(names: &mut Vec<String>, name: String)
    ensures
        texts(final(names)@) == added_once(texts(old(names)@), name@),
{
    if !listed_name(names, name.as_str()) {
        let ghost before = names@;
        names.push(name);
        assert(texts(names@) =~= texts(before).push(name@));
    }
}

impl EventIndexState {
    /// The invariant: the events are numbered 1, 2, ... in order, the next
    /// id follows the last, and the subscriber map is well formed.
    pub open spec fn wf(&self) -> bool {
        &&& self.subscribers.wf()
        &&& self.next_id == self.events@.len() + 1
        &&& forall|i: int| 0 <= i < self.events@.len() ==> #[trigger] self.events@[i].id == i + 1
    }

    /// The subscribers of each topic.
    pub open spec fn subscribed(&self) -> Map<Seq<char>, Seq<Seq<char>>> {
        self.subscribers@.map_values(|v: Vec<String>| texts(v@))
    }

    /// The subscribers of `topic`, none where it has none.
    pub open spec fn subscribers_of(&self, topic: Seq<char>) -> Seq<Seq<char>> {
        if self.subscribed().contains_key(topic) {
            self.subscribed()[topic]
        } else {
            Seq::empty()
        }
    }

    pub fn new() -> (s: Self)
        ensures
            s.wf(),
            s.events@ == Seq::<IndexedEvent>::empty(),
            s.subscribed() == Map::<Seq<char>, Seq<Seq<char>>>::empty(),
            s.next_id == 1,
    {
        let s = EventIndexState { events: Vec::new(), subscribers: KeyMap::new(), next_id: 1 };
        assert(s.subscribed() =~= Map::<Seq<char>, Seq<Seq<char>>>::empty());
        s
    }

    /// Logs an event under a topic that is not empty; returns its id.
    pub fn emit(&mut self, emitter: &str, topic: String, data: Vec<u8>, block_height: u64, timestamp: u64) -> (r: u64)
        requires
            old(self).wf(),
            topic@.len() > 0,
            old(self).next_id < u64::MAX,
        ensures
            final(self).wf(),
            r == old(self).next_id,
            final(self).next_id == old(self).next_id + 1,
            final(self).subscribers == old(self).subscribers,
            final(self).events@.len() == old(self).events@.len() + 1,
            final(self).events@.drop_last() == old(self).events@,
            final(self).events@.last().id == r,
            final(self).events@.last().emitter@ == emitter@,
            final(self).events@.last().topic == topic,
            final(self).events@.last().data == data,
            final(self).events@.last().block_height == block_height,
            final(self).events@.last().timestamp == timestamp,
    {
        let id = self.next_id;
        self.next_id = self.next_id + 1;
        self.events.push(
            IndexedEvent { id, emitter: emitter.to_owned(), topic, data, block_height, timestamp },
        );
        assert(self.events@.drop_last() =~= old(self).events@);
        id
    }

    /// The first `limit` events under `topic` with ids from `from_id` on.
    pub fn get_events(&self, topic: &str, from_id: u64, limit: usize) -> (r: Vec<&IndexedEvent>)
        ensures
            events_of(r@) == first_n(self.events@.filter(on_topic_from(topic@, from_id)), limit as int),
    {
        select(&self.events, topic, true, from_id, limit)
    }

    /// The first `limit` events from `emitter` with ids from `from_id` on.
    pub fn get_events_by_emitter(&self, emitter: &str, from_id: u64, limit: usize) -> (r: Vec<&IndexedEvent>)
        ensures
            events_of(r@) == first_n(self.events@.filter(by_emitter_from(emitter@, from_id)), limit as int),
    {
        select(&self.events, emitter, false, from_id, limit)
    }

    /// Subscribes `subscriber` to `topic`, once.
    pub fn subscribe(&mut self, topic: String, subscriber: String)
        requires
            old(self).wf(),
        ensures
            final(self).wf(),
            final(self).events == old(self).events,
            final(self).next_id == old(self).next_id,
            final(self).subscribed() == old(self).subscribed().insert(
                topic@,
                added_once(old(self).subscribers_of(topic@), subscriber@),
            ),
    {
        match self.subscribers.find(&topic) {
            Some(i) => {
                let ghost before = self.subscribers;
                proof {
                    before.lemma_entry(i as int);
                }
                add_name_once(self.subscribers.value_mut_at(i), subscriber);
                proof {
                    KeyMap::lemma_set_at(before, self.subscribers, i as int);
                }
            },
            None => {
                let mut subs: Vec<String> = Vec::new();
                subs.push(subscriber);
                assert(texts(subs@) =~= Seq::<Seq<char>>::empty().push(subscriber@));
                self.subscribers.insert(topic, subs);
            },
        }
        assert(self.subscribed() =~= old(self).subscribed().insert(
            topic@,
            added_once(old(self).subscribers_of(topic@), subscriber@),
        ));
    }

    /// The last `limit` events, oldest first.
    pub fn get_latest_events(&self, limit: usize) -> (r: Vec<&IndexedEvent>)
        ensures
            events_of(r@) == last_n(self.events@, limit as int),
    {
        let len = self.events.len();
        let start = if len > limit {
            len - limit
        } else {
            0
        };
        let mut out: Vec<&IndexedEvent> = Vec::new();
        let mut j: usize = start;
        while j < len
            invariant
                start <= j <= len,
                len == self.events@.len(),
                events_of(out@) == self.events@.subrange(start as int, j as int),
            decreases len - j,
        {
            let ghost before = out@;
            out.push(&self.events[j]);
            assert(events_of(out@) =~= events_of(before).push(self.events@[j as int]));
            assert(self.events@.subrange(start as int, j + 1) =~= self.events@.subrange(
                start as int,
                j as int,
            ).push(self.events@[j as int]));
            j += 1;
        }
        assert(self.events@.subrange(start as int, len as int) =~= last_n(self.events@, limit as int));
        out
    }

    /// The subscribers of `topic`, in the order they subscribed.
    pub fn get_subscribers(&self, topic: &str) -> (r: Vec<&str>)
        requires
            self.wf(),
        ensures
            r@.map_values(|s: &str| s@) == self.subscribers_of(topic@),
    {
        let key = topic.to_owned();
        let mut out: Vec<&str> = Vec::new();
        match self.subscribers.get(&key) {
            Some(subs) => {
                let mut j: usize = 0;
                while j < subs.len()
                    invariant
                        j <= subs@.len(),
                        out@.map_values(|s: &str| s@) == texts(subs@).take(j as int),
                    decreases subs@.len() - j,
                {
                    let ghost before = out@;
                    out.push(subs[j].as_str());
                    assert(out@.map_values(|s: &str| s@) =~= before.map_values(|s: &str| s@).push(
                        subs@[j as int]@,
                    ));
                    assert(texts(subs@).take(j + 1) =~= texts(subs@).take(j as int).push(subs@[j as int]@));
                    j += 1;
                }
                assert(texts(subs@).take(subs@.len() as int) =~= texts(subs@));
            },
            None => {
                assert(out@.map_values(|s: &str| s@) =~= Seq::<Seq<char>>::empty());
            },
        }
        out
    }

    /// The number of events emitted.
    pub fn event_count(&self) -> (r: u64)
        requires
            self.wf(),
        ensures
            r == self.events@.len(),
    {
        self.next_id - 1
    }
}

/// Events are numbered in the order emitted: an event logged before
/// another has the smaller id, so a query from an id on sees exactly the
/// events logged from that one on.
pub proof fn law_ids_follow_emission_order(s: EventIndexState, i: int, j: int)
    requires
        s.wf(),
        0 <= i < j < s.events@.len(),
    ensures
        s.events@[i].id < s.events@[j].id,
{
    assert(s.events@[i].id == i + 1);
    assert(s.events@[j].id == j + 1);
}

} // verus!
