use std::collections::HashMap;
use vstd::prelude::*;

use crate::event::{is_tag_snapshot_type, HistoryEvent, Timestamp, INITIAL_TAGS};

verus! {

broadcast use {vstd::std_specs::hash::group_hash_axioms, vstd::std_specs::vec::axiom_spec_into_iter};

/// What the store holds per post: the time of the winning event and its text.
pub type SnapshotMap = Map<i32, (Timestamp, Seq<char>)>;

/// The latest tag text known for one post.
pub struct Snapshot {
    pub post_id: i32,
    pub time: Timestamp,
    pub text: String,
}

/// What applying one event did, so that the caller can report it.
#[derive(Clone, Copy, Debug, PartialEq, Eq, Structural)]
pub enum Outcome {
    /// The event's type carries no tag snapshot; nothing changed.
    NotTagEvent,
    /// The event has no creation date; nothing changed.
    MissingDate,
    /// The event has no text; nothing changed.
    MissingText,
    /// The post had no snapshot yet; this event's is now recorded.
    /// `without_initial` is set when the event is not an initial-tags one.
    Recorded { without_initial: bool },
    /// The event is newer than the post's snapshot and replaced it.
    /// `repeated_initial` is set when the event is an initial-tags one.
    Replaced { repeated_initial: bool },
    /// The event is not newer than the post's snapshot; nothing changed.
    Kept,
}

/// The snapshots after one more event: a usable event is taken when the post
/// has none yet or when it is strictly newer; ties keep what was there.
pub open spec fn step(m: SnapshotMap, e: HistoryEvent) -> SnapshotMap {
    if !e.is_usable() {
        m
    } else if !m.contains_key(e.post_id) || e.time().spec_is_after(m[e.post_id].0) {
        m.insert(e.post_id, (e.time(), e.text_view()))
    } else {
        m
    }
}

/// What `step` reports for the event.
pub open spec fn outcome(m: SnapshotMap, e: HistoryEvent) -> Outcome {
    if !crate::event::spec_is_tag_snapshot_type(e.type_id) {
        Outcome::NotTagEvent
    } else if e.creation_date is None {
        Outcome::MissingDate
    } else if e.text is None {
        Outcome::MissingText
    } else if !m.contains_key(e.post_id) {
        Outcome::Recorded { without_initial: e.type_id != INITIAL_TAGS }
    } else if e.time().spec_is_after(m[e.post_id].0) {
        Outcome::Replaced { repeated_initial: e.type_id == INITIAL_TAGS }
    } else {
        Outcome::Kept
    }
}

/// The snapshots after the events `es`, taken in order, starting from `m`.
pub open spec fn replay_from(m: SnapshotMap, es: Seq<HistoryEvent>) -> SnapshotMap
    decreases es.len(),
{
    if es.len() == 0 {
        m
    } else {
        step(replay_from(m, es.drop_last()), es.last())
    }
}

/// The snapshots after the events `es`, starting from none.
pub open spec fn replay(es: Seq<HistoryEvent>) -> SnapshotMap {
    replay_from(Map::empty(), es)
}

/// The latest snapshot per post, built one history event at a time. Posts keep
/// the order in which their first usable event came.
pub struct SnapshotStore {
    positions: HashMap<i32, usize>,
    entries: Vec<Snapshot>,
}

impl View for SnapshotStore {
    type V = SnapshotMap;

    closed spec fn view(&self) -> SnapshotMap {
        Map::new(
            |k: i32| self.positions@.contains_key(k),
            |k: i32|
                (
                    self.entries@[self.positions@[k] as int].time,
                    self.entries@[self.positions@[k] as int].text@,
                ),
        )
    }
}

impl SnapshotStore {
    /// The snapshots in order of their posts' first usable event.
    pub closed spec fn spec_entries(&self) -> Seq<Snapshot> {
        self.entries@
    }

    /// The store's invariant.
    pub open spec fn wf(&self) -> bool {
        self.indexed() && self.consistent()
    }

    /// Every post appears once among the entries, and the map agrees with them.
    pub open spec fn consistent(&self) -> bool {
        &&& forall|i: int, j: int|
            0 <= i < j < self.spec_entries().len() ==> self.spec_entries()[i].post_id
                != self.spec_entries()[j].post_id
        &&& forall|i: int|
            #![trigger self.spec_entries()[i]]
            0 <= i < self.spec_entries().len() ==> {
                &&& self@.contains_key(self.spec_entries()[i].post_id)
                &&& self@[self.spec_entries()[i].post_id] == (
                    self.spec_entries()[i].time,
                    self.spec_entries()[i].text@,
                )
            }
        &&& forall|k: i32|
            self@.contains_key(k) ==> exists|i: int|
                0 <= i < self.spec_entries().len() && self.spec_entries()[i].post_id == k
    }

    /// The lookup index points at each post's entry.
    pub closed spec fn indexed(&self) -> bool {
        &&& forall|k: i32|
            #![trigger self.positions@[k]]
            self.positions@.contains_key(k) ==> {
                &&& self.positions@[k] < self.entries.len()
                &&& self.entries@[self.positions@[k] as int].post_id == k
            }
        &&& forall|i: int|
            #![trigger self.entries@[i]]
            0 <= i < self.entries.len() ==> {
                &&& self.positions@.contains_key(self.entries@[i].post_id)
                &&& self.positions@[self.entries@[i].post_id] == i
            }
    }

    proof fn lemma_indexed_wf(&self)
        requires
            self.indexed(),
        ensures
            self.consistent(),
    {
        assert forall|k: i32| self@.contains_key(k) implies exists|i: int|
            0 <= i < self.spec_entries().len() && self.spec_entries()[i].post_id == k by {
            let i = self.positions@[k] as int;
            assert(self.spec_entries()[i].post_id == k);
        }
    }

    /// A store with no snapshot.
    pub fn new() -> (r: SnapshotStore)
        ensures
            r.wf(),
            r@ == SnapshotMap::empty(),
            r.spec_entries().len() == 0,
    {
        let r = SnapshotStore { positions: HashMap::new(), entries: Vec::new() };
        assert(r@ =~= SnapshotMap::empty());
        proof {
            r.lemma_indexed_wf();
        }
        r
    }

    /// The snapshots in order of their posts' first usable event.
    pub fn entries(&self) -> (r: &Vec<Snapshot>)
        ensures
            r@ == self.spec_entries(),
    {
        &self.entries
    }

    /// Takes one history event into account.
    pub fn apply(&mut self, event: HistoryEvent) -> (r: Outcome)
        requires
            old(self).wf(),
        ensures
            final(self).wf(),
            final(self)@ == step(old(self)@, event),
            r == outcome(old(self)@, event),
    {
        let ghost before = event;
        if !is_tag_snapshot_type(event.type_id) {
            return Outcome::NotTagEvent;
        }
        let time = match event.creation_date {
            Some(t) => t,
            None => return Outcome::MissingDate,
        };
        let text = match event.text {
            Some(t) => t,
            None => return Outcome::MissingText,
        };
        let post_id = event.post_id;
        match self.positions.get(&post_id) {
            Some(pos) => {
                let pos: usize = *pos;
                if time.is_after(&self.entries[pos].time) {
                    let ghost old_self = *self;
                    self.entries.set(pos, Snapshot { post_id, time, text });
                    proof {
                        assert(self@ =~= old_self@.insert(post_id, (time, before.text_view())));
                        self.lemma_indexed_wf();
                    }
                    Outcome::Replaced { repeated_initial: event.type_id == INITIAL_TAGS }
                } else {
                    Outcome::Kept
                }
            },
            None => {
                let ghost old_self = *self;
                let pos = self.entries.len();
                self.entries.push(Snapshot { post_id, time, text });
                self.positions.insert(post_id, pos);
                proof {
                    assert(self.entries@[pos as int].post_id == post_id);
                    assert(self@ =~= old_self@.insert(post_id, (time, before.text_view())));
                    self.lemma_indexed_wf();
                }
                Outcome::Recorded { without_initial: event.type_id != INITIAL_TAGS }
            },
        }
    }
}

/// The latest snapshot of each post after all of `events`, taken in order.
pub fn reconcile(events: Vec<HistoryEvent>) -> (r: SnapshotStore)
    ensures
        r.wf(),
        r@ == replay(events@),
{
    let ghost es = events@;
    let mut store = SnapshotStore::new();
    for e in it: events.into_iter()
        invariant
            it.seq() == es,
            0 <= it.index() <= es.len(),
            store.wf(),
            store@ == replay(es.take(it.index() as int)),
    {
        let ghost i = it.index() as int;
        assert(es.take(i + 1).drop_last() =~= es.take(i));
        store.apply(e);
    }
    assert(es.take(es.len() as int) =~= es);
    store
}

} // verus!
