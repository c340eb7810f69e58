use vstd::prelude::*;

use crate::carrier::Carrier;
use crate::completion::{lemma_index_of_unique, state_of, CompletionState};
use crate::engine::{advance_of, after, evaluate, prompt_of, update_of, Evaluation};
use crate::model::{DeliveryStatus, FetchError, Parcel};

verus! {

/// One subscription: a subscriber following one parcel of one carrier.
#[derive(Debug, PartialEq, Eq)]
pub struct Tracker {
    /// Assigned by the store, unique and stable.
    pub id: i64,
    /// The subscriber that receives the messages.
    pub chat_id: i64,
    /// The carrier's name.
    pub company: String,
    pub tracking_number: String,
    /// When the subscription was made, in seconds since the epoch.
    pub added_timestamp: i64,
    /// The time of the latest event the subscriber has been told of.
    pub last_updated_timestamp: i64,
    /// Set once the subscriber chose to keep a completed parcel.
    pub keep: bool,
}

impl Clone for Tracker {
    fn clone(&self) -> (r: Self)
        ensures
            r == *self,
    {
        Tracker {
            id: self.id,
            chat_id: self.chat_id,
            company: self.company.clone(),
            tracking_number: self.tracking_number.clone(),
            added_timestamp: self.added_timestamp,
            last_updated_timestamp: self.last_updated_timestamp,
            keep: self.keep,
        }
    }
}

/// Why the store refused a change.
#[derive(Clone, Copy, Debug, PartialEq, Eq, Structural)]
pub enum StoreError {
    /// Every id the store can hand out is taken.
    IdsExhausted,
    /// A restored tracker's id is already in use.
    IdTaken,
    /// A restored tracker's id lies outside `1 .. i64::MAX`.
    IdOutOfRange,
}

/// Why a subscription could not be made.
#[derive(Clone, Copy, Debug, PartialEq, Eq, Structural)]
pub enum AddError {
    /// The initial fetch failed.
    FetchFailed,
    Store(StoreError),
}

/// What a subscriber answered to a completion prompt.
#[derive(Clone, Copy, Debug, PartialEq, Eq, Structural)]
pub enum CompletionAction {
    Keep,
    Delete,
}

/// A completion answer, tied to the tracker it concerns.
#[derive(Clone, Copy, Debug, PartialEq, Eq, Structural)]
pub struct CompletionChoice {
    pub tracker_id: i64,
    pub action: CompletionAction,
}

/// No two trackers share an id.
pub open spec fn ids_unique(s: Seq<Tracker>) -> bool {
    forall|i: int, j: int|
        0 <= i < s.len() && 0 <= j < s.len() && i != j ==> #[trigger] s[i].id != #[trigger] s[j].id
}

/// Some tracker has this id.
pub open spec fn has_id(s: Seq<Tracker>, id: i64) -> bool {
    exists|i: int| 0 <= i < s.len() && #[trigger] s[i].id == id
}

/// The trackers left after `chat_id` deletes `id`: only a tracker with that id
/// and owned by that subscriber goes.
pub open spec fn after_delete(s: Seq<Tracker>, id: i64, chat_id: i64) -> Seq<Tracker> {
    s.filter(|t: Tracker| !(t.id == id && t.chat_id == chat_id))
}

/// The trackers of one subscriber, in store order.
pub open spec fn owned_by(s: Seq<Tracker>, chat_id: i64) -> Seq<Tracker> {
    s.filter(|t: Tracker| t.chat_id == chat_id)
}

/// Every tracker with id `id` replaced by `f` of it, the others kept.
pub open spec fn update_where(s: Seq<Tracker>, id: i64, f: spec_fn(Tracker) -> Tracker) -> Seq<Tracker> {
    Seq::new(s.len(), |i: int| if s[i].id == id { f(s[i]) } else { s[i] })
}

/// The in-memory registry of trackers.
#[derive(Debug, PartialEq, Eq)]
pub struct TrackerStore {
    trackers: Vec<Tracker>,
    next_id: i64,
}

impl View for TrackerStore {
    type V = Seq<Tracker>;

    closed spec fn view(&self) -> Seq<Tracker> {
        self.trackers@
    }
}

impl TrackerStore {
    /// The id the next new tracker gets.
    pub closed spec fn next_id_spec(&self) -> int {
        self.next_id as int
    }

    /// Ids are unique and every id lies below the next one handed out.
    pub closed spec fn wf(&self) -> bool {
        &&& 1 <= self.next_id
        &&& ids_unique(self.trackers@)
        &&& forall|i: int|
            0 <= i < self.trackers@.len() ==> 1 <= #[trigger] self.trackers@[i].id < self.next_id
    }

    pub fn new() -> (r: TrackerStore)
        ensures
            r.wf(),
            r@ == Seq::<Tracker>::empty(),
            r.next_id_spec() == 1,
    {
        TrackerStore { trackers: Vec::new(), next_id: 1 }
    }

    fn find(&self, id: i64) -> (r: Option<usize>)
        ensures
            r matches Some(i) ==> i < self@.len() && self@[i as int].id == id,
            r is None <==> !has_id(self@, id),
    {
        let mut i: usize = 0;
        while i < self.trackers.len()
            invariant
                i <= self.trackers@.len(),
                forall|j: int| 0 <= j < i ==> #[trigger] self.trackers@[j].id != id,
            decreases self.trackers@.len() - i,
        {
            if self.trackers[i].id == id {
                return Some(i);
            }
            i = i + 1;
        }
        None
    }

    /// Whether some tracker has the id.
    pub fn contains(&self, id: i64) -> (r: bool)
        ensures
            r == has_id(self@, id),
    {
        self.find(id).is_some()
    }

    /// Adds a subscription that starts out not retained, under a fresh id.
    pub fn add_tracker(
        &mut self,
        chat_id: i64,
        company: String,
        tracking_number: String,
        added_timestamp: i64,
        last_updated_timestamp: i64,
    ) -> (r: Result<i64, StoreError>)
        requires
            old(self).wf(),
        ensures
            final(self).wf(),
            r is Ok <==> old(self).next_id_spec() < i64::MAX,
            r matches Ok(id) ==> {
                &&& id == old(self).next_id_spec()
                &&& !has_id(old(self)@, id)
                &&& final(self)@ == old(self)@.push(
                    Tracker {
                        id,
                        chat_id,
                        company,
                        tracking_number,
                        added_timestamp,
                        last_updated_timestamp,
                        keep: false,
                    },
                )
                &&& final(self).next_id_spec() == id + 1
            },
            r matches Err(e) ==> e == StoreError::IdsExhausted && *final(self) == *old(self),
    {
        if self.next_id == i64::MAX {
            return Err(StoreError::IdsExhausted);
        }
        let id = self.next_id;
        self.trackers.push(
            Tracker {
                id,
                chat_id,
                company,
                tracking_number,
                added_timestamp,
                last_updated_timestamp,
                keep: false,
            },
        );
        self.next_id = id + 1;
        Ok(id)
    }

    /// Puts back a tracker read from persistent storage, under its own id.
    pub fn restore(&mut self, tracker: Tracker) -> (r: Result<(), StoreError>)
        requires
            old(self).wf(),
        ensures
            final(self).wf(),
            r matches Err(e) ==> *final(self) == *old(self),
            r == (if tracker.id < 1 || tracker.id == i64::MAX {
                Err(StoreError::IdOutOfRange)
            } else if has_id(old(self)@, tracker.id) {
                Err(StoreError::IdTaken)
            } else {
                Ok(())
            }),
            r is Ok ==> final(self)@ == old(self)@.push(tracker),
            r is Ok ==> final(self).next_id_spec() >= old(self).next_id_spec(),
    {
        if tracker.id < 1 || tracker.id == i64::MAX {
            return Err(StoreError::IdOutOfRange);
        }
        if self.find(tracker.id).is_some() {
            return Err(StoreError::IdTaken);
        }
        if tracker.id >= self.next_id {
            self.next_id = tracker.id + 1;
        }
        self.trackers.push(tracker);
        Ok(())
    }

    /// The trackers of one subscriber.
    pub fn list_tracker(&self, chat_id: i64) -> (r: Vec<Tracker>)
        ensures
            r@ == owned_by(self@, chat_id),
    {
        let mut out: Vec<Tracker> = Vec::new();
        let mut i: usize = 0;
        while i < self.trackers.len()
            invariant
                i <= self.trackers@.len(),
                out@ == owned_by(self.trackers@.take(i as int), chat_id),
            decreases self.trackers@.len() - i,
        {
            proof {
                assert(self.trackers@.take(i + 1).drop_last() =~= self.trackers@.take(i as int));
                reveal(Seq::filter);
            }
            if self.trackers[i].chat_id == chat_id {
                out.push(self.trackers[i].clone());
            }
            i = i + 1;
        }
        assert(self.trackers@.take(i as int) =~= self.trackers@);
        out
    }

    /// Every tracker, for the poll scheduler.
    pub fn list_all_tracker(&self) -> (r: Vec<Tracker>)
        ensures
            r@ == self@,
    {
        let mut out: Vec<Tracker> = Vec::new();
        let mut i: usize = 0;
        while i < self.trackers.len()
            invariant
                i <= self.trackers@.len(),
                out@ == self.trackers@.take(i as int),
            decreases self.trackers@.len() - i,
        {
            out.push(self.trackers[i].clone());
            assert(out@ =~= self.trackers@.take(i + 1));
            i = i + 1;
        }
        assert(self.trackers@.take(i as int) =~= self.trackers@);
        out
    }

    /// Removes the tracker `id` if `chat_id` owns it; otherwise nothing happens.
    pub fn delete_tracker(&mut self, id: i64, chat_id: i64)
        requires
            old(self).wf(),
        ensures
            final(self).wf(),
            final(self)@ == after_delete(old(self)@, id, chat_id),
            final(self).next_id_spec() == old(self).next_id_spec(),
    {
        let ghost before = self.trackers@;
        let mut kept: Vec<Tracker> = Vec::new();
        let mut i: usize = 0;
        while i < self.trackers.len()
            invariant
                self.trackers@ == before,
                i <= before.len(),
                kept@ == after_delete(before.take(i as int), id, chat_id),
            decreases before.len() - i,
        {
            proof {
                assert(before.take(i + 1).drop_last() =~= before.take(i as int));
                reveal(Seq::filter);
            }
            let t = &self.trackers[i];
            if !(t.id == id && t.chat_id == chat_id) {
                kept.push(t.clone());
            }
            i = i + 1;
        }
        assert(before.take(i as int) =~= before);
        proof {
            lemma_filter_keeps_wf(before, |t: Tracker| !(t.id == id && t.chat_id == chat_id), self.next_id as int);
        }
        self.trackers = kept;
    }

    /// Stores a new last observed event time for the tracker `id`.
    pub fn update_last_updated_timestamp(&mut self, id: i64, time: i64)
        requires
            old(self).wf(),
        ensures
            final(self).wf(),
            final(self)@ == update_where(
                old(self)@,
                id,
                |t: Tracker| Tracker { last_updated_timestamp: time, ..t },
            ),
            final(self).next_id_spec() == old(self).next_id_spec(),
    {
        let ghost f = |t: Tracker| Tracker { last_updated_timestamp: time, ..t };
        match self.find(id) {
            Some(i) => {
                let mut t = self.trackers[i].clone();
                t.last_updated_timestamp = time;
                self.trackers.set(i, t);
                proof { lemma_update_at_unique(old(self).trackers@, i as int, f); }
            },
            None => {
                assert(self.trackers@ =~= update_where(self.trackers@, id, f));
            },
        }
    }

    /// Sets the retain flag of the tracker `id`.
    pub fn update_keep(&mut self, id: i64, keep: bool)
        requires
            old(self).wf(),
        ensures
            final(self).wf(),
            final(self)@ == update_where(old(self)@, id, |t: Tracker| Tracker { keep, ..t }),
            final(self).next_id_spec() == old(self).next_id_spec(),
    {
        let ghost f = |t: Tracker| Tracker { keep, ..t };
        match self.find(id) {
            Some(i) => {
                let mut t = self.trackers[i].clone();
                t.keep = keep;
                self.trackers.set(i, t);
                proof { lemma_update_at_unique(old(self).trackers@, i as int, f); }
            },
            None => {
                assert(self.trackers@ =~= update_where(self.trackers@, id, f));
            },
        }
    }
}

impl TrackerStore {
    /// Applies one poll of the tracker `id`: runs the engine on it with what
    /// the fetch returned and stores the advanced tracker. `None`, and no
    /// change, when no tracker has the id (it was deleted meanwhile).
    pub fn observe(&mut self, id: i64, fetched: &Result<Parcel, FetchError>) -> (r: Option<Evaluation>)
        requires
            old(self).wf(),
        ensures
            final(self).wf(),
            final(self).next_id_spec() == old(self).next_id_spec(),
            r is None <==> !has_id(old(self)@, id),
            r is None ==> final(self)@ == old(self)@,
            r matches Some(e) ==> exists|i: int|
                0 <= i < old(self)@.len() && #[trigger] old(self)@[i].id == id && {
                    &&& final(self)@ == old(self)@.update(i, after(old(self)@[i], *fetched))
                    &&& e.advance_to == advance_of(old(self)@[i], *fetched)
                    &&& e.update == update_of(old(self)@[i], *fetched)
                    &&& e.prompt == prompt_of(old(self)@[i], *fetched)
                },
    {
        match self.find(id) {
            None => None,
            Some(i) => {
                let mut t = self.trackers[i].clone();
                let e = evaluate(&mut t, fetched);
                self.trackers.set(i, t);
                Some(e)
            },
        }
    }

    /// Carries out a subscriber's answer to a completion prompt: keeping sets
    /// the retain flag, deleting removes the tracker if `chat_id` owns it.
    pub fn confirm_completion(&mut self, choice: CompletionChoice, chat_id: i64)
        requires
            old(self).wf(),
        ensures
            final(self).wf(),
            final(self).next_id_spec() == old(self).next_id_spec(),
            final(self)@ == match choice.action {
                CompletionAction::Keep => update_where(
                    old(self)@,
                    choice.tracker_id,
                    |t: Tracker| Tracker { keep: true, ..t },
                ),
                CompletionAction::Delete => after_delete(old(self)@, choice.tracker_id, chat_id),
            },
    {
        match choice.action {
            CompletionAction::Keep => self.update_keep(choice.tracker_id, true),
            CompletionAction::Delete => self.delete_tracker(choice.tracker_id, chat_id),
        }
    }

    /// Subscribes `chat_id` to a parcel, given the outcome of the initial
    /// fetch. The tracker starts at the snapshot's last event time, so events
    /// already there are not announced.
    pub fn add_from_snapshot(
        &mut self,
        chat_id: i64,
        carrier: Carrier,
        tracking_number: String,
        added_timestamp: i64,
        fetched: &Result<Parcel, FetchError>,
    ) -> (r: Result<i64, AddError>)
        requires
            old(self).wf(),
        ensures
            final(self).wf(),
            r matches Err(e) ==> *final(self) == *old(self),
            fetched is Err ==> r == Err::<i64, AddError>(AddError::FetchFailed),
            fetched is Ok && old(self).next_id_spec() == i64::MAX ==> r == Err::<i64, AddError>(
                AddError::Store(StoreError::IdsExhausted),
            ),
            fetched matches Ok(p) ==> old(self).next_id_spec() < i64::MAX ==> {
                &&& r == Ok::<i64, AddError>(old(self).next_id_spec() as i64)
                &&& !has_id(old(self)@, old(self).next_id_spec() as i64)
                &&& final(self)@.len() == old(self)@.len() + 1
                &&& final(self)@.drop_last() == old(self)@
                &&& final(self)@.last().id == old(self).next_id_spec()
                &&& final(self)@.last().chat_id == chat_id
                &&& final(self)@.last().company@ == carrier.name_spec()
                &&& final(self)@.last().tracking_number == tracking_number
                &&& final(self)@.last().added_timestamp == added_timestamp
                &&& final(self)@.last().last_updated_timestamp == p.last_time_spec()
                &&& !final(self)@.last().keep
            },
    {
        match fetched {
            Err(_) => Err(AddError::FetchFailed),
            Ok(p) => {
                let company = String::from_str(carrier.name());
                match self.add_tracker(
                    chat_id,
                    company,
                    tracking_number,
                    added_timestamp,
                    p.last_event_time(),
                ) {
                    Ok(id) => Ok(id),
                    Err(e) => Err(AddError::Store(e)),
                }
            },
        }
    }
}

impl TrackerStore {
    /// The completion state of tracker `id`, given the delivery status its
    /// latest snapshot showed.
    pub fn completion_state(&self, id: i64, status: DeliveryStatus) -> (r: CompletionState)
        requires
            self.wf(),
        ensures
            r == state_of(self@, id, status),
    {
        match self.find(id) {
            None => CompletionState::Deleted,
            Some(i) => {
                proof {
                    lemma_index_of_unique(self@, i as int);
                }
                if self.trackers[i].keep {
                    CompletionState::CompletedRetained
                } else {
                    match status {
                        DeliveryStatus::Completed => CompletionState::CompletedPendingDecision,
                        _ => CompletionState::Active,
                    }
                }
            },
        }
    }
}

/// Deletion is scoped to the owner: a delete by one subscriber never removes
/// a tracker that another subscriber owns.
pub proof fn lemma_delete_spares_other_subscribers(s: Seq<Tracker>, id: i64, chat_id: i64, t: Tracker)
    requires
        s.contains(t),
        t.chat_id != chat_id,
    ensures
        after_delete(s, id, chat_id).contains(t),
{
    broadcast use vstd::seq_lib::group_filter_ensures;
    let k = choose|k: int| 0 <= k < s.len() && s[k] == t;
    assert((|u: Tracker| !(u.id == id && u.chat_id == chat_id))(s[k]));
}

/// Filtering keeps ids unique and below the bound.
proof fn lemma_filter_keeps_wf(s: Seq<Tracker>, pred: spec_fn(Tracker) -> bool, bound: int)
    requires
        ids_unique(s),
        forall|i: int| 0 <= i < s.len() ==> 1 <= #[trigger] s[i].id < bound,
    ensures
        ids_unique(s.filter(pred)),
        forall|i: int| 0 <= i < s.filter(pred).len() ==> 1 <= #[trigger] s.filter(pred)[i].id < bound,
    decreases s.len(),
{
    reveal(Seq::filter);
    if s.len() > 0 {
        let rest = s.drop_last();
        lemma_filter_keeps_wf(rest, pred, bound);
        broadcast use vstd::seq_lib::group_filter_ensures;
        if pred(s.last()) {
            assert forall|i: int| 0 <= i < rest.filter(pred).len() implies #[trigger] rest.filter(pred)[i].id != s.last().id by {
                let x = rest.filter(pred)[i];
                assert(rest.filter(pred).contains(x));
                rest.lemma_filter_contains_rev(pred, x);
                let k = choose|k: int| 0 <= k < rest.len() && rest[k] == x;
                assert(s[k] == rest[k]);
                assert(s[s.len() - 1] == s.last());
            }
        }
        assert forall|i: int| 0 <= i < s.filter(pred).len() implies 1 <= #[trigger] s.filter(pred)[i].id < bound by {
            if i < rest.filter(pred).len() {
                assert(s.filter(pred)[i] == rest.filter(pred)[i]);
            }
        }
    }
}

/// Replacing the one tracker with a given id at its position is an update by id.
proof fn lemma_update_at_unique(s: Seq<Tracker>, i: int, f: spec_fn(Tracker) -> Tracker)
    requires
        0 <= i < s.len(),
        ids_unique(s),
    ensures
        s.update(i, f(s[i])) =~= update_where(s, s[i].id, f),
{
}

} // verus!
