use vstd::prelude::*;

use crate::model::{DeliveryStatus, FetchError, Parcel, TrackingEvent};
use crate::store::Tracker;

verus! {

/// What one poll of one tracker calls for, in the order it must be carried out:
/// first store the new last observed time, then tell the subscriber about the
/// new event, then ask about a completed parcel.
#[derive(Debug, PartialEq, Eq)]
pub struct Evaluation {
    /// The new last observed event time, when the snapshot is newer.
    pub advance_to: Option<i64>,
    /// The latest event, to be sent to the subscriber.
    pub update: Option<TrackingEvent>,
    /// Whether to ask the subscriber to keep or remove the completed parcel.
    pub prompt: bool,
}

/// The snapshot holds an event later than any the subscriber was told of.
pub open spec fn is_newer(t: Tracker, p: Parcel) -> bool {
    p.last_time_spec() > t.last_updated_timestamp
}

/// The last observed time to store: the snapshot's, when it is newer.
pub open spec fn advance_of(t: Tracker, fetched: Result<Parcel, FetchError>) -> Option<i64> {
    match fetched {
        Ok(p) => if is_newer(t, p) {
            Some(p.last_time_spec() as i64)
        } else {
            None
        },
        Err(_) => None,
    }
}

/// The event to announce: the latest one, when the snapshot is newer and has events.
pub open spec fn update_of(t: Tracker, fetched: Result<Parcel, FetchError>) -> Option<TrackingEvent> {
    match fetched {
        Ok(p) => if is_newer(t, p) && p.events@.len() > 0 {
            Some(p.events@.last())
        } else {
            None
        },
        Err(_) => None,
    }
}

/// A completion prompt is due whenever the parcel is completed and the
/// tracker not retained, however often that was asked before.
pub open spec fn prompt_of(t: Tracker, fetched: Result<Parcel, FetchError>) -> bool {
    match fetched {
        Ok(p) => p.status_spec() == DeliveryStatus::Completed && !t.keep,
        Err(_) => false,
    }
}

/// The tracker after one poll: only the last observed time can move.
pub open spec fn after(t: Tracker, fetched: Result<Parcel, FetchError>) -> Tracker {
    match advance_of(t, fetched) {
        Some(time) => Tracker { last_updated_timestamp: time, ..t },
        None => t,
    }
}

/// The tracker after a run of polls, one fetch outcome each, oldest first.
pub open spec fn run(t: Tracker, fetches: Seq<Result<Parcel, FetchError>>) -> Tracker
    decreases fetches.len(),
{
    if fetches.len() == 0 {
        t
    } else {
        after(run(t, fetches.drop_last()), fetches.last())
    }
}

/// Decides what one poll of `tracker` calls for, given what the fetch
/// returned, and advances the tracker's last observed time.
pub fn evaluate(tracker: &mut Tracker, fetched: &Result<Parcel, FetchError>) -> (r: Evaluation)
    ensures
        *final(tracker) == after(*old(tracker), *fetched),
        r.advance_to == advance_of(*old(tracker), *fetched),
        r.update == update_of(*old(tracker), *fetched),
        r.prompt == prompt_of(*old(tracker), *fetched),
{
    match fetched {
        Err(_) => Evaluation { advance_to: None, update: None, prompt: false },
        Ok(p) => {
            let latest = p.last_event_time();
            let mut advance_to = None;
            let mut update = None;
            if latest > tracker.last_updated_timestamp {
                tracker.last_updated_timestamp = latest;
                advance_to = Some(latest);
                match p.last_event() {
                    Some(ev) => {
                        update = Some(ev.clone());
                    },
                    None => {},
                }
            }
            let prompt = match p.delivery_status() {
                DeliveryStatus::Completed => !tracker.keep,
                _ => false,
            };
            Evaluation { advance_to, update, prompt }
        },
    }
}

/// One poll never lowers the last observed time, and leaves everything else
/// of the tracker as it was.
pub proof fn lemma_after_step(t: Tracker, fetched: Result<Parcel, FetchError>)
    ensures
        after(t, fetched).last_updated_timestamp >= t.last_updated_timestamp,
        after(t, fetched) == (Tracker { last_updated_timestamp: after(t, fetched).last_updated_timestamp, ..t }),
{
}

/// Polling an unchanged snapshot a second time never notifies again: after the
/// first poll the snapshot is no longer newer.
pub proof fn lemma_second_poll_is_silent(t: Tracker, fetched: Result<Parcel, FetchError>)
    ensures
        advance_of(after(t, fetched), fetched) is None,
        update_of(after(t, fetched), fetched) is None,
        after(after(t, fetched), fetched) == after(t, fetched),
{
}

/// The last observed time never decreases along any run of polls.
pub proof fn lemma_last_observed_monotone(
    t: Tracker,
    fetches: Seq<Result<Parcel, FetchError>>,
    i: int,
    j: int,
)
    requires
        0 <= i <= j <= fetches.len(),
    ensures
        run(t, fetches.take(i)).last_updated_timestamp <= run(
            t,
            fetches.take(j),
        ).last_updated_timestamp,
    decreases j - i,
{
    if i < j {
        lemma_last_observed_monotone(t, fetches, i, j - 1);
        assert(fetches.take(j).drop_last() =~= fetches.take(j - 1));
        lemma_after_step(run(t, fetches.take(j - 1)), fetches.take(j).last());
    }
}

/// A run of polls keeps the retain flag, the id and the subscriber.
pub proof fn lemma_run_keeps_identity(t: Tracker, fetches: Seq<Result<Parcel, FetchError>>)
    ensures
        run(t, fetches).keep == t.keep,
        run(t, fetches).id == t.id,
        run(t, fetches).chat_id == t.chat_id,
    decreases fetches.len(),
{
    if fetches.len() > 0 {
        lemma_run_keeps_identity(t, fetches.drop_last());
    }
}

/// A retained tracker is never prompted, however many completed snapshots
/// its polls return.
pub proof fn lemma_retained_never_prompted(t: Tracker, fetches: Seq<Result<Parcel, FetchError>>)
    requires
        t.keep,
    ensures
        forall|i: int|
            0 <= i < fetches.len() ==> !prompt_of(#[trigger] run(t, fetches.take(i)), fetches[i]),
{
    assert forall|i: int| 0 <= i < fetches.len() implies !prompt_of(
        #[trigger] run(t, fetches.take(i)),
        fetches[i],
    ) by {
        lemma_run_keeps_identity(t, fetches.take(i));
    }
}

/// A failed fetch changes nothing and sends nothing.
pub proof fn lemma_failed_fetch_is_inert(t: Tracker, e: FetchError)
    ensures
        after(t, Err(e)) == t,
        advance_of(t, Err(e)) is None,
        update_of(t, Err(e)) is None,
        !prompt_of(t, Err(e)),
{
}

} // verus!
