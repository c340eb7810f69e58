use vstd::prelude::*;

use crate::carrier::Carrier;
use crate::time::EventTime;

verus! {

/// The delivery class of a parcel, derived from its latest event.
#[derive(Clone, Copy, Debug, PartialEq, Eq, Structural)]
pub enum DeliveryStatus {
    InProgress,
    Completed,
    Unknown,
}

/// One entry of a carrier's tracking history.
#[derive(Debug, PartialEq, Eq)]
pub struct TrackingEvent {
    pub time: EventTime,
    /// The carrier's own status label.
    pub status: String,
    pub location: String,
    pub detail: String,
}

impl Clone for TrackingEvent {
    fn clone(&self) -> (r: Self)
        ensures
            r == *self,
    {
        TrackingEvent {
            time: self.time.clone(),
            status: self.status.clone(),
            location: self.location.clone(),
            detail: self.detail.clone(),
        }
    }
}

/// Why a fetch produced no snapshot.
#[derive(Clone, Copy, Debug, PartialEq, Eq, Structural)]
pub enum FetchError {
    /// The carrier says the tracking number does not exist.
    NotFound,
    /// Transport failure, malformed response or a missing field.
    SourceError,
}

/// Events are in ascending order of time; equal times may repeat.
pub open spec fn chronological(events: Seq<TrackingEvent>) -> bool {
    forall|i: int, j: int|
        0 <= i < j < events.len() ==> #[trigger] events[i].time.secs <= #[trigger] events[j].time.secs
}

/// The delivery class of a history: the carrier's class of the latest label,
/// `Unknown` when there is no event.
pub open spec fn status_of(carrier: Carrier, events: Seq<TrackingEvent>) -> DeliveryStatus {
    if events.len() == 0 {
        DeliveryStatus::Unknown
    } else {
        carrier.classify_spec(events.last().status@)
    }
}

/// The timestamp of the latest event, the epoch when there is none.
pub open spec fn last_time_of(events: Seq<TrackingEvent>) -> int {
    if events.len() == 0 {
        0
    } else {
        events.last().time.secs as int
    }
}

/// A snapshot of one parcel, as one fetch produced it. The delivery status and
/// the last event time are not stored: they are always computed from `events`.
#[derive(Debug, PartialEq, Eq)]
pub struct Parcel {
    pub carrier: Carrier,
    pub tracking_number: String,
    pub sender: String,
    pub receiver: String,
    pub item: String,
    /// Chronological, oldest first.
    pub events: Vec<TrackingEvent>,
}

impl Parcel {
    pub open spec fn status_spec(&self) -> DeliveryStatus {
        status_of(self.carrier, self.events@)
    }

    pub open spec fn last_time_spec(&self) -> int {
        last_time_of(self.events@)
    }

    pub fn delivery_status(&self) -> (r: DeliveryStatus)
        ensures
            r == self.status_spec(),
    {
        if self.events.len() == 0 {
            DeliveryStatus::Unknown
        } else {
            let last = &self.events[self.events.len() - 1];
            self.carrier.classify(last.status.as_str())
        }
    }

    /// Seconds since the epoch of the latest event, `0` for an empty history.
    pub fn last_event_time(&self) -> (r: i64)
        ensures
            r as int == self.last_time_spec(),
    {
        if self.events.len() == 0 {
            0
        } else {
            self.events[self.events.len() - 1].time.secs
        }
    }

    /// The latest event, if any.
    pub fn last_event(&self) -> (r: Option<&TrackingEvent>)
        ensures
            self.events@.len() == 0 ==> r is None,
            self.events@.len() > 0 ==> r == Some(&self.events@.last()),
    {
        if self.events.len() == 0 {
            None
        } else {
            Some(&self.events[self.events.len() - 1])
        }
    }
}

/// The delivery status depends on the carrier and the events alone: two
/// snapshots of one carrier with the same events have the same status and the
/// same last event time, whatever their other fields hold.
pub proof fn lemma_status_determined_by_events(p: Parcel, q: Parcel)
    requires
        p.carrier == q.carrier,
        p.events@ == q.events@,
    ensures
        p.status_spec() == q.status_spec(),
        p.last_time_spec() == q.last_time_spec(),
{
}

} // verus!
