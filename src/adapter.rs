use vstd::prelude::*;

use crate::carrier::Carrier;
use crate::model::{chronological, FetchError, Parcel, TrackingEvent};
use crate::time::{parse_time, parsed_time};

verus! {

/// One history row as read from a carrier's response, before normalization:
/// the local date and time of day as the carrier writes them, and the other
/// fields verbatim. `None` stands for a field the response lacks.
#[derive(Debug, PartialEq, Eq)]
pub struct RawEvent {
    pub date: Option<String>,
    pub time: Option<String>,
    pub status: Option<String>,
    pub location: Option<String>,
    pub detail: Option<String>,
}

/// The fields of a parcel's header as read from a carrier's response.
#[derive(Debug, PartialEq, Eq)]
pub struct RawHeader {
    pub tracking_number: Option<String>,
    pub sender: Option<String>,
    pub receiver: Option<String>,
    pub item: Option<String>,
}

/// A field's text, empty when the field is missing.
pub open spec fn text_of(field: Option<String>) -> Seq<char> {
    match field {
        Some(s) => s@,
        None => Seq::<char>::empty(),
    }
}

fn text_or_empty(field: &Option<String>) -> (r: String)
    ensures
        r@ == text_of(*field),
{
    match field {
        Some(s) => s.clone(),
        None => String::new(),
    }
}

impl Carrier {
    /// The UTC offset the carrier's local times are written in.
    pub open spec fn offset_suffix_spec(self) -> Seq<char> {
        " +0900"@
    }

    pub fn offset_suffix(&self) -> (r: &'static str)
        ensures
            r@ == self.offset_suffix_spec(),
    {
        " +0900"
    }

    /// Whether a row without a status or a location is malformed. Where it
    /// is not, a missing status, location or detail is empty.
    pub open spec fn labels_required(self) -> bool {
        self == Carrier::Epost
    }

    /// Whether a header without a tracking number is malformed.
    pub open spec fn number_required(self) -> bool {
        self == Carrier::Epost
    }

    /// The row has every field the carrier requires.
    pub open spec fn complete(self, raw: RawEvent) -> bool {
        &&& raw.date is Some
        &&& raw.time is Some
        &&& self.labels_required() ==> raw.status is Some && raw.location is Some
    }

    /// The zoned timestamp text of a raw row: date, a space, time, offset.
    pub open spec fn time_text(self, raw: RawEvent) -> Seq<char> {
        text_of(raw.date) + " "@ + text_of(raw.time) + self.offset_suffix_spec()
    }

    /// Whether the row is complete and its timestamp reads in the carrier's format.
    pub open spec fn readable(self, raw: RawEvent) -> bool {
        self.complete(raw) && parsed_time(self.time_text(raw), self.time_format_spec()) is Some
    }

    /// `ev` is the normalized form of `raw`: its time is what the row's
    /// timestamp text reads as, and the texts are carried over unchanged.
    pub open spec fn normalizes(self, raw: RawEvent, ev: TrackingEvent) -> bool {
        &&& parsed_time(self.time_text(raw), self.time_format_spec()) == Some(
            (ev.time.secs as int, ev.time.offset as int, ev.time.text@),
        )
        &&& ev.status@ == text_of(raw.status)
        &&& ev.location@ == text_of(raw.location)
        &&& ev.detail@ == text_of(raw.detail)
    }

    /// The Unix timestamp a readable row's time reads as.
    pub open spec fn row_secs(self, raw: RawEvent) -> int {
        parsed_time(self.time_text(raw), self.time_format_spec())->Some_0.0
    }

    /// Normalizes one raw row; a missing required field or a timestamp that
    /// does not read is a source error.
    pub fn normalize_event(&self, raw: &RawEvent) -> (r: Result<TrackingEvent, FetchError>)
        ensures
            r is Ok <==> self.readable(*raw),
            r matches Ok(ev) ==> self.normalizes(*raw, ev),
            r matches Err(e) ==> e == FetchError::SourceError,
    {
        let labels_required = match self {
            Carrier::Epost => true,
            Carrier::CjLogistics => false,
        };
        if raw.date.is_none() || raw.time.is_none() {
            return Err(FetchError::SourceError);
        }
        if labels_required && (raw.status.is_none() || raw.location.is_none()) {
            return Err(FetchError::SourceError);
        }
        let mut text = text_or_empty(&raw.date);
        text.append(" ");
        text.append(text_or_empty(&raw.time).as_str());
        text.append(self.offset_suffix());
        match parse_time(text.as_str(), self.time_format()) {
            Some(time) => Ok(TrackingEvent {
                time,
                status: text_or_empty(&raw.status),
                location: text_or_empty(&raw.location),
                detail: text_or_empty(&raw.detail),
            }),
            None => Err(FetchError::SourceError),
        }
    }

    /// Assembles a snapshot from a header and normalized events. The header
    /// must hold what the carrier requires and the events must be in
    /// ascending order of time; else the response is malformed.
    pub fn assemble(&self, header: &RawHeader, events: Vec<TrackingEvent>) -> (r: Result<Parcel, FetchError>)
        ensures
            r is Ok <==> (self.number_required() ==> header.tracking_number is Some) && chronological(events@),
            r matches Ok(p) ==> {
                &&& p.carrier == *self
                &&& p.tracking_number@ == text_of(header.tracking_number)
                &&& p.sender@ == text_of(header.sender)
                &&& p.receiver@ == text_of(header.receiver)
                &&& p.item@ == text_of(header.item)
                &&& p.events@ == events@
            },
            r matches Err(e) ==> e == FetchError::SourceError,
    {
        let number_required = match self {
            Carrier::Epost => true,
            Carrier::CjLogistics => false,
        };
        if number_required && header.tracking_number.is_none() {
            return Err(FetchError::SourceError);
        }
        let mut i: usize = 1;
        while i < events.len()
            invariant
                1 <= i,
                events@.len() == 0 || i <= events@.len(),
                forall|j: int, k: int|
                    0 <= j < k < i && k < events@.len() ==> #[trigger] events@[j].time.secs
                        <= #[trigger] events@[k].time.secs,
            decreases events@.len() - i,
        {
            if events[i].time.secs < events[i - 1].time.secs {
                return Err(FetchError::SourceError);
            }
            proof {
                assert forall|j: int| 0 <= j < i implies #[trigger] events@[j].time.secs
                    <= events@[i as int].time.secs by {
                    if j < i - 1 {
                        assert(events@[j].time.secs <= events@[i - 1].time.secs);
                    }
                }
            }
            i = i + 1;
        }
        Ok(Parcel {
            carrier: *self,
            tracking_number: text_or_empty(&header.tracking_number),
            sender: text_or_empty(&header.sender),
            receiver: text_or_empty(&header.receiver),
            item: text_or_empty(&header.item),
            events,
        })
    }

    /// Builds the canonical snapshot from the fields read off the carrier's
    /// response: every row normalized, then assembled under the header.
    pub fn snapshot(&self, header: &RawHeader, rows: &Vec<RawEvent>) -> (r: Result<Parcel, FetchError>)
        ensures
            r is Ok <==> {
                &&& self.number_required() ==> header.tracking_number is Some
                &&& forall|i: int| 0 <= i < rows@.len() ==> self.readable(#[trigger] rows@[i])
                &&& forall|i: int, j: int|
                    0 <= i < j < rows@.len() ==> self.row_secs(#[trigger] rows@[i]) <= self.row_secs(
                        #[trigger] rows@[j],
                    )
            },
            r matches Ok(p) ==> {
                &&& p.carrier == *self
                &&& p.tracking_number@ == text_of(header.tracking_number)
                &&& p.sender@ == text_of(header.sender)
                &&& p.receiver@ == text_of(header.receiver)
                &&& p.item@ == text_of(header.item)
                &&& p.events@.len() == rows@.len()
                &&& forall|i: int|
                    0 <= i < rows@.len() ==> self.normalizes(#[trigger] rows@[i], p.events@[i])
                &&& chronological(p.events@)
            },
            r matches Err(e) ==> e == FetchError::SourceError,
    {
        let mut events: Vec<TrackingEvent> = Vec::new();
        let mut i: usize = 0;
        while i < rows.len()
            invariant
                i <= rows@.len(),
                events@.len() == i,
                forall|j: int| 0 <= j < i ==> self.readable(#[trigger] rows@[j]),
                forall|j: int| 0 <= j < i ==> self.normalizes(#[trigger] rows@[j], events@[j]),
            decreases rows@.len() - i,
        {
            match self.normalize_event(&rows[i]) {
                Ok(ev) => events.push(ev),
                Err(e) => {
                    return Err(e);
                },
            }
            i = i + 1;
        }
        proof {
            assert forall|j: int| 0 <= j < rows@.len() implies events@[j].time.secs == self.row_secs(
                #[trigger] rows@[j],
            ) by {
                assert(self.normalizes(rows@[j], events@[j]));
            }
        }
        let ghost normalized = events@;
        let r = self.assemble(header, events);
        proof {
            if !chronological(normalized) {
                let (j, k) = choose|j: int, k: int|
                    0 <= j < k < normalized.len() && !(normalized[j].time.secs <= normalized[k].time.secs);
                assert(self.row_secs(rows@[j]) > self.row_secs(rows@[k]));
            }
        }
        r
    }
}

} // verus!
