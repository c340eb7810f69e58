use vstd::prelude::*;

verus! {

/// An instant as a carrier reports it: seconds since the Unix epoch, the
/// carrier's UTC offset in seconds, and the instant written out in that offset.
#[derive(Debug, PartialEq, Eq)]
pub struct EventTime {
    pub secs: i64,
    pub offset: i32,
    pub text: String,
}

impl Clone for EventTime {
    fn clone(&self) -> (r: Self)
        ensures
            r == *self,
    {
        EventTime { secs: self.secs, offset: self.offset, text: self.text.clone() }
    }
}

/// What `chrono` makes of `text` read with the strftime pattern `format`:
/// `None` when it does not parse, else the Unix timestamp, the UTC offset in
/// seconds, and the instant displayed in that offset.
pub uninterp spec fn parsed_time(text: Seq<char>, format: Seq<char>) -> Option<(int, int, Seq<char>)>;

/// Relies on `chrono::DateTime::parse_from_str` to read a zoned timestamp, then
/// on `timestamp`, `FixedOffset::local_minus_utc` and `Display` to take the
/// result apart. A `FixedOffset` always lies strictly within one day.
#[verifier::external_body]
pub(crate) fn parse_time(text: &str, format: &str) -> (r: Option<EventTime>)
    ensures
        parsed_time(text@, format@) is None <==> r is None,
        r matches Some(t) ==> {
            &&& parsed_time(text@, format@) == Some((t.secs as int, t.offset as int, t.text@))
            &&& -86_400 < t.offset < 86_400
        },
{
    let parsed = chrono::DateTime::parse_from_str(text, format).ok()?;
    Some(EventTime {
        secs: parsed.timestamp(),
        offset: parsed.offset().local_minus_utc(),
        text: parsed.to_string(),
    })
}

} // verus!
