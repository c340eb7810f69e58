use vstd::prelude::*;

use crate::model::TrackingEvent;

verus! {

/// The message announcing a new event: its time, status and location, and
/// its detail when the carrier gave one.
pub open spec fn update_text(ev: TrackingEvent) -> Seq<char> {
    "New update for your package!\nTime: "@ + ev.time.text@ + "\nStatus: "@ + ev.status@
        + "\nLocation: "@ + ev.location@ + if ev.detail@.len() == 0 {
        Seq::<char>::empty()
    } else {
        "\nDetail: "@ + ev.detail@
    }
}

/// Writes the message announcing `ev` to its subscriber.
pub fn update_message(ev: &TrackingEvent) -> (r: String)
    ensures
        r@ == update_text(*ev),
{
    let mut text = String::from_str("New update for your package!\nTime: ");
    text.append(ev.time.text.as_str());
    text.append("\nStatus: ");
    text.append(ev.status.as_str());
    text.append("\nLocation: ");
    text.append(ev.location.as_str());
    if !ev.detail.as_str().is_empty() {
        text.append("\nDetail: ");
        text.append(ev.detail.as_str());
    }
    proof {
        if ev.detail@.len() == 0 {
            assert(text@ =~= update_text(*ev));
        }
    }
    text
}

/// The question sent while a completed, unretained parcel is still tracked.
pub open spec fn prompt_text() -> Seq<char> {
    "One of your trackers has been marked as completed. Do you want to remove it?"@
}

pub fn completion_prompt() -> (r: &'static str)
    ensures
        r@ == prompt_text(),
{
    "One of your trackers has been marked as completed. Do you want to remove it?"
}

} // verus!
