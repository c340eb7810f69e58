use parcel_tracker::{
    completion_prompt, update_message, CompletionAction, CompletionChoice, EventTime,
    TrackingEvent,
};

fn event(detail: &str) -> TrackingEvent {
    TrackingEvent {
        time: EventTime { secs: 0, offset: 32_400, text: "2024-01-02 10:00:00 +09:00".to_string() },
        status: "배송출발".to_string(),
        location: "Daejeon".to_string(),
        detail: detail.to_string(),
    }
}

#[test]
fn update_message_with_detail() {
    assert_eq!(
        update_message(&event("out for delivery")),
        "New update for your package!\nTime: 2024-01-02 10:00:00 +09:00\nStatus: 배송출발\nLocation: Daejeon\nDetail: out for delivery"
    );
}

#[test]
fn update_message_without_detail() {
    assert_eq!(
        update_message(&event("")),
        "New update for your package!\nTime: 2024-01-02 10:00:00 +09:00\nStatus: 배송출발\nLocation: Daejeon"
    );
}

#[test]
fn prompt_text_asks_for_removal() {
    assert_eq!(
        completion_prompt(),
        "One of your trackers has been marked as completed. Do you want to remove it?"
    );
}

fn choice(id: i64, action: CompletionAction) -> CompletionChoice {
    CompletionChoice { tracker_id: id, action }
}

#[test]
fn choices_encode_as_tag_and_decimal_id() {
    assert_eq!(choice(42, CompletionAction::Keep).encode(), "keep:42");
    assert_eq!(choice(7, CompletionAction::Delete).encode(), "delete:7");
    assert_eq!(choice(0, CompletionAction::Keep).encode(), "keep:0");
    assert_eq!(choice(-15, CompletionAction::Delete).encode(), "delete:-15");
    assert_eq!(
        choice(i64::MIN, CompletionAction::Keep).encode(),
        "keep:-9223372036854775808"
    );
    assert_eq!(
        choice(i64::MAX, CompletionAction::Delete).encode(),
        "delete:9223372036854775807"
    );
}

#[test]
fn choices_decode_back() {
    for id in [1, 42, 0, -1, 1_000_000, i64::MIN, i64::MAX] {
        for action in [CompletionAction::Keep, CompletionAction::Delete] {
            let c = choice(id, action);
            assert_eq!(CompletionChoice::decode(&c.encode()), Some(c));
        }
    }
}

#[test]
fn malformed_choices_are_rejected() {
    for text in [
        "",
        "keep:",
        "keep:042",
        "keep:-0",
        "keep:+4",
        "keep: 4",
        "keep:4x",
        "remove:4",
        "Keep:4",
        "delete:-",
        "42",
        "-42",
        "keep:9223372036854775808",
        "delete:-9223372036854775809",
        "keep:99999999999999999999999",
    ] {
        assert_eq!(CompletionChoice::decode(text), None, "{}", text);
    }
}
