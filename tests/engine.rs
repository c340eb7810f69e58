use parcel_tracker::{
    evaluate, AddError, Carrier, CompletionAction, CompletionChoice, CompletionState, DeliveryStatus, EventTime,
    FetchError, Parcel, StoreError, Tracker, TrackerStore, TrackingEvent,
};

fn event(secs: i64, status: &str) -> TrackingEvent {
    TrackingEvent {
        time: EventTime { secs, offset: 32400, text: format!("t{}", secs) },
        status: status.to_string(),
        location: "Seoul Hub".to_string(),
        detail: String::new(),
    }
}

fn parcel(carrier: Carrier, events: Vec<TrackingEvent>) -> Parcel {
    Parcel {
        carrier,
        tracking_number: "123456789".to_string(),
        sender: "Kim".to_string(),
        receiver: "Lee".to_string(),
        item: "Book".to_string(),
        events,
    }
}

fn tracker(last: i64, keep: bool) -> Tracker {
    Tracker {
        id: 1,
        chat_id: 10,
        company: "CJ대한통운".to_string(),
        tracking_number: "123456789".to_string(),
        added_timestamp: 0,
        last_updated_timestamp: last,
        keep,
    }
}

/// A store holding one tracker added at t=0 whose snapshot had lastEventTime=100.
fn store_with_one() -> (TrackerStore, i64) {
    let mut store = TrackerStore::new();
    let first = Ok(parcel(Carrier::CjLogistics, vec![event(100, "집화처리")]));
    let id = store
        .add_from_snapshot(10, Carrier::CjLogistics, "123456789".to_string(), 0, &first)
        .unwrap();
    (store, id)
}

#[test]
fn unchanged_snapshot_sends_nothing() {
    let (mut store, id) = store_with_one();
    let same = Ok(parcel(Carrier::CjLogistics, vec![event(100, "집화처리")]));
    let e = store.observe(id, &same).unwrap();
    assert_eq!(e.advance_to, None);
    assert_eq!(e.update, None);
    assert!(!e.prompt);
    assert_eq!(store.list_all_tracker()[0].last_updated_timestamp, 100);
}

#[test]
fn newer_snapshot_notifies_latest_event() {
    let (mut store, id) = store_with_one();
    let newer = Ok(parcel(
        Carrier::CjLogistics,
        vec![event(100, "집화처리"), event(200, "InTransit")],
    ));
    let e = store.observe(id, &newer).unwrap();
    assert_eq!(e.advance_to, Some(200));
    assert_eq!(e.update, Some(event(200, "InTransit")));
    assert!(!e.prompt);
    assert_eq!(store.list_all_tracker()[0].last_updated_timestamp, 200);
}

#[test]
fn completed_prompts_until_kept() {
    let (mut store, id) = store_with_one();
    let done = Ok(parcel(
        Carrier::CjLogistics,
        vec![event(100, "집화처리"), event(300, "배송완료")],
    ));
    let e = store.observe(id, &done).unwrap();
    assert!(e.prompt);
    assert_eq!(e.update, Some(event(300, "배송완료")));
    // Unretained and still completed: the prompt repeats.
    assert!(store.observe(id, &done).unwrap().prompt);
    store.confirm_completion(CompletionChoice { tracker_id: id, action: CompletionAction::Keep }, 10);
    assert!(store.list_all_tracker()[0].keep);
    for _ in 0..3 {
        let e = store.observe(id, &done).unwrap();
        assert!(!e.prompt);
        assert_eq!(e.update, None);
    }
}

#[test]
fn confirmed_delete_removes_tracker() {
    let (mut store, id) = store_with_one();
    let done = Ok(parcel(Carrier::CjLogistics, vec![event(300, "배송완료")]));
    assert!(store.observe(id, &done).unwrap().prompt);
    store.confirm_completion(CompletionChoice { tracker_id: id, action: CompletionAction::Delete }, 10);
    assert!(store.list_all_tracker().is_empty());
    assert!(!store.contains(id));
    assert_eq!(store.observe(id, &done), None);
}

#[test]
fn second_evaluation_of_same_snapshot_is_silent() {
    let mut t = tracker(50, false);
    let p = Ok(parcel(Carrier::CjLogistics, vec![event(80, "간선상차")]));
    let first = evaluate(&mut t, &p);
    assert_eq!(first.advance_to, Some(80));
    assert!(first.update.is_some());
    let second = evaluate(&mut t, &p);
    assert_eq!(second.advance_to, None);
    assert_eq!(second.update, None);
    assert_eq!(t.last_updated_timestamp, 80);
}

#[test]
fn last_observed_time_never_decreases() {
    let mut t = tracker(500, false);
    let older = Ok(parcel(Carrier::CjLogistics, vec![event(400, "간선하차")]));
    let e = evaluate(&mut t, &older);
    assert_eq!(e.advance_to, None);
    assert_eq!(t.last_updated_timestamp, 500);
    let newer = Ok(parcel(Carrier::CjLogistics, vec![event(600, "배송출발")]));
    evaluate(&mut t, &newer);
    assert_eq!(t.last_updated_timestamp, 600);
    evaluate(&mut t, &older);
    assert_eq!(t.last_updated_timestamp, 600);
}

#[test]
fn retained_tracker_gets_no_prompt() {
    let mut t = tracker(0, true);
    for secs in [10, 20, 30] {
        let done = Ok(parcel(Carrier::Epost, vec![event(secs, "배달완료")]));
        let e = evaluate(&mut t, &done);
        assert!(!e.prompt);
        assert_eq!(e.advance_to, Some(secs));
    }
}

#[test]
fn fetch_errors_change_nothing() {
    for err in [FetchError::SourceError, FetchError::NotFound] {
        let mut t = tracker(100, false);
        let e = evaluate(&mut t, &Err(err));
        assert_eq!(e.advance_to, None);
        assert_eq!(e.update, None);
        assert!(!e.prompt);
        assert_eq!(t, tracker(100, false));
    }
}

#[test]
fn delete_is_scoped_to_the_owner() {
    let mut store = TrackerStore::new();
    let a = store.add_tracker(1, "우체국".to_string(), "A".to_string(), 0, 0).unwrap();
    let b = store.add_tracker(2, "우체국".to_string(), "B".to_string(), 0, 0).unwrap();
    store.delete_tracker(a, 2);
    assert!(store.contains(a));
    assert!(store.contains(b));
    store.delete_tracker(a, 1);
    assert!(!store.contains(a));
    assert!(store.contains(b));
    // Deleting an unknown id is a no-op.
    store.delete_tracker(99, 2);
    assert_eq!(store.list_all_tracker().len(), 1);
}

#[test]
fn status_follows_from_events_alone() {
    let events = vec![event(1, "접수"), event(2, "배달완료")];
    let p = parcel(Carrier::Epost, events.clone());
    let mut q = parcel(Carrier::Epost, events);
    q.sender = "Park".to_string();
    q.item = "Shoes".to_string();
    assert_eq!(p.delivery_status(), DeliveryStatus::Completed);
    assert_eq!(p.delivery_status(), q.delivery_status());
    assert_eq!(p.last_event_time(), q.last_event_time());
}

#[test]
fn empty_history_is_unknown_at_epoch() {
    let p = parcel(Carrier::CjLogistics, vec![]);
    assert_eq!(p.delivery_status(), DeliveryStatus::Unknown);
    assert_eq!(p.last_event_time(), 0);
    assert_eq!(p.last_event(), None);
}

#[test]
fn empty_history_newer_than_negative_time_advances_without_message() {
    let mut t = tracker(-5, false);
    let e = evaluate(&mut t, &Ok(parcel(Carrier::CjLogistics, vec![])));
    assert_eq!(e.advance_to, Some(0));
    assert_eq!(e.update, None);
    assert!(!e.prompt);
}

#[test]
fn in_progress_and_unknown_never_prompt() {
    let mut t = tracker(0, false);
    let moving = Ok(parcel(Carrier::CjLogistics, vec![event(5, "행낭포장")]));
    assert!(!evaluate(&mut t, &moving).prompt);
    let odd = Ok(parcel(Carrier::CjLogistics, vec![event(6, "반송")]));
    assert!(!evaluate(&mut t, &odd).prompt);
}

#[test]
fn add_from_snapshot_starts_at_snapshot_time() {
    let mut store = TrackerStore::new();
    let p = Ok(parcel(Carrier::Epost, vec![event(70, "접수"), event(90, "발송")]));
    let id = store
        .add_from_snapshot(5, Carrier::Epost, "E1".to_string(), 1000, &p)
        .unwrap();
    assert_eq!(id, 1);
    let all = store.list_all_tracker();
    assert_eq!(
        all[0],
        Tracker {
            id: 1,
            chat_id: 5,
            company: "우체국".to_string(),
            tracking_number: "E1".to_string(),
            added_timestamp: 1000,
            last_updated_timestamp: 90,
            keep: false,
        }
    );
}

#[test]
fn add_from_failed_fetch_is_refused() {
    let mut store = TrackerStore::new();
    let r = store.add_from_snapshot(5, Carrier::Epost, "E1".to_string(), 0, &Err(FetchError::SourceError));
    assert_eq!(r, Err(AddError::FetchFailed));
    assert!(store.list_all_tracker().is_empty());
}

#[test]
fn ids_are_fresh_and_listing_is_per_subscriber() {
    let mut store = TrackerStore::new();
    let a = store.add_tracker(1, "우체국".to_string(), "A".to_string(), 0, 0).unwrap();
    let b = store.add_tracker(2, "우체국".to_string(), "B".to_string(), 0, 0).unwrap();
    let c = store.add_tracker(1, "CJ대한통운".to_string(), "C".to_string(), 0, 0).unwrap();
    assert_eq!((a, b, c), (1, 2, 3));
    let mine: Vec<i64> = store.list_tracker(1).iter().map(|t| t.id).collect();
    assert_eq!(mine, vec![1, 3]);
    assert!(store.list_tracker(3).is_empty());
}

#[test]
fn restore_checks_ids() {
    let mut store = TrackerStore::new();
    let mut t = tracker(0, false);
    t.id = 7;
    assert_eq!(store.restore(t.clone()), Ok(()));
    assert_eq!(store.restore(t.clone()), Err(StoreError::IdTaken));
    t.id = 0;
    assert_eq!(store.restore(t.clone()), Err(StoreError::IdOutOfRange));
    t.id = i64::MAX;
    assert_eq!(store.restore(t), Err(StoreError::IdOutOfRange));
    // New ids come after the restored one.
    let id = store.add_tracker(1, "우체국".to_string(), "X".to_string(), 0, 0).unwrap();
    assert_eq!(id, 8);
}

#[test]
fn ids_run_out_at_the_largest_id() {
    let mut store = TrackerStore::new();
    let mut t = tracker(0, false);
    t.id = i64::MAX - 1;
    store.restore(t).unwrap();
    let r = store.add_tracker(1, "우체국".to_string(), "X".to_string(), 0, 0);
    assert_eq!(r, Err(StoreError::IdsExhausted));
    let r = store.add_from_snapshot(
        1,
        Carrier::Epost,
        "X".to_string(),
        0,
        &Ok(parcel(Carrier::Epost, vec![])),
    );
    assert_eq!(r, Err(AddError::Store(StoreError::IdsExhausted)));
}

#[test]
fn update_operations_touch_one_tracker() {
    let mut store = TrackerStore::new();
    let a = store.add_tracker(1, "우체국".to_string(), "A".to_string(), 0, 10).unwrap();
    let b = store.add_tracker(1, "우체국".to_string(), "B".to_string(), 0, 20).unwrap();
    store.update_last_updated_timestamp(a, 55);
    store.update_keep(b, true);
    let all = store.list_all_tracker();
    assert_eq!((all[0].last_updated_timestamp, all[0].keep), (55, false));
    assert_eq!((all[1].last_updated_timestamp, all[1].keep), (20, true));
}

#[test]
fn completion_states_follow_the_workflow() {
    let (mut store, id) = store_with_one();
    assert_eq!(store.completion_state(id, DeliveryStatus::InProgress), CompletionState::Active);
    assert_eq!(
        store.completion_state(id, DeliveryStatus::Completed),
        CompletionState::CompletedPendingDecision
    );
    store.confirm_completion(CompletionChoice { tracker_id: id, action: CompletionAction::Keep }, 10);
    assert_eq!(
        store.completion_state(id, DeliveryStatus::Completed),
        CompletionState::CompletedRetained
    );
    // A retained tracker still gets ordinary updates.
    let newer = Ok(parcel(Carrier::CjLogistics, vec![event(100, "집화처리"), event(400, "배송완료")]));
    let e = store.observe(id, &newer).unwrap();
    assert_eq!(e.update, Some(event(400, "배송완료")));
    assert!(!e.prompt);
    // Someone else's delete leaves it; the owner's delete ends it.
    store.confirm_completion(CompletionChoice { tracker_id: id, action: CompletionAction::Delete }, 11);
    assert_eq!(
        store.completion_state(id, DeliveryStatus::Completed),
        CompletionState::CompletedRetained
    );
    store.delete_tracker(id, 10);
    assert_eq!(store.completion_state(id, DeliveryStatus::Completed), CompletionState::Deleted);
}
