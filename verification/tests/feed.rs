use videocall::feed_stream::{
    feed_change_to_sse_event, next_feed_event, FeedChange, FeedChangeReason, FeedSignal,
    FEED_CHANGED_EVENT, KEEPALIVE_SECONDS,
};

#[test]
fn maps_change_to_named_event_with_json_data() {
    let change = FeedChange::new("standup-42", FeedChangeReason::Joined);
    let event = feed_change_to_sse_event(&change);
    assert_eq!(event.event, "feed-changed");
    assert_eq!(event.event, FEED_CHANGED_EVENT);
    assert_eq!(event.data, r#"{"meeting_id":"standup-42","reason":"joined"}"#);
}

#[test]
fn refresh_change_serializes_to_refresh_event() {
    let event = feed_change_to_sse_event(&FeedChange::refresh());
    assert_eq!(event.event, FEED_CHANGED_EVENT);
    assert_eq!(event.data, r#"{"meeting_id":"","reason":"refresh"}"#);
}

#[test]
fn stream_forwards_published_change() {
    let signal = FeedSignal::Change(FeedChange::new("room-1", FeedChangeReason::Created));
    let event = next_feed_event(&signal).expect("stream yields an item");
    assert_eq!(event.data, r#"{"meeting_id":"room-1","reason":"created"}"#);
}

#[test]
fn stream_maps_lagged_to_refresh() {
    let event = next_feed_event(&FeedSignal::Lagged(1)).expect("stream yields after lag");
    assert_eq!(event.data, r#"{"meeting_id":"","reason":"refresh"}"#);
}

#[test]
fn stream_ends_on_closed() {
    assert!(
        next_feed_event(&FeedSignal::Closed).is_none(),
        "closed sender must end the stream, not error it"
    );
}

#[test]
fn names_of_reasons() {
    for (reason, name) in [
        (FeedChangeReason::Created, "created"),
        (FeedChangeReason::Joined, "joined"),
        (FeedChangeReason::BecameIdle, "became_idle"),
        (FeedChangeReason::Ended, "ended"),
        (FeedChangeReason::ParticipantLeft, "participant_left"),
        (FeedChangeReason::Refresh, "refresh"),
    ] {
        assert_eq!(reason.as_str(), name);
    }
    assert_eq!(KEEPALIVE_SECONDS, 15);
}

#[test]
fn meeting_names_with_quotes_are_read_back() {
    let event = feed_change_to_sse_event(&FeedChange::new("a\"b\n", FeedChangeReason::Ended));
    let v: serde_json::Value = serde_json::from_str(&event.data).unwrap();
    assert_eq!(v["meeting_id"].as_str(), Some("a\"b\n"));
    assert_eq!(v["reason"].as_str(), Some("ended"));
}
