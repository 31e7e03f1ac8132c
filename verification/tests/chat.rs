use videocall::chat_message::{
    cap_messages, chat_message_with, initials, merge_delta_messages, message_text,
    parse_chat_message, ChatMessage, MAX_RETAINED_MESSAGES,
};
use videocall::chat_sidebar::{
    container_class, is_chat_near_bottom, item_class, ChatSession, DeltaEvent, DeltaFetch,
    ListContent, ScrollPosition, SendOrder,
};
use videocall::clock::{
    clock_time, event_time, format_elapsed, format_instant_at_offset, format_timestamp, UtcInstant,
    UtcOffset, FIRST_SECOND, LAST_SECOND,
};
use videocall::jmap::ChatMessageChanges;
use videocall::json::{parse_json, Json};

fn json(text: &str) -> Json {
    parse_json(text).expect("test JSON must parse")
}

fn msg(id: &str) -> ChatMessage {
    ChatMessage {
        id: id.to_string(),
        sender: "s".to_string(),
        initials: "S".to_string(),
        text: "t".to_string(),
        timestamp: "ts".to_string(),
        is_self: false,
    }
}

#[test]
fn cap_messages_noop_when_within_cap() {
    let mut list: Vec<ChatMessage> = (0..MAX_RETAINED_MESSAGES)
        .map(|i| msg(&i.to_string()))
        .collect();
    cap_messages(&mut list);
    assert_eq!(list.len(), MAX_RETAINED_MESSAGES);
    assert_eq!(list[0].id, "0");
}

#[test]
fn cap_messages_drops_oldest_keeps_newest() {
    let extra = 5;
    let mut list: Vec<ChatMessage> = (0..MAX_RETAINED_MESSAGES + extra)
        .map(|i| msg(&i.to_string()))
        .collect();
    cap_messages(&mut list);
    assert_eq!(list.len(), MAX_RETAINED_MESSAGES);
    assert_eq!(list[0].id, extra.to_string());
    assert_eq!(
        list[MAX_RETAINED_MESSAGES - 1].id,
        (MAX_RETAINED_MESSAGES + extra - 1).to_string()
    );
}

fn server_msg(id: &str, text: &str, is_self: bool) -> ChatMessage {
    ChatMessage {
        id: id.to_string(),
        sender: "Sender".to_string(),
        initials: "SE".to_string(),
        text: text.to_string(),
        timestamp: "ts".to_string(),
        is_self,
    }
}

#[test]
fn merge_delta_messages_dedups_already_present_server_id() {
    let mut list = vec![server_msg("m1", "hello", false)];
    let appended = merge_delta_messages(&mut list, vec![server_msg("m1", "hello", false)]);
    assert_eq!(list.len(), 1, "re-delivered server id must not duplicate");
    assert_eq!(list[0].id, "m1");
    assert!(!appended);
}

#[test]
fn merge_delta_messages_dedups_repeated_redelivery_to_one() {
    let mut list: Vec<ChatMessage> = Vec::new();
    for _ in 0..5 {
        merge_delta_messages(&mut list, vec![server_msg("dup", "same text", false)]);
    }
    assert_eq!(list.len(), 1, "five re-deliveries must render once");
}

#[test]
fn merge_delta_messages_appends_distinct_messages() {
    let mut list = vec![server_msg("m1", "a", false)];
    let appended = merge_delta_messages(
        &mut list,
        vec![server_msg("m2", "b", false), server_msg("m3", "c", false)],
    );
    assert_eq!(list.len(), 3);
    assert_eq!(list[1].id, "m2");
    assert_eq!(list[2].id, "m3");
    assert!(
        appended,
        "new messages from others must flip the badge flag"
    );
}

#[test]
fn merge_delta_messages_reconciles_optimistic_self_bubble_in_place() {
    let mut list = vec![server_msg("local-0", "my message", true)];
    let appended = merge_delta_messages(&mut list, vec![server_msg("srv-99", "my message", true)]);
    assert_eq!(list.len(), 1);
    assert_eq!(list[0].id, "srv-99");
    assert!(!appended);
}

#[test]
fn merge_delta_messages_self_echo_after_reconcile_is_idempotent() {
    let mut list = vec![server_msg("local-0", "my message", true)];
    merge_delta_messages(&mut list, vec![server_msg("srv-99", "my message", true)]);
    merge_delta_messages(&mut list, vec![server_msg("srv-99", "my message", true)]);
    assert_eq!(list.len(), 1);
    assert_eq!(list[0].id, "srv-99");
}

#[test]
fn merge_delta_messages_only_others_flip_badge_flag() {
    let mut list: Vec<ChatMessage> = Vec::new();
    let appended = merge_delta_messages(
        &mut list,
        vec![
            server_msg("s1", "mine", true),
            server_msg("o1", "theirs", false),
        ],
    );
    assert_eq!(list.len(), 2);
    assert!(
        appended,
        "presence of an other-authored message flips the flag"
    );
}

#[test]
fn initials_empty_string_returns_placeholder() {
    assert_eq!(initials(""), "?");
    assert_eq!(initials("   "), "?");
}

#[test]
fn initials_single_word_returns_first_letter_uppercased() {
    assert_eq!(initials("alice"), "A");
    assert_eq!(initials("Bob"), "B");
}

#[test]
fn initials_two_words_returns_two_letters_uppercased() {
    assert_eq!(initials("alice smith"), "AS");
    assert_eq!(initials("John Doe"), "JD");
}

#[test]
fn initials_three_words_uses_first_two_only() {
    assert_eq!(initials("alice marie smith"), "AM");
}

#[test]
fn initials_unicode_name_uses_unicode_uppercase() {
    let r = initials("élodie");
    assert_eq!(r, "É");
    let r2 = initials("élodie ñoño");
    assert_eq!(r2, "ÉÑ");
}

#[test]
fn message_text_returns_text_body_when_present() {
    let v = json(r#"{ "textBody": "hello world" }"#);
    assert_eq!(message_text(&v), "hello world");
}

#[test]
fn message_text_falls_back_when_missing() {
    let v = json(r#"{ "other": "x" }"#);
    assert_eq!(message_text(&v), "no content");
}

#[test]
fn message_text_falls_back_when_null() {
    let v = json(r#"{ "textBody": null }"#);
    assert_eq!(message_text(&v), "no content");
}

#[test]
fn message_text_falls_back_when_textbody_is_object() {
    let v = json(r#"{ "textBody": { "text": "nested" } }"#);
    assert_eq!(message_text(&v), "no content");
}

#[test]
fn format_instant_at_offset_renders_in_utc_when_offset_is_zero() {
    let instant = UtcInstant::from_rfc3339("2025-01-15T13:30:00Z").unwrap();
    let utc = UtcOffset::new(0).unwrap();
    let out = format_instant_at_offset(instant, utc);
    assert_eq!(out, "Wednesday, Jan 15 - 1:30 PM", "got: {}", out);
}

#[test]
fn format_instant_at_offset_converts_to_local_zone() {
    let instant = UtcInstant::from_rfc3339("2025-01-15T13:30:00Z").unwrap();
    let pacific = UtcOffset::new(-8 * 3600).unwrap();
    let out = format_instant_at_offset(instant, pacific);
    assert_eq!(out, "Wednesday, Jan 15 - 5:30 AM", "got: {}", out);
}

#[test]
fn format_instant_at_offset_rolls_date_back_across_midnight() {
    let instant = UtcInstant::from_rfc3339("2025-01-15T01:30:00Z").unwrap();
    let pacific = UtcOffset::new(-8 * 3600).unwrap();
    let out = format_instant_at_offset(instant, pacific);
    assert_eq!(out, "Tuesday, Jan 14 - 5:30 PM", "got: {}", out);
}

#[test]
fn format_timestamp_produces_nonempty_output_for_valid_rfc3339() {
    let out = format_timestamp("2025-01-15T13:30:00Z");
    assert!(
        out.contains("Jan 15") || out.contains("Jan 14"),
        "got: {}",
        out
    );
    assert_ne!(out, "2025-01-15T13:30:00Z", "should not fall back to raw");
}

#[test]
fn format_timestamp_returns_input_for_empty_string() {
    assert_eq!(format_timestamp(""), "");
}

#[test]
fn format_timestamp_returns_input_for_invalid_format() {
    assert_eq!(format_timestamp("not-a-date"), "not-a-date");
}

#[test]
fn parse_chat_message_valid_marks_self_when_sender_id_matches() {
    let v = json(
        r#"{
            "id": "m1",
            "from": { "displayName": "Alice Smith", "id": "user-1" },
            "sentAt": "2025-01-15T13:30:00Z",
            "textBody": "hi"
        }"#,
    );
    let me = Some("user-1".to_string());
    let msg = parse_chat_message(&v, &me);
    assert_eq!(msg.id, "m1");
    assert_eq!(msg.sender, "Alice Smith");
    assert_eq!(msg.initials, "AS");
    assert_eq!(msg.text, "hi");
    assert!(msg.is_self);
}

#[test]
fn parse_chat_message_marks_other_when_sender_id_differs() {
    let v = json(
        r#"{
            "id": "m2",
            "from": { "displayName": "Bob", "id": "user-2" },
            "sentAt": "2025-01-15T13:30:00Z",
            "textBody": "yo"
        }"#,
    );
    let me = Some("user-1".to_string());
    let msg = parse_chat_message(&v, &me);
    assert!(!msg.is_self);
}

#[test]
fn parse_chat_message_missing_fields_uses_defaults() {
    let v = json("{}");
    let msg = parse_chat_message(&v, &None);
    assert_eq!(msg.id, "");
    assert_eq!(msg.sender, "Unknown");
    assert_eq!(msg.initials, "U");
    assert_eq!(msg.text, "no content");
    assert!(!msg.is_self);
}

#[test]
fn parse_chat_message_falls_back_to_sender_id_field() {
    let v = json(
        r#"{
            "id": "m3",
            "from": { "displayName": "Carol" },
            "senderId": "user-7",
            "sentAt": "2025-01-15T13:30:00Z",
            "textBody": "hey"
        }"#,
    );
    let me = Some("user-7".to_string());
    let msg = parse_chat_message(&v, &me);
    assert!(msg.is_self);
}

#[test]
fn parse_chat_message_ignores_extra_fields() {
    let v = json(
        r#"{
            "id": "m4",
            "from": { "displayName": "Dan", "id": "user-9" },
            "sentAt": "2025-01-15T13:30:00Z",
            "textBody": "ok",
            "extraField": "ignored",
            "another": { "nested": true }
        }"#,
    );
    let msg = parse_chat_message(&v, &None);
    assert_eq!(msg.id, "m4");
    assert_eq!(msg.sender, "Dan");
    assert_eq!(msg.text, "ok");
}

#[test]
fn the_user_id_of_a_sender_is_taken_from_the_first_place() {
    let v = json(r#"{"from": {"userId": "u"}, "senderId": "s"}"#);
    let me = Some("u".to_string());
    assert!(chat_message_with(&v, &me, String::new()).is_self);
    let v = json(r#"{"from": {"id": "i", "userId": "u"}, "senderId": "s"}"#);
    assert!(!chat_message_with(&v, &me, String::new()).is_self);
    let v = json("[1, 2]");
    let m = chat_message_with(&v, &me, "now".to_string());
    assert_eq!((m.sender.as_str(), m.timestamp.as_str()), ("Unknown", "now"));
}

#[test]
fn initials_of_letters_with_long_upper_case() {
    assert_eq!(initials("ßeta ﬁn"), "SSFI");
    assert_eq!(initials("\u{2003}anna\u{a0}bell"), "AB");
}

#[test]
fn no_message_is_shown_twice_nor_lost() {
    let mut list = vec![server_msg("a", "1", false), server_msg("local-0", "x", true)];
    let news = vec![
        server_msg("b", "2", false),
        server_msg("a", "1", false),
        server_msg("c", "x", true),
        server_msg("b", "2", false),
        server_msg("d", "x", true),
    ];
    assert!(merge_delta_messages(&mut list, news.clone()));
    let ids: Vec<&str> = list.iter().map(|m| m.id.as_str()).collect();
    assert_eq!(ids, ["a", "c", "b", "d"]);
    assert!(!merge_delta_messages(&mut list, news));
    assert_eq!(list.len(), 4);
}

#[test]
fn messages_without_an_id_are_always_added() {
    let mut list = vec![msg("")];
    assert!(merge_delta_messages(&mut list, vec![msg("")]));
    assert_eq!(list.len(), 2);
}

#[test]
fn the_first_bubble_with_the_text_is_replaced() {
    let mut list = vec![
        server_msg("local-0", "hi", true),
        server_msg("local-1", "hi", true),
        server_msg("remote", "hi", true),
    ];
    merge_delta_messages(&mut list, vec![server_msg("s1", "hi", true)]);
    let ids: Vec<&str> = list.iter().map(|m| m.id.as_str()).collect();
    assert_eq!(ids, ["s1", "local-1", "remote"]);
}

#[test]
fn merging_caps_the_list() {
    let mut list: Vec<ChatMessage> = (0..MAX_RETAINED_MESSAGES)
        .map(|i| msg(&format!("old-{}", i)))
        .collect();
    merge_delta_messages(&mut list, vec![msg("n1"), msg("n2")]);
    assert_eq!(list.len(), MAX_RETAINED_MESSAGES);
    assert_eq!(list[0].id, "old-2");
    assert_eq!(list[MAX_RETAINED_MESSAGES - 1].id, "n2");
}

#[test]
fn points_in_time() {
    assert!(UtcInstant::new(0, 0).is_some());
    assert!(UtcInstant::new(0, 1_000_000_000).is_none());
    assert!(UtcInstant::new(59, 1_500_000_000).is_some());
    assert!(UtcInstant::new(-1, 1_500_000_000).is_some());
    assert!(UtcInstant::new(i64::MAX, 0).is_none());
    assert!(UtcInstant::new(i64::MIN, 0).is_none());
    assert!(UtcOffset::new(86_400).is_none());
    assert!(UtcOffset::new(-86_399).is_some());
    assert_eq!(
        UtcInstant::from_rfc3339("1970-01-01T00:01:00+00:01"),
        UtcInstant::new(0, 0)
    );
    assert_eq!(UtcInstant::from_rfc3339("1970-01-01"), None);
    let leap = UtcInstant::from_rfc3339("2016-12-31T23:59:60Z").unwrap();
    assert_eq!(
        format_instant_at_offset(leap, UtcOffset::utc()),
        "Saturday, Dec 31 - 11:59 PM"
    );
}

#[test]
fn every_year_that_can_be_read_can_be_shown() {
    for text in [
        "0000-01-01T00:00:00+23:59",
        "0000-01-01T00:00:00Z",
        "9999-12-31T23:59:60-23:59",
    ] {
        let t = UtcInstant::from_rfc3339(text).unwrap();
        for offset in [-86_399, 0, 86_399] {
            let shown = format_instant_at_offset(t, UtcOffset::new(offset).unwrap());
            assert!(!shown.is_empty());
        }
        assert_ne!(format_timestamp(text), text);
    }
}

#[test]
fn the_first_and_the_last_point_in_time() {
    assert_eq!(FIRST_SECOND, chrono::DateTime::<chrono::Utc>::MIN_UTC.timestamp());
    assert_eq!(LAST_SECOND, chrono::DateTime::<chrono::Utc>::MAX_UTC.timestamp());
    assert!(UtcInstant::new(FIRST_SECOND - 1, 0).is_none());
    assert!(UtcInstant::new(LAST_SECOND + 1, 0).is_none());
    for (secs, nanos) in [(FIRST_SECOND, 0), (LAST_SECOND, 1_999_999_999)] {
        let t = UtcInstant::new(secs, nanos).unwrap();
        for offset in [-86_399, 0, 86_399] {
            let zone = UtcOffset::new(offset).unwrap();
            assert!(!format_instant_at_offset(t, zone).is_empty());
            assert_eq!(event_time(t, zone, false).len(), 8);
        }
    }
    let first = UtcInstant::new(FIRST_SECOND, 0).unwrap();
    assert_eq!(event_time(first, UtcOffset::new(-1).unwrap(), false), "23:59:59");
}

#[test]
fn leap_seconds_and_odd_offsets() {
    let leap = UtcInstant::from_rfc3339("2016-12-31T23:59:60Z").unwrap();
    assert_eq!(event_time(leap, UtcOffset::utc(), true), "23:59:60 UTC");
    let odd = UtcOffset::new(-3_661).unwrap();
    assert_eq!(clock_time(leap, odd, false), "22:58:59 -01:01:01");
}

#[test]
fn times_of_events_and_clocks() {
    let t = UtcInstant::from_rfc3339("2025-01-15T13:30:05Z").unwrap();
    let east = UtcOffset::new(3600).unwrap();
    assert_eq!(event_time(t, east, false), "14:30:05");
    assert_eq!(event_time(t, east, true), "13:30:05 UTC");
    assert_eq!(clock_time(t, east, false), "14:30:05 +01:00");
    assert_eq!(clock_time(t, east, true), "13:30:05 UTC");
}

#[test]
fn durations() {
    assert_eq!(format_elapsed(0), "00:00");
    assert_eq!(format_elapsed(59), "00:59");
    assert_eq!(format_elapsed(3599), "59:59");
    assert_eq!(format_elapsed(3600), "1:00:00");
    assert_eq!(format_elapsed(100 * 3600 + 61), "100:01:01");
}

#[test]
fn a_fresh_panel_is_loading() {
    let s = ChatSession::new(false);
    assert!(s.is_loading);
    assert_eq!(s.content(), ListContent::Loading);
    assert_eq!(s.delta, DeltaFetch::Idle);
    assert!(!s.can_send());
}

#[test]
fn a_conversation_that_is_not_found_is_an_error() {
    let mut s = ChatSession::new(true);
    s.conversation_resolved(Err("nope".to_string()));
    assert_eq!(s.load_error.as_deref(), Some("Could not open chat: nope"));
    assert_eq!(s.content(), ListContent::Error);
    assert_eq!(s.conv_id, None);
    s.conversation_resolved(Ok("c1".to_string()));
    assert_eq!(s.conv_id.as_deref(), Some("c1"));
}

#[test]
fn the_first_load_shows_the_oldest_first() {
    let mut s = ChatSession::new(true);
    let docs = vec![
        json(r#"{"id": "m2", "textBody": "new", "from": {"id": "me"}}"#),
        json(r#"{"id": "m1", "textBody": "old", "sentAt": "yesterday"}"#),
    ];
    s.initial_load(Ok((docs, "7".to_string())), &Some("me".to_string()));
    assert_eq!(s.state_token, "7");
    assert_eq!(s.content(), ListContent::Messages);
    assert_eq!(s.messages[0].id, "m1");
    assert_eq!(s.messages[0].timestamp, "yesterday");
    assert!(!s.messages[0].is_self);
    assert_eq!(s.messages[1].id, "m2");
    assert!(s.messages[1].is_self);
}

#[test]
fn a_first_load_that_fails_shows_the_error_in_quotes() {
    let mut s = ChatSession::new(true);
    s.initial_load(Err("no \"net\"".to_string()), &None);
    assert_eq!(s.load_error.as_deref(), Some("\"no \\\"net\\\"\""));
    assert_eq!(s.content(), ListContent::Error);
}

#[test]
fn an_empty_first_load_says_so() {
    let mut s = ChatSession::new(true);
    s.initial_load(Ok((Vec::new(), "0".to_string())), &None);
    assert_eq!(s.content(), ListContent::Empty);
}

fn seeded() -> ChatSession {
    let mut s = ChatSession::new(false);
    s.initial_load(Ok((Vec::new(), "3".to_string())), &None);
    s
}

fn news(ids: &[&str], state: &str) -> ChatMessageChanges {
    ChatMessageChanges {
        created_messages: ids
            .iter()
            .map(|i| json(&format!(r#"{{"id": "{}", "textBody": "x"}}"#, i)))
            .collect(),
        new_state: state.to_string(),
    }
}

#[test]
fn triggers_in_a_round_lead_to_one_more_round() {
    let mut s = seeded();
    assert!(s.on_change());
    assert_eq!(s.begin_fetch().as_deref(), Some("3"));
    assert!(!s.on_change());
    assert!(!s.on_change());
    assert_eq!(s.fetched(news(&["a"], "4"), &None), Some(true));
    assert!(s.news_drawn(true));
    assert!(s.round_done());
    assert_eq!(s.begin_fetch().as_deref(), Some("4"));
    assert_eq!(s.fetched(news(&[], "5"), &None), None);
    assert_eq!(s.state_token, "5");
    assert!(!s.round_done());
    assert_eq!(s.delta, DeltaFetch::Idle);
    assert_eq!(s.messages.len(), 1);
}

#[test]
fn a_round_without_a_state_ends_at_once() {
    let mut s = ChatSession::new(false);
    assert!(s.on_change());
    assert!(!s.on_change());
    assert_eq!(s.begin_fetch(), None);
    assert_eq!(s.delta, DeltaFetch::Idle);
}

#[test]
fn a_round_that_fails_is_not_repeated_by_itself() {
    let mut s = seeded();
    s.on_change();
    s.begin_fetch();
    s.on_change();
    s.round_failed();
    assert_eq!(s.delta, DeltaFetch::Idle);
    assert_eq!(s.state_token, "3");
}

#[test]
fn the_user_is_notified_only_while_the_panel_is_closed() {
    let mut s = seeded();
    s.show_jump_button = true;
    assert!(s.news_drawn(true));
    assert!(!s.show_jump_button);
    assert!(!s.news_drawn(false));
    s.set_visible(true);
    assert!(!s.news_drawn(true));
}

#[test]
fn news_are_merged_one_by_one() {
    let mut s = seeded();
    assert!(s.merge_news(vec![msg("a"), msg("b")]));
    assert!(!s.merge_news(vec![msg("a")]));
    assert_eq!(s.messages.len(), 2);
}

#[test]
fn sending_shows_the_message_at_once() {
    let mut s = seeded();
    s.conversation_resolved(Ok("c1".to_string()));
    s.set_input("  hi there \n".to_string());
    assert!(s.can_send());
    let order = s.do_send();
    assert_eq!(
        order,
        Some(SendOrder {
            text: "hi there".to_string(),
            conv_id: Some("c1".to_string())
        })
    );
    assert_eq!(s.input, "");
    assert_eq!(s.next_local_id, 1);
    let m = &s.messages[0];
    assert_eq!(
        (m.id.as_str(), m.sender.as_str(), m.initials.as_str(), m.timestamp.as_str()),
        ("local-0", "You", "YO", "Now")
    );
    assert!(m.is_self);
    s.set_input("hi there".to_string());
    s.do_send();
    assert_eq!(s.messages[1].id, "local-1");
    s.merge_news(vec![server_msg("srv", "hi there", true)]);
    assert_eq!(s.messages.len(), 2);
    assert_eq!(s.messages[0].id, "srv");
}

#[test]
fn nothing_is_sent_without_text_or_conversation() {
    let mut s = seeded();
    s.set_input(" \t".to_string());
    assert_eq!(s.do_send(), None);
    assert_eq!(s.input, " \t");
    s.next_local_id = u32::MAX;
    assert_eq!(s.do_send(), None);
    s.next_local_id = 0;
    s.set_input("x".to_string());
    assert_eq!(s.do_send().unwrap().conv_id, None);
    s.conversation_resolved(Ok(String::new()));
    s.set_input("y".to_string());
    assert_eq!(s.do_send().unwrap().conv_id, None);
    assert_eq!(s.messages.len(), 2);
}

#[test]
fn opening_the_panel_is_noticed_once() {
    let mut s = ChatSession::new(false);
    assert!(!s.just_opened());
    s.set_visible(true);
    assert!(s.just_opened());
    assert!(!s.just_opened());
    s.set_visible(false);
    assert!(!s.just_opened());
    s.set_visible(true);
    assert!(s.just_opened());
}

#[test]
fn the_jump_button_follows_the_scrolling() {
    let mut s = seeded();
    s.scrolled(false);
    assert!(s.show_jump_button);
    s.scrolled(true);
    assert!(!s.show_jump_button);
    s.scrolled(false);
    s.scrolled_to_bottom();
    assert!(!s.show_jump_button);
    s.set_user(Some("u".to_string()));
    assert_eq!(s.user_id.as_deref(), Some("u"));
}

#[test]
fn near_the_bottom() {
    let at = |scroll_top: i32| ScrollPosition {
        scroll_height: 1000,
        scroll_top,
        client_height: 400,
    };
    assert!(is_chat_near_bottom(Some(at(600))));
    assert!(is_chat_near_bottom(Some(at(520))));
    assert!(!is_chat_near_bottom(Some(at(519))));
    assert!(is_chat_near_bottom(None));
    assert!(!is_chat_near_bottom(Some(ScrollPosition {
        scroll_height: i32::MAX,
        scroll_top: i32::MIN,
        client_height: i32::MIN
    })));
}

#[test]
fn classes() {
    assert_eq!(container_class(true), "chat-sidebar visible");
    assert_eq!(container_class(false), "chat-sidebar");
    assert_eq!(item_class(true), "chat-message chat-message--self");
    assert_eq!(item_class(false), "chat-message");
}

#[test]
fn rounds_step_by_step() {
    let d = DeltaFetch::Idle.step(DeltaEvent::Trigger);
    assert_eq!(d, DeltaFetch::Ready { pending: false });
    let d = d.step(DeltaEvent::Trigger);
    assert_eq!(d, DeltaFetch::Ready { pending: true });
    let d = d.step(DeltaEvent::Begin { seeded: true });
    assert_eq!(d, DeltaFetch::Fetching { pending: true });
    let d = d.step(DeltaEvent::Succeeded);
    assert_eq!(d, DeltaFetch::Ready { pending: false });
    let d = d.step(DeltaEvent::Begin { seeded: true });
    let d = d.step(DeltaEvent::Succeeded);
    assert_eq!(d, DeltaFetch::Idle);
    assert_eq!(d.step(DeltaEvent::Succeeded), DeltaFetch::Idle);
}
