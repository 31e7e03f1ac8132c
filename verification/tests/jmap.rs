use base64::engine::general_purpose::URL_SAFE_NO_PAD;
use base64::Engine;
use videocall::conversation::{ConversationLookup, LookupAction};
use videocall::jmap::{
    announces_change, chat_event_names, chat_user, current_user_id, current_user_id_from_token,
    default_body_values, delta_calls, extract_message_changes, extract_message_list,
    extract_state_token, find_method_payload, has_token_parts, is_chat_event, jmap_answer,
    jmap_origin_base, jmap_request, jmap_url, load_calls, read_messages_with_state, send_calls, send_message_calls,
    session_token, sse_session_answer, sse_session_url, sse_url, subject_of_claims, Invocation,
    JmapFailure, JmapResponse,
};
use videocall::json::{parse_json, write_json, Json};

fn json(text: &str) -> Json {
    parse_json(text).expect("test JSON must parse")
}

fn make_jwt(payload: &str) -> String {
    let header = URL_SAFE_NO_PAD.encode(br#"{"alg":"none","typ":"JWT"}"#);
    let payload_b64 = URL_SAFE_NO_PAD.encode(payload.as_bytes());
    let sig = URL_SAFE_NO_PAD.encode(b"sig");
    format!("{}.{}.{}", header, payload_b64, sig)
}

#[test]
fn current_user_id_from_token_returns_sub_for_valid_jwt() {
    let jwt = make_jwt(r#"{ "sub": "user-123", "email": "a@b.c" }"#);
    assert_eq!(
        current_user_id_from_token(&jwt),
        Some("user-123".to_string())
    );
}

#[test]
fn current_user_id_from_token_returns_none_when_not_three_parts() {
    assert_eq!(current_user_id_from_token("not.ajwt"), None);
    assert_eq!(current_user_id_from_token(""), None);
    assert_eq!(current_user_id_from_token("only-one-segment-no-dots"), None);
    assert_eq!(current_user_id_from_token("a.b.c.d"), None);
}

#[test]
fn current_user_id_from_token_returns_none_on_base64_decode_failure() {
    let bad = "aaa.!!!not_base64!!!.zzz";
    assert_eq!(current_user_id_from_token(bad), None);
}

#[test]
fn current_user_id_from_token_returns_none_when_sub_missing() {
    let jwt = make_jwt(r#"{ "email": "a@b.c" }"#);
    assert_eq!(current_user_id_from_token(&jwt), None);
}

fn jmap_response_with(method_responses: Vec<Invocation>) -> JmapResponse {
    JmapResponse {
        method_responses,
        created_ids: None,
        session_state: "state-1".to_string(),
        not_found: None,
    }
}

fn answer(method: &str, payload: &str, id: &str) -> Invocation {
    (method.to_string(), json(payload), id.to_string())
}

#[test]
fn extract_message_list_returns_list_from_get_payload() {
    let payload = json(
        r#"{ "list": [
            { "id": "m1", "textBody": "hello" },
            { "id": "m2", "textBody": "world" }
        ], "state": "5" }"#,
    );
    let msgs = extract_message_list(&payload).expect("ok");
    assert_eq!(msgs.len(), 2);
    assert_eq!(msgs[0].get_str("id"), Some("m1"));
    assert_eq!(msgs[1].get_str("textBody"), Some("world"));
}

#[test]
fn extract_message_list_empty_list_yields_empty_vec() {
    let payload = json(r#"{ "list": [], "state": "0" }"#);
    assert!(extract_message_list(&payload).expect("ok").is_empty());
}

#[test]
fn extract_message_list_errors_when_list_missing() {
    let payload = json(r#"{ "notAList": 42 }"#);
    assert!(extract_message_list(&payload).is_err());
}

#[test]
fn extract_state_token_reads_top_level_state() {
    let payload = json(r#"{ "list": [], "state": "42" }"#);
    assert_eq!(extract_state_token(&payload).expect("ok"), "42");
}

#[test]
fn extract_state_token_errors_when_missing() {
    let payload = json(r#"{ "list": [] }"#);
    assert!(extract_state_token(&payload).is_err());
}

#[test]
fn find_method_payload_errors_when_method_response_missing() {
    let resp = jmap_response_with(vec![answer("Conversation/get", r#"{ "list": [] }"#, "0")]);
    assert!(find_method_payload(&resp, "ChatMessage/get").is_none());
}

#[test]
fn extract_message_changes_filters_by_conversation_id() {
    let resp = jmap_response_with(vec![
        answer(
            "ChatMessage/changes",
            r#"{ "oldState": "3", "newState": "5", "created": ["m4", "m5"] }"#,
            "0",
        ),
        answer(
            "ChatMessage/get",
            r#"{ "list": [
                { "id": "m4", "textBody": "mine",     "conversationId": "c1" },
                { "id": "m5", "textBody": "not mine", "conversationId": "c2" }
            ], "state": "5" }"#,
            "1",
        ),
    ]);
    let changes = extract_message_changes(resp, "c1").expect("ok");
    assert_eq!(changes.new_state, "5");
    assert_eq!(changes.created_messages.len(), 1);
    assert_eq!(changes.created_messages[0].get_str("id"), Some("m4"));
}

#[test]
fn extract_message_changes_preserves_oldest_first_order() {
    let resp = jmap_response_with(vec![
        answer(
            "ChatMessage/changes",
            r#"{ "oldState": "3", "newState": "6", "created": ["m4", "m6"] }"#,
            "0",
        ),
        answer(
            "ChatMessage/get",
            r#"{ "list": [
                { "id": "m4", "conversationId": "c1" },
                { "id": "m6", "conversationId": "c1" }
            ], "state": "6" }"#,
            "1",
        ),
    ]);
    let changes = extract_message_changes(resp, "c1").expect("ok");
    assert_eq!(changes.created_messages[0].get_str("id"), Some("m4"));
    assert_eq!(changes.created_messages[1].get_str("id"), Some("m6"));
}

#[test]
fn extract_message_changes_missing_get_means_no_new_messages() {
    let resp = jmap_response_with(vec![answer(
        "ChatMessage/changes",
        r#"{ "oldState": "5", "newState": "5" }"#,
        "0",
    )]);
    let changes = extract_message_changes(resp, "c1").expect("ok");
    assert_eq!(changes.new_state, "5");
    assert!(changes.created_messages.is_empty());
}

#[test]
fn extract_message_changes_errors_when_changes_response_missing() {
    let resp = jmap_response_with(vec![answer(
        "ChatMessage/get",
        r#"{ "list": [], "state": "0" }"#,
        "0",
    )]);
    assert!(extract_message_changes(resp, "c1").is_err());
}

#[test]
fn extract_message_changes_errors_when_new_state_missing() {
    let resp = jmap_response_with(vec![answer(
        "ChatMessage/changes",
        r#"{ "oldState": "5", "created": [] }"#,
        "0",
    )]);
    assert!(extract_message_changes(resp, "c1").is_err());
}

fn parsed_insert(body: &str) -> String {
    let v: serde_json::Value =
        serde_json::from_str(body).expect("default_body_values must produce valid JSON");
    v["ops"][0]["insert"]
        .as_str()
        .expect("insert must be a string")
        .to_string()
}

#[test]
fn default_body_values_plain_ascii_exact_wire_shape() {
    assert_eq!(
        default_body_values("hello"),
        r#"{"ops":[{"insert":"hello\n"}]}"#
    );
}

#[test]
fn default_body_values_embedded_double_quote_round_trips() {
    let body = default_body_values(r#"say "hi""#);
    assert_eq!(parsed_insert(&body), "say \"hi\"\n");
}

#[test]
fn default_body_values_embedded_newline_is_escaped_not_raw() {
    let body = default_body_values("line1\nline2");
    assert_eq!(parsed_insert(&body), "line1\nline2\n");
}

#[test]
fn default_body_values_tab_and_backslash_round_trip() {
    let body = default_body_values("a\tb\\c");
    assert_eq!(parsed_insert(&body), "a\tb\\c\n");
}

#[test]
fn default_body_values_control_char_nul_round_trips() {
    let body = default_body_values("a\u{0}b");
    assert_eq!(parsed_insert(&body), "a\u{0}b\n");
}

#[test]
fn what_is_missing_is_named() {
    assert_eq!(
        extract_message_list(&json("{}")).err().unwrap(),
        "ChatMessage/get response did not contain a list of messages"
    );
    assert_eq!(
        extract_state_token(&json("{}")).err().unwrap(),
        "ChatMessage/get response did not contain a state token"
    );
    assert_eq!(
        extract_message_changes(jmap_response_with(Vec::new()), "c").err().unwrap(),
        "JMAP response did not include ChatMessage/changes"
    );
    assert_eq!(
        extract_message_changes(
            jmap_response_with(vec![answer("ChatMessage/changes", "{}", "0")]),
            "c"
        )
        .err()
        .unwrap(),
        "ChatMessage/changes response did not contain newState"
    );
    assert_eq!(
        extract_message_changes(
            jmap_response_with(vec![
                answer("ChatMessage/changes", r#"{"newState": "1"}"#, "0"),
                answer("ChatMessage/get", "{}", "1")
            ]),
            "c"
        )
        .err()
        .unwrap(),
        "ChatMessage/get response did not contain a list of messages"
    );
}

#[test]
fn the_first_load_is_read() {
    let resp = jmap_response_with(vec![
        answer("ChatMessage/query", "{}", "0"),
        answer(
            "ChatMessage/get",
            r#"{"list": [{"id": "m1"}], "state": "9"}"#,
            "1",
        ),
    ]);
    let (messages, state) = read_messages_with_state(&resp).unwrap();
    assert_eq!(messages.len(), 1);
    assert_eq!(state, "9");
    assert_eq!(
        read_messages_with_state(&jmap_response_with(Vec::new())).err().unwrap(),
        "JMAP response did not include ChatMessage/get"
    );
    let resp = jmap_response_with(vec![answer("ChatMessage/get", r#"{"list": []}"#, "1")]);
    assert_eq!(
        read_messages_with_state(&resp).err().unwrap(),
        "ChatMessage/get response did not contain a state token"
    );
}

#[test]
fn the_first_answer_to_a_method_counts() {
    let resp = jmap_response_with(vec![
        answer("A", r#"{"n": "first"}"#, "0"),
        answer("A", r#"{"n": "second"}"#, "1"),
    ]);
    let payload = find_method_payload(&resp, "A").unwrap();
    assert_eq!(payload.get_str("n"), Some("first"));
}

#[test]
fn requests_name_the_capabilities() {
    let request = jmap_request(load_calls("c1"));
    assert_eq!(
        request.using,
        ["urn:ietf:params:jmap:core", "urn:ietf:params:jmap:chat"]
    );
    assert_eq!(request.method_calls.len(), 2);
}

#[test]
fn the_calls_of_the_first_load() {
    let calls = load_calls("c1");
    assert_eq!((calls[0].0.as_str(), calls[0].2.as_str()), ("ChatMessage/query", "0"));
    assert_eq!(
        write_json(&calls[0].1),
        r#"{"accountId":"acc1","conversationId":"c1","limit":20,"position":-1,"preview":false}"#
    );
    assert_eq!((calls[1].0.as_str(), calls[1].2.as_str()), ("ChatMessage/get", "1"));
    assert_eq!(
        write_json(&calls[1].1),
        r##"{"#ids":{"name":"ChatMessage/query","path":"/ids","resultOf":"0"},"accountId":"acc1","properties":["id","from","sentAt","textBody","senderId","conversationId"]}"##
    );
}

#[test]
fn the_calls_for_news() {
    let calls = delta_calls("42");
    assert_eq!(calls[0].0, "ChatMessage/changes");
    assert_eq!(
        write_json(&calls[0].1),
        r#"{"accountId":"acc1","sinceState":"42"}"#
    );
    assert_eq!(
        calls[1].1.get("#ids").unwrap().get_str("path"),
        Some("/created")
    );
}

#[test]
fn the_call_that_sends() {
    let calls = send_calls("c1", "hi", "BODY", "me", "temp-1");
    assert_eq!(calls.len(), 1);
    assert_eq!((calls[0].0.as_str(), calls[0].2.as_str()), ("ChatMessage/set", "0"));
    assert_eq!(
        write_json(&calls[0].1),
        r#"{"create":{"temp-1":{"bodyValues":"BODY","conversationId":"c1","messageType":"user","textBody":"hi"}},"senderId":"me"}"#
    );
}

#[test]
fn sending_uses_a_fresh_id_and_the_user_of_the_token() {
    let token = make_jwt(r#"{"sub": "u1"}"#);
    let temp_id = |calls: &Vec<Invocation>| match calls[0].1.get("create") {
        Some(Json::Object(members)) => members[0].0.clone(),
        other => panic!("unexpected {:?}", other),
    };
    let a = send_message_calls("c1", "hi", None, &token);
    let b = send_message_calls("c1", "hi", Some("RICH"), "no token");
    assert_eq!(a[0].1.get_str("senderId"), Some("u1"));
    assert_eq!(b[0].1.get_str("senderId"), Some(""));
    assert_ne!(temp_id(&a), temp_id(&b));
    let id = temp_id(&a);
    assert!(id.starts_with("temp-"));
    let uuid = uuid::Uuid::parse_str(&id[5..]).unwrap();
    assert_eq!(uuid.get_version_num(), 4);
    assert_eq!(uuid.to_string(), &id[5..]);
    let body = |calls: &Vec<Invocation>, id: &str| {
        let create = calls[0].1.get("create").unwrap();
        create.get(id).unwrap().get_str("bodyValues").unwrap().to_string()
    };
    assert_eq!(body(&a, &temp_id(&a)), default_body_values("hi"));
    assert_eq!(body(&b, &temp_id(&b)), "RICH");
}

#[test]
fn tokens_and_users() {
    let id = make_jwt(r#"{"sub": "from-id"}"#);
    let access = make_jwt(r#"{"sub": "from-access"}"#);
    assert_eq!(
        current_user_id(Some(id.clone()), Some(access.clone())).as_deref(),
        Some("from-id")
    );
    assert_eq!(
        current_user_id(None, Some(access.clone())).as_deref(),
        Some("from-access")
    );
    assert_eq!(current_user_id(None, None), None);
    assert_eq!(session_token(None, None), "");
    assert_eq!(
        chat_user(Some("profile".to_string()), Some(id.clone()), None).as_deref(),
        Some("profile")
    );
    assert_eq!(chat_user(None, Some(id), None).as_deref(), Some("from-id"));
    assert_eq!(
        subject_of_claims(&json(r#"{"sub": "x"}"#)).as_deref(),
        Some("x")
    );
    assert_eq!(subject_of_claims(&json(r#"{"sub": 5}"#)), None);
    assert_eq!(
        current_user_id_from_token(&format!("a.{}=.c", URL_SAFE_NO_PAD.encode(b"{}"))),
        None
    );
    assert_eq!(
        current_user_id_from_token(&format!("a.{}.c", URL_SAFE_NO_PAD.encode(b"not json"))),
        None
    );
}

#[test]
fn addresses() {
    let page = Some("https://meet.localhost".to_string());
    assert_eq!(
        jmap_origin_base(String::new(), page.clone()),
        "https://meet.localhost"
    );
    assert_eq!(
        jmap_origin_base("https://chat".to_string(), page),
        "https://chat"
    );
    assert_eq!(jmap_origin_base(String::new(), None), "");
    assert_eq!(jmap_url("b"), "b/jmap");
    assert_eq!(sse_session_url("b"), "b/sse/session");
    assert_eq!(sse_url("b"), "b/sse");
}

#[test]
fn failure_messages() {
    let s = |t: &str| t.to_string();
    for (failure, text) in [
        (JmapFailure::Serialize(s("e")), "Failed to serialize JMAP request: e"),
        (JmapFailure::Send(s("e")), "JMAP request failed: e"),
        (JmapFailure::ReadBody(s("e")), "Failed to read response body: e"),
        (
            JmapFailure::Status { status: s("404 Not Found"), body: s("b") },
            "JMAP request failed: 404 Not Found - b",
        ),
        (
            JmapFailure::Parse { error: s("e"), body: s("b") },
            "Failed to parse JMAP response: e - Body: b",
        ),
        (JmapFailure::SseSession(s("e")), "Failed to establish SSE session: e"),
        (
            JmapFailure::SseStatus { status: s("500"), body: s("b") },
            "SSE session request failed: 500 - b",
        ),
        (JmapFailure::EventSource(s("e")), "Failed to create EventSource: e"),
        (
            JmapFailure::Subscribe { event: s("state"), error: s("e") },
            "Failed to subscribe to 'state' events: e",
        ),
    ] {
        assert_eq!(failure.message(), text);
    }
}

#[test]
fn events_that_tell_of_news() {
    assert!(!is_chat_event("state", ""));
    assert!(!is_chat_event("state", "ping"));
    assert!(is_chat_event("state", "x"));
    assert!(is_chat_event("StateChange", "{"));
    assert!(is_chat_event("ChatMessage", "1"));
    assert!(!is_chat_event("message", "hello"));
    assert!(is_chat_event("message", r#"{"@type": "StateChange"}"#));
    assert!(is_chat_event("message", r#"{"changed": null}"#));
    assert!(!is_chat_event("message", r#"{"@type": "Other"}"#));
    assert!(!is_chat_event("message", r#"["changed"]"#));
    assert!(announces_change(&json(r#"{"changed": {}}"#)));
    assert!(!announces_change(&json("{}")));
}

fn calls_of(action: LookupAction) -> (Vec<Invocation>, ConversationLookup) {
    match action {
        LookupAction::Call(calls, next) => (calls, next),
        other => panic!("unexpected {:?}", other),
    }
}

#[test]
fn an_existing_conversation_is_found_and_joined() {
    let (calls, lookup) = calls_of(ConversationLookup::start("Standup"));
    assert_eq!(calls[0].0, "Conversation/query");
    assert_eq!(
        write_json(&calls[0].1),
        r#"{"accountId":"acc1","joinedOnly":false,"search":"Standup"}"#
    );
    let reply = jmap_response_with(vec![answer(
        "Conversation/query",
        r#"{"ids": ["c1", 5, "c2", "c3"]}"#,
        "0",
    )]);
    let (calls, lookup) = calls_of(lookup.step(Ok(reply), "Standup", "me"));
    assert_eq!(
        write_json(&calls[0].1),
        r#"{"accountId":"acc1","ids":["c1","c2","c3"]}"#
    );
    let reply = jmap_response_with(vec![answer(
        "Conversation/get",
        r#"{"list": [
            {"id": "c1", "topic": "standup", "participants": [1]},
            {"id": "c2", "topic": "STANDUP", "participants": [1, 2]},
            {"id": "c3", "topic": "standup-2", "participants": [1, 2, 3]},
            {"id": "c4", "topic": "Standup", "participants": [3, 4]},
            {"id": "c5", "topic": "Standup"}
        ]}"#,
        "0",
    )]);
    let (calls, lookup) = calls_of(lookup.step(Ok(reply), "Standup", "me"));
    assert_eq!(calls[0].0, "Conversation/join");
    assert_eq!(
        write_json(&calls[0].1),
        r#"{"accountId":"acc1","conversationId":"c4"}"#
    );
    match lookup.step(Err("join failed".to_string()), "Standup", "me") {
        LookupAction::Found(id) => assert_eq!(id, "c4"),
        other => panic!("unexpected {:?}", other),
    }
}

#[test]
fn a_missing_conversation_is_created() {
    let (_, lookup) = calls_of(ConversationLookup::start("Room"));
    let reply = jmap_response_with(vec![answer("Conversation/query", r#"{"ids": []}"#, "0")]);
    let (calls, lookup) = calls_of(lookup.step(Ok(reply), "Room", "me"));
    assert_eq!(calls[0].0, "Conversation/create");
    assert_eq!(
        write_json(&calls[0].1),
        r#"{"creatorId":"me","isDirectMessage":false,"isPrivate":false,"topic":"Room"}"#
    );
    let reply = jmap_response_with(vec![answer(
        "Conversation/create",
        r#"{"list": [{"id": "new"}, {"id": "other"}]}"#,
        "0",
    )]);
    match lookup.step(Ok(reply), "Room", "me") {
        LookupAction::Found(id) => assert_eq!(id, "new"),
        other => panic!("unexpected {:?}", other),
    }
}

#[test]
fn a_conversation_is_created_when_none_has_the_topic() {
    let (_, lookup) = calls_of(ConversationLookup::start("Room"));
    let reply = jmap_response_with(vec![answer("Conversation/query", r#"{"ids": ["c"]}"#, "0")]);
    let (_, lookup) = calls_of(lookup.step(Ok(reply), "Room", "me"));
    let reply = jmap_response_with(vec![answer(
        "Conversation/get",
        r#"{"list": [{"id": "c", "topic": "Room 2"}, {"topic": "room"}]}"#,
        "0",
    )]);
    let (calls, lookup) = calls_of(lookup.step(Ok(reply), "Room", ""));
    assert_eq!(calls[0].0, "Conversation/create");
    match lookup.step(Ok(jmap_response_with(Vec::new())), "Room", "") {
        LookupAction::Failed(e) => assert_eq!(
            e,
            "Conversation/create response did not include a conversation ID"
        ),
        other => panic!("unexpected {:?}", other),
    }
}

#[test]
fn a_lookup_ends_with_the_error_of_a_call() {
    let (_, lookup) = calls_of(ConversationLookup::start("Room"));
    match lookup.step(Err("down".to_string()), "Room", "me") {
        LookupAction::Failed(e) => assert_eq!(e, "down"),
        other => panic!("unexpected {:?}", other),
    }
}

fn s(text: &str) -> String {
    text.to_string()
}

fn answer_with_state(state: &str) -> JmapResponse {
    JmapResponse {
        method_responses: Vec::new(),
        created_ids: None,
        session_state: s(state),
        not_found: None,
    }
}

#[test]
fn an_answer_counts_only_with_a_good_status() {
    let ok = jmap_answer(200, s("200 OK"), s("{}"), Ok(answer_with_state("s1")));
    assert_eq!(ok.expect("accepted").session_state, "s1");
    let edge = jmap_answer(299, s("299"), s("{}"), Ok(answer_with_state("s2")));
    assert_eq!(edge.expect("accepted").session_state, "s2");

    for code in [199u16, 300, 404, 500] {
        let refused = jmap_answer(code, s("st"), s("b"), Ok(answer_with_state("s3")));
        assert_eq!(
            refused.expect_err("refused"),
            JmapFailure::Status { status: s("st"), body: s("b") }
        );
    }

    let unread = jmap_answer(200, s("200 OK"), s("<html>"), Err(s("expected value")));
    assert_eq!(
        unread.expect_err("unreadable"),
        JmapFailure::Parse { error: s("expected value"), body: s("<html>") }
    );
    let both = jmap_answer(404, s("404 Not Found"), s("<html>"), Err(s("expected value")));
    assert_eq!(
        both.expect_err("refused first"),
        JmapFailure::Status { status: s("404 Not Found"), body: s("<html>") }
    );
}

#[test]
fn a_session_for_events_needs_a_good_status() {
    assert_eq!(sse_session_answer(204, s("204 No Content"), s("")), Ok(()));
    assert_eq!(
        sse_session_answer(401, s("401 Unauthorized"), s("no")),
        Err(JmapFailure::SseStatus { status: s("401 Unauthorized"), body: s("no") })
    );
}

#[test]
fn named_events_are_heard() {
    assert_eq!(chat_event_names(), vec!["state", "StateChange", "ChatMessage"]);
    for name in chat_event_names() {
        assert!(is_chat_event(name, "anything"));
        assert!(!is_chat_event(name, "ping"));
        assert!(!is_chat_event(name, ""));
    }
}

#[test]
fn tokens_have_three_parts() {
    assert!(has_token_parts("a.b.c"));
    assert!(has_token_parts(".."));
    assert!(!has_token_parts(""));
    assert!(!has_token_parts("a.b"));
    assert!(!has_token_parts("a.b.c.d"));
}
