//! The chat server's JMAP protocol: the calls that the chat makes, and what it
//! takes from the answers.

use vstd::prelude::*;
use crate::json;
use crate::json::{Json, JsonValue, Members};
use crate::text;

verus! {

/// The account to which the calls refer.
pub const JMAP_ACCOUNT_ID: &'static str = "acc1";

/// A method call, or the answer to one: the method's name, the arguments, and
/// the id of the call.
pub type Invocation = (String, Json, String);

pub type InvocationView = (Seq<char>, JsonValue, Seq<char>);

/// What some invocations say.
pub open spec fn invocations(s: Seq<Invocation>) -> Seq<InvocationView> {
    Seq::new(s.len(), |i: int| (s[i].0@, s[i].1@, s[i].2@))
}

/// A request to the server.
#[derive(Debug)]
pub struct JmapRequest {
    pub using: Vec<String>,
    pub method_calls: Vec<Invocation>,
}

/// An answer of the server.
#[derive(Debug)]
pub struct JmapResponse {
    pub method_responses: Vec<Invocation>,
    pub created_ids: Option<Vec<(String, String)>>,
    pub session_state: String,
    pub not_found: Option<Vec<String>>,
}

impl View for JmapResponse {
    type V = Seq<InvocationView>;

    /// The answers to the method calls.
    open spec fn view(&self) -> Seq<InvocationView> {
        invocations(self.method_responses@)
    }
}

/// The capabilities that a request names.
pub open spec fn capabilities() -> Seq<Seq<char>> {
    seq!["urn:ietf:params:jmap:core"@, "urn:ietf:params:jmap:chat"@]
}

/// The request that makes some calls.
pub fn jmap_request(method_calls: Vec<Invocation>) -> (res: JmapRequest)
    ensures
        text::strings(res.using@) == capabilities(),
        res.method_calls == method_calls,
{
    let mut using: Vec<String> = Vec::new();
    using.push("urn:ietf:params:jmap:core".to_owned());
    using.push("urn:ietf:params:jmap:chat".to_owned());
    assert(text::strings(using@) =~= capabilities());
    JmapRequest { using, method_calls }
}

// ---------------------------------------------------------------------------
// Where the server is, and who is asking
// ---------------------------------------------------------------------------

/// The start of the server's addresses: the configured one, or the origin of the
/// page where none is configured.
pub open spec fn base_address(configured: Seq<char>, page: Option<Seq<char>>) -> Seq<char> {
    if configured.len() > 0 {
        configured
    } else {
        match page {
            Some(o) => o,
            None => ""@,
        }
    }
}

/// The start of the server's addresses: the configured one, or the origin of the
/// page where none is configured.
pub fn jmap_origin_base(configured: String, page_origin: Option<String>) -> (res: String)
    ensures
        res@ == base_address(configured@, json::opt_string(page_origin)),
{
    if !configured.as_str().is_empty() {
        return configured;
    }
    match page_origin {
        Some(o) => o,
        None => "".to_owned(),
    }
}

/// Where calls are sent.
pub fn jmap_url(base: &str) -> (res: String)
    ensures
        res@ == base@ + "/jmap"@,
{
    text::join(base, "/jmap")
}

/// Where a session for events is opened.
pub fn sse_session_url(base: &str) -> (res: String)
    ensures
        res@ == base@ + "/sse/session"@,
{
    text::join(base, "/sse/session")
}

/// Where events come from. No token is part of this address.
pub fn sse_url(base: &str) -> (res: String)
    ensures
        res@ == base@ + "/sse"@,
{
    text::join(base, "/sse")
}

/// The token of the session: the id token, else the access token, else nothing.
pub open spec fn chosen_token(id: Option<Seq<char>>, access: Option<Seq<char>>) -> Seq<char> {
    match id {
        Some(t) => t,
        None => match access {
            Some(t) => t,
            None => ""@,
        },
    }
}

/// The token of the session: the id token, else the access token, else nothing.
pub fn session_token(id_token: Option<String>, access_token: Option<String>) -> (res: String)
    ensures
        res@ == chosen_token(json::opt_string(id_token), json::opt_string(access_token)),
{
    match id_token {
        Some(t) => t,
        None => match access_token {
            Some(t) => t,
            None => "".to_owned(),
        },
    }
}

/// The bytes that `base64` reads in a text in the URL-safe alphabet without
/// padding, where it accepts the text.
pub uninterp spec fn base64_url_bytes(text: Seq<char>) -> Option<Seq<u8>>;

/// `base64::engine::general_purpose::URL_SAFE_NO_PAD.decode`. The bytes, or that
/// there are none, are a function of the text.
#[verifier::external_body]
pub(crate) fn decode_base64_url(text: &str) -> (res: Option<Vec<u8>>)
    ensures
        match res {
            Some(b) => base64_url_bytes(text@) == Some(b@),
            None => base64_url_bytes(text@) is None,
        },
{
    let engine = base64::engine::general_purpose::URL_SAFE_NO_PAD;
    base64::Engine::decode(&engine, text).ok()
}

/// The payload of a token of three parts: what stands between its two dots.
pub open spec fn token_payload(token: Seq<char>) -> Option<Seq<char>> {
    let parts = text::split(token, '.');
    if parts.len() == 3 {
        Some(parts[1])
    } else {
        None
    }
}

/// The document in the payload of a token.
pub open spec fn token_claims(token: Seq<char>) -> Option<JsonValue> {
    match token_payload(token) {
        Some(p) => match base64_url_bytes(p) {
            Some(b) => json::json_of_bytes(b),
            None => None,
        },
        None => None,
    }
}

/// The user of some claims.
pub open spec fn subject(claims: Option<JsonValue>) -> Option<Seq<char>> {
    match claims {
        Some(c) => json::member_text(c, "sub"@),
        None => None,
    }
}

/// Whether a token has the three parts of a JSON Web Token.
pub fn has_token_parts(token: &str) -> (res: bool)
    ensures
        res == (token_payload(token@) is Some),
{
    let parts = text::split_string(token, '.');
    assert(text::strings(parts@).len() == parts@.len());
    parts.len() == 3
}

/// The user whom some claims name.
pub fn subject_of_claims(claims: &Json) -> (res: Option<String>)
    ensures
        json::opt_string(res) == subject(Some(claims@)),
{
    match claims.get_str("sub") {
        Some(s) => Some(s.to_owned()),
        None => None,
    }
}

/// The user whom a token names. The token's signature is not checked.
pub fn current_user_id_from_token(token: &str) -> (res: Option<String>)
    ensures
        json::opt_string(res) == subject(token_claims(token@)),
{
    let parts = text::split_string(token, '.');
    assert(text::strings(parts@).len() == parts@.len());
    if parts.len() != 3 {
        return None;
    }
    assert(text::strings(parts@)[1] == parts@[1]@);
    let bytes = decode_base64_url(parts[1].as_str())?;
    let claims = json::parse_json_bytes(bytes.as_slice())?;
    subject_of_claims(&claims)
}

/// The user whom the token of the session names.
pub fn current_user_id(id_token: Option<String>, access_token: Option<String>) -> (res: Option<
    String,
>)
    ensures
        json::opt_string(res) == subject(
            token_claims(
                chosen_token(json::opt_string(id_token), json::opt_string(access_token)),
            ),
        ),
{
    let token = session_token(id_token, access_token);
    current_user_id_from_token(token.as_str())
}

/// The user for whom the chat is shown: the one whom the profile of the sign-in
/// service names, where there is one, else the one whom the token names.
pub fn chat_user(
    profile_user: Option<String>,
    id_token: Option<String>,
    access_token: Option<String>,
) -> (res: Option<String>)
    ensures
        json::opt_string(res) == match profile_user {
            Some(u) => Some(u@),
            None => subject(
                token_claims(
                    chosen_token(json::opt_string(id_token), json::opt_string(access_token)),
                ),
            ),
        },
{
    match profile_user {
        Some(u) => Some(u),
        None => current_user_id(id_token, access_token),
    }
}

// ---------------------------------------------------------------------------
// Faults
// ---------------------------------------------------------------------------

/// What can go wrong between the chat and the server.
#[derive(Debug, PartialEq, Eq)]
pub enum JmapFailure {
    Serialize(String),
    Send(String),
    ReadBody(String),
    Status { status: String, body: String },
    Parse { error: String, body: String },
    SseSession(String),
    SseStatus { status: String, body: String },
    EventSource(String),
    Subscribe { event: String, error: String },
}

pub open spec fn failure_text(f: JmapFailure) -> Seq<char> {
    match f {
        JmapFailure::Serialize(e) => "Failed to serialize JMAP request: "@ + e@,
        JmapFailure::Send(e) => "JMAP request failed: "@ + e@,
        JmapFailure::ReadBody(e) => "Failed to read response body: "@ + e@,
        JmapFailure::Status { status, body } => "JMAP request failed: "@ + status@ + " - "@ + body@,
        JmapFailure::Parse { error, body } => "Failed to parse JMAP response: "@ + error@
            + " - Body: "@ + body@,
        JmapFailure::SseSession(e) => "Failed to establish SSE session: "@ + e@,
        JmapFailure::SseStatus { status, body } => "SSE session request failed: "@ + status@
            + " - "@ + body@,
        JmapFailure::EventSource(e) => "Failed to create EventSource: "@ + e@,
        JmapFailure::Subscribe { event, error } => "Failed to subscribe to '"@ + event@
            + "' events: "@ + error@,
    }
}

/// Four texts in a row.
fn join4(a: &str, b: &str, c: &str, d: &str) -> (res: String)
    ensures
        res@ == a@ + b@ + c@ + d@,
{
    let ab = text::join(a, b);
    text::join3(ab.as_str(), c, d)
}

impl JmapFailure {
    /// What is reported.
    pub fn message(&self) -> (res: String)
        ensures
            res@ == failure_text(*self),
    {
        match self {
            JmapFailure::Serialize(e) => text::join(
                "Failed to serialize JMAP request: ",
                e.as_str(),
            ),
            JmapFailure::Send(e) => text::join("JMAP request failed: ", e.as_str()),
            JmapFailure::ReadBody(e) => text::join("Failed to read response body: ", e.as_str()),
            JmapFailure::Status { status, body } => join4(
                "JMAP request failed: ",
                status.as_str(),
                " - ",
                body.as_str(),
            ),
            JmapFailure::Parse { error, body } => join4(
                "Failed to parse JMAP response: ",
                error.as_str(),
                " - Body: ",
                body.as_str(),
            ),
            JmapFailure::SseSession(e) => text::join(
                "Failed to establish SSE session: ",
                e.as_str(),
            ),
            JmapFailure::SseStatus { status, body } => join4(
                "SSE session request failed: ",
                status.as_str(),
                " - ",
                body.as_str(),
            ),
            JmapFailure::EventSource(e) => text::join("Failed to create EventSource: ", e.as_str()),
            JmapFailure::Subscribe { event, error } => join4(
                "Failed to subscribe to '",
                event.as_str(),
                "' events: ",
                error.as_str(),
            ),
        }
    }
}

/// Whether a status code tells of success.
pub open spec fn is_success(code: u16) -> bool {
    200 <= code < 300
}

fn succeeded(code: u16) -> (res: bool)
    ensures
        res == is_success(code),
{
    200 <= code && code < 300
}

/// What is made of an answer of the server, given its status, its body, and what
/// was read in the body. The body counts only where the status tells of success.
pub fn jmap_answer(
    code: u16,
    status: String,
    body: String,
    parsed: Result<JmapResponse, String>,
) -> (res: Result<JmapResponse, JmapFailure>)
    ensures
        res == if !is_success(code) {
            Err::<JmapResponse, JmapFailure>(JmapFailure::Status { status, body })
        } else {
            match parsed {
                Ok(r) => Ok::<JmapResponse, JmapFailure>(r),
                Err(error) => Err::<JmapResponse, JmapFailure>(JmapFailure::Parse { error, body }),
            }
        },
{
    if !succeeded(code) {
        return Err(JmapFailure::Status { status, body });
    }
    match parsed {
        Ok(r) => Ok(r),
        Err(error) => Err(JmapFailure::Parse { error, body }),
    }
}

/// What is made of the answer to the request for a session for events.
pub fn sse_session_answer(code: u16, status: String, body: String) -> (res: Result<(), JmapFailure>)
    ensures
        res == if is_success(code) {
            Ok::<(), JmapFailure>(())
        } else {
            Err::<(), JmapFailure>(JmapFailure::SseStatus { status, body })
        },
{
    if succeeded(code) {
        Ok(())
    } else {
        Err(JmapFailure::SseStatus { status, body })
    }
}

// ---------------------------------------------------------------------------
// Reading answers
// ---------------------------------------------------------------------------

/// The payload of the first answer to a method.
pub open spec fn payload_of(answers: Seq<InvocationView>, method: Seq<char>) -> Option<JsonValue>
    decreases answers.len(),
{
    if answers.len() == 0 {
        None
    } else if answers[0].0 == method {
        Some(answers[0].1)
    } else {
        payload_of(answers.skip(1), method)
    }
}

/// The payload of the first answer to `method`.
pub fn find_method_payload<'a>(response: &'a JmapResponse, method: &str) -> (res: Option<&'a Json>)
    ensures
        json::opt_json(res) == payload_of(response@, method@),
{
    let answers = &response.method_responses;
    let mut i: usize = 0;
    assert(invocations(answers@).skip(0) == invocations(answers@));
    while i < answers.len()
        invariant
            i <= answers@.len(),
            *answers == response.method_responses,
            payload_of(response@, method@) == payload_of(
                invocations(answers@).skip(i as int),
                method@,
            ),
        decreases answers@.len() - i,
    {
        let ghost rest = invocations(answers@).skip(i as int);
        assert(rest[0] == (answers@[i as int].0@, answers@[i as int].1@, answers@[i as int].2@));
        assert(rest.skip(1) == invocations(answers@).skip(i + 1));
        if answers[i].0.as_str().eq(method) {
            return Some(&answers[i].1);
        }
        i = i + 1;
    }
    None
}

/// The messages in the payload of a `ChatMessage/get`.
pub fn extract_message_list(payload: &Json) -> (res: Result<Vec<Json>, String>)
    ensures
        match res {
            Ok(v) => json::member_items(payload@, "list"@) == Some(json::json_values(v@)),
            Err(e) => json::member_items(payload@, "list"@) is None && e@
                == "ChatMessage/get response did not contain a list of messages"@,
        },
{
    match payload.get_array("list") {
        Some(items) => Ok(json::duplicate_all(items)),
        None => Err("ChatMessage/get response did not contain a list of messages".to_owned()),
    }
}

/// The state token in the payload of a `ChatMessage/get`.
pub fn extract_state_token(payload: &Json) -> (res: Result<String, String>)
    ensures
        match res {
            Ok(t) => json::member_text(payload@, "state"@) == Some(t@),
            Err(e) => json::member_text(payload@, "state"@) is None && e@
                == "ChatMessage/get response did not contain a state token"@,
        },
{
    match payload.get_str("state") {
        Some(t) => Ok(t.to_owned()),
        None => Err("ChatMessage/get response did not contain a state token".to_owned()),
    }
}

/// What the first load of a conversation gives: its messages and the state token,
/// or what is missing.
pub open spec fn loaded(answers: Seq<InvocationView>) -> Result<
    (Seq<JsonValue>, Seq<char>),
    Seq<char>,
> {
    match payload_of(answers, "ChatMessage/get"@) {
        None => Err("JMAP response did not include ChatMessage/get"@),
        Some(p) => match (json::member_items(p, "list"@), json::member_text(p, "state"@)) {
            (None, _) => Err("ChatMessage/get response did not contain a list of messages"@),
            (_, None) => Err("ChatMessage/get response did not contain a state token"@),
            (Some(items), Some(state)) => Ok((items, state)),
        },
    }
}

/// The messages and the state token in the answer to [`load_calls`].
pub fn read_messages_with_state(response: &JmapResponse) -> (res: Result<
    (Vec<Json>, String),
    String,
>)
    ensures
        match res {
            Ok(r) => loaded(response@) == Ok::<(Seq<JsonValue>, Seq<char>), Seq<char>>(
                (json::json_values(r.0@), r.1@),
            ),
            Err(e) => loaded(response@) == Err::<(Seq<JsonValue>, Seq<char>), Seq<char>>(e@),
        },
{
    match find_method_payload(response, "ChatMessage/get") {
        None => Err("JMAP response did not include ChatMessage/get".to_owned()),
        Some(payload) => match extract_message_list(payload) {
            Err(e) => Err(e),
            Ok(messages) => match extract_state_token(payload) {
                Err(e) => Err(e),
                Ok(state) => Ok((messages, state)),
            },
        },
    }
}

/// The messages that are new since a state, and the state after them.
#[derive(Debug)]
pub struct ChatMessageChanges {
    pub created_messages: Vec<Json>,
    pub new_state: String,
}

/// Whether a message belongs to a conversation.
pub open spec fn in_conversation(conv_id: Seq<char>) -> spec_fn(JsonValue) -> bool {
    |m: JsonValue| json::member_text(m, "conversationId"@) == Some(conv_id)
}

/// What an answer says is new in a conversation, or what is missing in it. The
/// server lists what is new in all conversations.
pub open spec fn changes(answers: Seq<InvocationView>, conv_id: Seq<char>) -> Result<
    (Seq<JsonValue>, Seq<char>),
    Seq<char>,
> {
    match payload_of(answers, "ChatMessage/changes"@) {
        None => Err("JMAP response did not include ChatMessage/changes"@),
        Some(c) => match json::member_text(c, "newState"@) {
            None => Err("ChatMessage/changes response did not contain newState"@),
            Some(state) => match payload_of(answers, "ChatMessage/get"@) {
                None => Ok((Seq::empty(), state)),
                Some(g) => match json::member_items(g, "list"@) {
                    None => Err("ChatMessage/get response did not contain a list of messages"@),
                    Some(items) => Ok((items.filter(in_conversation(conv_id)), state)),
                },
            },
        },
    }
}

/// The messages of one conversation, in their order.
fn of_conversation(items: &Vec<Json>, conv_id: &str) -> (res: Vec<Json>)
    ensures
        json::json_values(res@) == json::json_values(items@).filter(in_conversation(conv_id@)),
{
    let mut out: Vec<Json> = Vec::new();
    let mut i: usize = 0;
    let ghost all = json::json_values(items@);
    let ghost keep = in_conversation(conv_id@);
    proof {
        json::lemma_json_values(items@);
        reveal(Seq::filter);
        assert(all.take(0).filter(keep) =~= Seq::empty());
    }
    while i < items.len()
        invariant
            i <= items@.len(),
            all == json::json_values(items@),
            all.len() == items@.len(),
            forall|k: int| 0 <= k < items@.len() ==> #[trigger] all[k] == items@[k]@,
            keep == in_conversation(conv_id@),
            json::json_values(out@) == all.take(i as int).filter(keep),
        decreases items@.len() - i,
    {
        proof {
            reveal(Seq::filter);
            assert(all.take(i + 1).drop_last() =~= all.take(i as int));
            assert(all.take(i + 1).last() == items@[i as int]@);
        }
        let belongs = match items[i].get_str("conversationId") {
            Some(c) => c.eq(conv_id),
            None => false,
        };
        assert(belongs == keep(items@[i as int]@));
        if belongs {
            let ghost before = out@;
            out.push(items[i].duplicate());
            assert(out@.drop_last() =~= before);
        }
        i = i + 1;
    }
    assert(all.take(all.len() as int) == all);
    out
}

/// What an answer to [`delta_calls`] says is new in a conversation. An answer
/// without any messages is no error: the state may have moved all the same.
pub fn extract_message_changes(response: JmapResponse, conv_id: &str) -> (res: Result<
    ChatMessageChanges,
    String,
>)
    ensures
        match res {
            Ok(c) => changes(response@, conv_id@) == Ok::<(Seq<JsonValue>, Seq<char>), Seq<char>>(
                (json::json_values(c.created_messages@), c.new_state@),
            ),
            Err(e) => changes(response@, conv_id@) == Err::<
                (Seq<JsonValue>, Seq<char>),
                Seq<char>,
            >(e@),
        },
{
    let new_state = match find_method_payload(&response, "ChatMessage/changes") {
        None => {
            return Err("JMAP response did not include ChatMessage/changes".to_owned());
        },
        Some(payload) => match payload.get_str("newState") {
            None => {
                return Err("ChatMessage/changes response did not contain newState".to_owned());
            },
            Some(t) => t.to_owned(),
        },
    };
    let created_messages = match find_method_payload(&response, "ChatMessage/get") {
        None => Vec::new(),
        Some(payload) => match payload.get_array("list") {
            None => {
                return Err(
                    "ChatMessage/get response did not contain a list of messages".to_owned(),
                );
            },
            Some(items) => of_conversation(items, conv_id),
        },
    };
    Ok(ChatMessageChanges { created_messages, new_state })
}

// ---------------------------------------------------------------------------
// Making calls
// ---------------------------------------------------------------------------

/// The properties of a message that the chat asks for.
pub open spec fn message_properties() -> Seq<Seq<char>> {
    seq!["id"@, "from"@, "sentAt"@, "textBody"@, "senderId"@, "conversationId"@]
}

fn message_property_list() -> (res: Vec<String>)
    ensures
        text::strings(res@) == message_properties(),
{
    let mut v: Vec<String> = Vec::new();
    v.push("id".to_owned());
    v.push("from".to_owned());
    v.push("sentAt".to_owned());
    v.push("textBody".to_owned());
    v.push("senderId".to_owned());
    v.push("conversationId".to_owned());
    assert(text::strings(v@) =~= message_properties());
    v
}

/// The arguments of the `ChatMessage/get` for the ids that another call gives.
pub open spec fn get_arguments(method: Seq<char>, path: Seq<char>) -> JsonValue {
    JsonValue::Object(
        map![
            "#ids"@ => JsonValue::Object(map![
                "name"@ => JsonValue::Str(method),
                "path"@ => JsonValue::Str(path),
                "resultOf"@ => JsonValue::Str("0"@),
            ]),
            "accountId"@ => JsonValue::Str(JMAP_ACCOUNT_ID@),
            "properties"@ => json::texts_value(message_properties()),
        ],
    )
}

fn message_get(method: &str, path: &str) -> (res: Invocation)
    ensures
        (res.0@, res.1@, res.2@) == ("ChatMessage/get"@, get_arguments(method@, path@), "1"@),
{
    let ids = Members::new().with_text("name", method).with_text("path", path).with_text(
        "resultOf",
        "0",
    ).into_json();
    let properties = message_property_list();
    let arguments = Members::new().with("#ids", ids).with_text(
        "accountId",
        JMAP_ACCOUNT_ID,
    ).with("properties", json::json_of_texts(&properties)).into_json();
    ("ChatMessage/get".to_owned(), arguments, "1".to_owned())
}

/// The calls that load the newest messages of a conversation.
pub open spec fn load_view(conv_id: Seq<char>) -> Seq<InvocationView> {
    seq![
        (
            "ChatMessage/query"@,
            JsonValue::Object(map![
                "accountId"@ => JsonValue::Str(JMAP_ACCOUNT_ID@),
                "conversationId"@ => JsonValue::Str(conv_id),
                "limit"@ => JsonValue::Number(Some(20)),
                "position"@ => JsonValue::Number(Some(-1i128)),
                "preview"@ => JsonValue::Bool(false),
            ]),
            "0"@,
        ),
        ("ChatMessage/get"@, get_arguments("ChatMessage/query"@, "/ids"@), "1"@),
    ]
}

/// The calls that load the newest twenty messages of a conversation, newest
/// first, and the state token.
pub fn load_calls(conv_id: &str) -> (res: Vec<Invocation>)
    ensures
        invocations(res@) == load_view(conv_id@),
{
    let query = Members::new().with_text("accountId", JMAP_ACCOUNT_ID).with_text(
        "conversationId",
        conv_id,
    ).with("limit", Json::Number(Some(20))).with("position", Json::Number(Some(-1))).with(
        "preview",
        Json::Bool(false),
    ).into_json();
    let mut calls: Vec<Invocation> = Vec::new();
    calls.push(("ChatMessage/query".to_owned(), query, "0".to_owned()));
    calls.push(message_get("ChatMessage/query", "/ids"));
    assert(invocations(calls@) =~= load_view(conv_id@));
    calls
}

/// The calls that ask what is new since a state.
pub open spec fn delta_view(since: Seq<char>) -> Seq<InvocationView> {
    seq![
        (
            "ChatMessage/changes"@,
            JsonValue::Object(map![
                "accountId"@ => JsonValue::Str(JMAP_ACCOUNT_ID@),
                "sinceState"@ => JsonValue::Str(since),
            ]),
            "0"@,
        ),
        ("ChatMessage/get"@, get_arguments("ChatMessage/changes"@, "/created"@), "1"@),
    ]
}

/// The calls that ask what is new since a state, in all conversations.
pub fn delta_calls(since_state: &str) -> (res: Vec<Invocation>)
    ensures
        invocations(res@) == delta_view(since_state@),
{
    let arguments = Members::new().with_text("accountId", JMAP_ACCOUNT_ID).with_text(
        "sinceState",
        since_state,
    ).into_json();
    let mut calls: Vec<Invocation> = Vec::new();
    calls.push(("ChatMessage/changes".to_owned(), arguments, "0".to_owned()));
    calls.push(message_get("ChatMessage/changes", "/created"));
    assert(invocations(calls@) =~= delta_view(since_state@));
    calls
}

/// The rich form of a plain text: one insertion of the text and a line end.
pub open spec fn body_document(t: Seq<char>) -> JsonValue {
    JsonValue::Object(
        map!["ops"@ => JsonValue::Array(seq![
            JsonValue::Object(map!["insert"@ => JsonValue::Str(t.push('\n'))]),
        ])],
    )
}

proof fn lemma_body_document_storable(t: Seq<char>)
    ensures
        json::storable(body_document(t), json::max_depth()),
{
    let insertion = JsonValue::Object(map!["insert"@ => JsonValue::Str(t.push('\n'))]);
    let ops = JsonValue::Array(seq![insertion]);
    assert(json::storable(JsonValue::Str(t.push('\n')), 124));
    assert(json::storable(insertion, 125));
    assert(json::storable(ops, 126));
}

/// The rich form of a plain text, as JSON text: one insertion of the text and a
/// line end. Every character of the text is read back from it.
pub fn default_body_values(text_body: &str) -> (res: String)
    ensures
        res@ == json::json_text(body_document(text_body@)),
        json::reads_as(res@, body_document(text_body@)),
{
    let mut inserted = text_body.to_owned();
    inserted.push('\n');
    let op = Members::new().with_text("insert", inserted.as_str()).into_json();
    let mut ops: Vec<Json> = Vec::new();
    ops.push(op);
    let ghost shown = ops@;
    let doc = Members::new().with("ops", Json::Array(ops)).into_json();
    proof {
        json::lemma_json_values(shown);
        assert(json::json_values(shown) =~= seq![
            JsonValue::Object(map!["insert"@ => JsonValue::Str(text_body@.push('\n'))]),
        ]);
        lemma_body_document_storable(text_body@);
    }
    json::write_json(&doc)
}

/// Whether a text is a random UUID as `uuid` writes it: groups of 8, 4, 4, 4 and
/// 12 lower-case hexadecimal digits with hyphens between them, of version 4.
pub open spec fn uuid_text(s: Seq<char>) -> bool {
    &&& s.len() == 36
    &&& s[14] == '4'
    &&& s[19] == '8' || s[19] == '9' || s[19] == 'a' || s[19] == 'b'
    &&& forall|i: int|
        0 <= i < 36 ==> if i == 8 || i == 13 || i == 18 || i == 23 {
            #[trigger] s[i] == '-'
        } else {
            ('0' <= s[i] && s[i] <= '9') || ('a' <= s[i] && s[i] <= 'f')
        }
}

/// `uuid::Uuid::new_v4`, written with `to_string`. Which UUID it is, is left to
/// chance.
#[verifier::external_body]
pub(crate) fn random_uuid() -> (res: String)
    ensures
        uuid_text(res@),
{
    uuid::Uuid::new_v4().to_string()
}

/// The call that sends a message, under a temporary id.
pub open spec fn send_view(
    conv_id: Seq<char>,
    text_body: Seq<char>,
    body_values: Seq<char>,
    sender_id: Seq<char>,
    temp_id: Seq<char>,
) -> Seq<InvocationView> {
    seq![
        (
            "ChatMessage/set"@,
            JsonValue::Object(map![
                "create"@ => JsonValue::Object(map![
                    temp_id => JsonValue::Object(map![
                        "bodyValues"@ => JsonValue::Str(body_values),
                        "conversationId"@ => JsonValue::Str(conv_id),
                        "messageType"@ => JsonValue::Str("user"@),
                        "textBody"@ => JsonValue::Str(text_body),
                    ]),
                ]),
                "senderId"@ => JsonValue::Str(sender_id),
            ]),
            "0"@,
        ),
    ]
}

/// The call that sends a message, under a temporary id.
pub fn send_calls(
    conv_id: &str,
    text_body: &str,
    body_values: &str,
    sender_id: &str,
    temp_id: &str,
) -> (res: Vec<Invocation>)
    ensures
        invocations(res@) == send_view(conv_id@, text_body@, body_values@, sender_id@, temp_id@),
{
    let message = Members::new().with_text("bodyValues", body_values).with_text(
        "conversationId",
        conv_id,
    ).with_text("messageType", "user").with_text("textBody", text_body).into_json();
    let create = Members::new().with(temp_id, message).into_json();
    let arguments = Members::new().with("create", create).with_text(
        "senderId",
        sender_id,
    ).into_json();
    let mut calls: Vec<Invocation> = Vec::new();
    calls.push(("ChatMessage/set".to_owned(), arguments, "0".to_owned()));
    assert(invocations(calls@) =~= send_view(
        conv_id@,
        text_body@,
        body_values@,
        sender_id@,
        temp_id@,
    ));
    calls
}

/// Who sends a message: the user whom the token names, else nobody.
pub open spec fn sender_or_nobody(user: Option<Seq<char>>) -> Seq<char> {
    match user {
        Some(u) => u,
        None => ""@,
    }
}

/// The call that sends a message as the user of a token. The message travels
/// under a fresh temporary id, with the rich form of its text where none is
/// given.
pub fn send_message_calls(
    conv_id: &str,
    text_body: &str,
    body_values: Option<&str>,
    token: &str,
) -> (res: Vec<Invocation>)
    ensures
        exists|u: Seq<char>| #[trigger]
            uuid_text(u) && invocations(res@) == send_view(
                conv_id@,
                text_body@,
                match body_values {
                    Some(b) => b@,
                    None => json::json_text(body_document(text_body@)),
                },
                sender_or_nobody(subject(token_claims(token@))),
                "temp-"@ + u,
            ),
{
    let uuid = random_uuid();
    let temp_id = text::join("temp-", uuid.as_str());
    let body = match body_values {
        Some(b) => b.to_owned(),
        None => default_body_values(text_body),
    };
    let sender_id = match current_user_id_from_token(token) {
        Some(u) => u,
        None => "".to_owned(),
    };
    send_calls(conv_id, text_body, body.as_str(), sender_id.as_str(), temp_id.as_str())
}

// ---------------------------------------------------------------------------
// Events
// ---------------------------------------------------------------------------

/// Whether an event of the server tells of news in the chat. An empty event and
/// a `ping` do not. An event with one of the known names does, and so does one
/// whose data is a JSON document that says so.
pub open spec fn tells_of_news(
    name: Seq<char>,
    data: Seq<char>,
    doc: Result<JsonValue, Seq<char>>,
) -> bool {
    &&& data.len() > 0 && data != "ping"@
    &&& {
        ||| name == "ChatMessage"@
        ||| name == "state"@
        ||| name == "StateChange"@
        ||| match doc {
            Ok(v) => json::member_text(v, "@type"@) == Some("StateChange"@) || json::member(
                v,
                "changed"@,
            ) is Some,
            Err(_) => false,
        }
    }
}

/// The names of the events that are listened to, besides those without a name.
pub open spec fn event_names() -> Seq<Seq<char>> {
    seq!["state"@, "StateChange"@, "ChatMessage"@]
}

/// The names of the events that are listened to, besides those without a name.
pub fn chat_event_names() -> (res: Vec<&'static str>)
    ensures
        Seq::new(res@.len(), |i: int| res@[i]@) == event_names(),
{
    let mut res: Vec<&'static str> = Vec::new();
    res.push("state");
    res.push("StateChange");
    res.push("ChatMessage");
    assert(Seq::new(res@.len(), |i: int| res@[i]@) =~= event_names());
    res
}

/// Whether a document says that something has changed.
pub fn announces_change(doc: &Json) -> (res: bool)
    ensures
        res == (json::member_text(doc@, "@type"@) == Some("StateChange"@) || json::member(
            doc@,
            "changed"@,
        ) is Some),
{
    let typed = match doc.get_str("@type") {
        Some(t) => t.eq("StateChange"),
        None => false,
    };
    typed || doc.get("changed").is_some()
}

/// Whether an event of the server tells of news in the chat.
pub fn is_chat_event(name: &str, data: &str) -> (res: bool)
    ensures
        res == tells_of_news(name@, data@, json::json_of_text(data@)),
{
    if data.is_empty() || data.eq("ping") {
        return false;
    }
    if name.eq("ChatMessage") || name.eq("state") || name.eq("StateChange") {
        return true;
    }
    match json::parse_json(data) {
        Ok(doc) => announces_change(&doc),
        Err(_) => false,
    }
}

// ---------------------------------------------------------------------------
// Laws
// ---------------------------------------------------------------------------

proof fn lemma_filter(items: Seq<JsonValue>, keep: spec_fn(JsonValue) -> bool)
    ensures
        forall|i: int| 0 <= i < items.filter(keep).len() ==> keep(#[trigger] items.filter(keep)[i]),
        forall|i: int|
            0 <= i < items.len() && keep(#[trigger] items[i]) ==> items.filter(keep).contains(
                items[i],
            ),
        items.filter(keep).len() <= items.len(),
    decreases items.len(),
{
    reveal(Seq::filter);
    if items.len() > 0 {
        let first = items.drop_last();
        lemma_filter(first, keep);
        let before = first.filter(keep);
        let now = items.filter(keep);
        assert forall|i: int| 0 <= i < items.len() && keep(#[trigger] items[i]) implies now.contains(
            items[i],
        ) by {
            if i < first.len() {
                assert(first[i] == items[i]);
                let k = choose|k: int| 0 <= k < before.len() && before[k] == items[i];
                assert(now[k] == items[i]);
            } else {
                assert(now.last() == items[i]);
            }
        }
    }
}

/// Nothing from another conversation gets through, and nothing of this one is
/// held back.
pub proof fn law_news_stay_in_their_conversation(
    answers: Seq<InvocationView>,
    conv_id: Seq<char>,
)
    requires
        changes(answers, conv_id) is Ok,
        payload_of(answers, "ChatMessage/get"@) is Some,
    ensures
        ({
            let news = changes(answers, conv_id)->Ok_0.0;
            let all = json::member_items(payload_of(answers, "ChatMessage/get"@)->0, "list"@)->0;
            &&& forall|i: int|
                0 <= i < news.len() ==> json::member_text(
                    #[trigger] news[i],
                    "conversationId"@,
                ) == Some(conv_id)
            &&& forall|i: int|
                0 <= i < all.len() && json::member_text(#[trigger] all[i], "conversationId"@)
                    == Some(conv_id) ==> news.contains(all[i])
        }),
{
    let all = json::member_items(payload_of(answers, "ChatMessage/get"@)->0, "list"@)->0;
    let keep = in_conversation(conv_id);
    lemma_filter(all, keep);
    let news = changes(answers, conv_id)->Ok_0.0;
    assert forall|i: int| 0 <= i < news.len() implies json::member_text(
        #[trigger] news[i],
        "conversationId"@,
    ) == Some(conv_id) by {
        assert(keep(news[i]));
    }
    assert forall|i: int|
        0 <= i < all.len() && json::member_text(#[trigger] all[i], "conversationId"@) == Some(
            conv_id,
        ) implies news.contains(all[i]) by {
        assert(keep(all[i]));
    }
}

/// The order of the server is kept: of two news that have their places in the
/// server's list, the earlier one comes first.
pub proof fn law_news_keep_their_order(
    before: Seq<JsonValue>,
    after: Seq<JsonValue>,
    conv_id: Seq<char>,
)
    ensures
        (before + after).filter(in_conversation(conv_id)) == before.filter(
            in_conversation(conv_id),
        ) + after.filter(in_conversation(conv_id)),
    decreases after.len(),
{
    reveal(Seq::filter);
    if after.len() == 0 {
        assert(before + after =~= before);
        assert(after.filter(in_conversation(conv_id)) =~= Seq::empty());
    } else {
        law_news_keep_their_order(before, after.drop_last(), conv_id);
        assert((before + after).drop_last() =~= before + after.drop_last());
        assert((before + after).last() == after.last());
        assert((before + after).filter(in_conversation(conv_id)) =~= before.filter(
            in_conversation(conv_id),
        ) + after.filter(in_conversation(conv_id)));
    }
}

/// The text that a rich form inserts.
pub open spec fn inserted_text(doc: JsonValue) -> Option<Seq<char>> {
    match json::member_items(doc, "ops"@) {
        Some(ops) => if ops.len() > 0 {
            json::member_text(ops[0], "insert"@)
        } else {
            None
        },
        None => None,
    }
}

/// Whatever characters a message has, the receiver reads them back from the body
/// that is sent, followed by a line end.
pub proof fn law_body_is_read_back(t: Seq<char>, sent: Seq<char>)
    requires
        json::reads_as(sent, body_document(t)),
    ensures
        inserted_text(json::json_of_text(sent)->Ok_0) == Some(t.push('\n')),
{
}

/// Every event that is listened to by its name tells of news, whatever its data,
/// unless that is empty or a `ping`.
pub proof fn law_named_events_tell_of_news(
    i: int,
    data: Seq<char>,
    doc: Result<JsonValue, Seq<char>>,
)
    requires
        0 <= i < event_names().len(),
    ensures
        tells_of_news(event_names()[i], data, doc) == (data.len() > 0 && data != "ping"@),
{
}

/// Whether the first answer to a method is at a place among the answers.
pub open spec fn first_answer(answers: Seq<InvocationView>, method: Seq<char>, k: int) -> bool {
    &&& 0 <= k < answers.len()
    &&& answers[k].0 == method
    &&& forall|i: int| 0 <= i < k ==> (#[trigger] answers[i]).0 != method
}

/// Whether no answer is to a method.
pub open spec fn unanswered(answers: Seq<InvocationView>, method: Seq<char>) -> bool {
    forall|i: int| 0 <= i < answers.len() ==> (#[trigger] answers[i]).0 != method
}

/// Of the answers to a method, the first is the one that counts.
pub proof fn law_first_answer_counts(answers: Seq<InvocationView>, method: Seq<char>, k: int)
    ensures
        first_answer(answers, method, k) ==> payload_of(answers, method) == Some(answers[k].1),
        unanswered(answers, method) ==> payload_of(answers, method) is None,
    decreases answers.len(),
{
    if answers.len() > 0 && answers[0].0 != method {
        let rest = answers.skip(1);
        law_first_answer_counts(rest, method, k - 1);
        assert forall|i: int| 0 <= i < rest.len() implies #[trigger] rest[i] == answers[i + 1] by {}
        if first_answer(answers, method, k) {
            assert(k > 0);
            assert(rest[k - 1] == answers[k]);
            assert(first_answer(rest, method, k - 1)) by {
                assert forall|i: int| 0 <= i < k - 1 implies (#[trigger] rest[i]).0 != method by {
                    assert(answers[i + 1].0 != method);
                }
            }
        }
        if unanswered(answers, method) {
            assert forall|i: int| 0 <= i < rest.len() implies (#[trigger] rest[i]).0 != method by {
                assert(answers[i + 1].0 != method);
            }
        }
    }
}

/// A request names the two capabilities of the chat and makes the calls given.
pub proof fn law_requests(calls: Vec<Invocation>, res: JmapRequest)
    requires
        call_ensures(jmap_request, (calls,), res),
    ensures
        res.method_calls@ == calls@,
        res.using@.len() == 2,
        res.using@[0]@ == "urn:ietf:params:jmap:core"@,
        res.using@[1]@ == "urn:ietf:params:jmap:chat"@,
{
    let names = text::strings(res.using@);
    assert(names.len() == res.using@.len() && names.len() == 2);
    assert(names[0] == res.using@[0]@ && names[1] == res.using@[1]@);
}

/// A configured address goes before the origin of the page, which goes before
/// nothing.
pub proof fn law_configured_address_goes_first(
    configured: String,
    page: Option<String>,
    res: String,
)
    requires
        call_ensures(jmap_origin_base, (configured, page), res),
    ensures
        configured@.len() > 0 ==> res@ == configured@,
        configured@.len() == 0 && page is Some ==> res@ == page->0@,
        configured@.len() == 0 && page is None ==> res@.len() == 0,
{
    reveal_strlit("");
}

/// Every address of the server starts with its base and continues with a fixed
/// path.
pub proof fn law_addresses(base: &str, calls: String, session: String, events: String)
    requires
        call_ensures(jmap_url, (base,), calls),
        call_ensures(sse_session_url, (base,), session),
        call_ensures(sse_url, (base,), events),
    ensures
        calls@.take(base@.len() as int) == base@ && calls@.skip(base@.len() as int) == "/jmap"@,
        events@.take(base@.len() as int) == base@ && events@.skip(base@.len() as int) == "/sse"@,
        session@ == events@ + "/session"@,
{
    assert(calls@.take(base@.len() as int) =~= base@);
    assert(calls@.skip(base@.len() as int) =~= "/jmap"@);
    assert(events@.take(base@.len() as int) =~= base@);
    assert(events@.skip(base@.len() as int) =~= "/sse"@);
    reveal_strlit("/sse");
    reveal_strlit("/session");
    reveal_strlit("/sse/session");
    assert("/sse/session"@ =~= "/sse"@ + "/session"@);
    assert(session@ =~= events@ + "/session"@);
}

/// The id token goes before the access token.
pub proof fn law_id_token_goes_first(id: Option<String>, access: Option<String>, res: String)
    requires
        call_ensures(session_token, (id, access), res),
    ensures
        id matches Some(t) ==> res@ == t@,
        id is None ==> (access matches Some(t) ==> res@ == t@),
        id is None && access is None ==> res@.len() == 0,
{
    reveal_strlit("");
}

proof fn lemma_split_once(s: Seq<char>, c: char)
    requires
        forall|i: int| 0 <= i < s.len() ==> #[trigger] s[i] != c,
    ensures
        text::split(s, c) == seq![s],
    decreases s.len(),
{
    if s.len() == 0 {
        assert(s =~= Seq::empty());
        assert(text::split(s, c) =~= seq![s]);
    } else {
        let r = s.drop_last();
        assert forall|i: int| 0 <= i < r.len() implies #[trigger] r[i] != c by {
            assert(s[i] != c);
        }
        lemma_split_once(r, c);
        assert(s[s.len() - 1] != c);
        assert(r.push(s.last()) =~= s);
        assert(text::split(s, c) =~= seq![s]);
    }
}

proof fn lemma_split_append(s: Seq<char>, t: Seq<char>, c: char)
    requires
        forall|i: int| 0 <= i < t.len() ==> #[trigger] t[i] != c,
    ensures
        text::split(s.push(c) + t, c) == text::split(s, c).push(t),
    decreases t.len(),
{
    let all = s.push(c) + t;
    if t.len() == 0 {
        assert(all.drop_last() =~= s);
        assert(all.last() == c);
        assert(t =~= Seq::empty());
        assert(text::split(all, c) =~= text::split(s, c).push(t));
    } else {
        let r = t.drop_last();
        assert forall|i: int| 0 <= i < r.len() implies #[trigger] r[i] != c by {
            assert(t[i] != c);
        }
        lemma_split_append(s, r, c);
        assert(all.drop_last() =~= s.push(c) + r);
        assert(all.last() == t.last());
        assert(t[t.len() - 1] != c);
        assert(r.push(t.last()) =~= t);
        assert(text::split(all, c) =~= text::split(s, c).push(t));
    }
}

/// Whether a text has no dot in it.
pub open spec fn dotless(s: Seq<char>) -> bool {
    forall|i: int| 0 <= i < s.len() ==> #[trigger] s[i] != '.'
}

/// The user of a token is named by the document in the second of its three parts,
/// as `sub`.
pub proof fn law_user_of_a_token(
    token: &str,
    a: Seq<char>,
    b: Seq<char>,
    c: Seq<char>,
    res: Option<String>,
)
    requires
        call_ensures(current_user_id_from_token, (token,), res),
        dotless(a) && dotless(b) && dotless(c),
        token@ == (a.push('.') + b).push('.') + c,
    ensures
        match base64_url_bytes(b) {
            Some(bytes) => match json::json_of_bytes(bytes) {
                Some(claims) => {
                    &&& forall|u: Seq<char>| #[trigger]
                        json::has(claims, "sub"@, JsonValue::Str(u)) ==> json::opt_string(res)
                            == Some(u)
                    &&& json::lacks(claims, "sub"@) || !(claims is Object) ==> res is None
                    &&& (claims matches JsonValue::Object(m) ==> m.dom().contains("sub"@)
                        && !(m["sub"@] is Str) ==> res is None)
                },
                None => res is None,
            },
            None => res is None,
        },
{
    lemma_split_once(a, '.');
    lemma_split_append(a, b, '.');
    lemma_split_append(a.push('.') + b, c, '.');
    let parts = text::split(token@, '.');
    assert(parts =~= seq![a, b, c]);
}

/// A token is asked for its user only when it has three parts, that is two dots.
pub proof fn law_token_of_three_parts(token: &str, parts: bool, user: Option<String>)
    requires
        call_ensures(has_token_parts, (token,), parts),
        call_ensures(current_user_id_from_token, (token,), user),
    ensures
        parts <==> text::split(token@, '.').len() == 3,
        !parts ==> user is None,
{
}

/// The user of the chat is the one of the profile; without one, the user of the
/// session's token.
pub proof fn law_chat_user(
    profile: Option<String>,
    id: Option<String>,
    access: Option<String>,
    token: String,
    token_text: &str,
    by_token: Option<String>,
    res: Option<String>,
)
    requires
        call_ensures(chat_user, (profile, id, access), res),
        call_ensures(session_token, (id, access), token),
        token_text@ == token@,
        call_ensures(current_user_id_from_token, (token_text,), by_token),
    ensures
        profile matches Some(u) ==> (res matches Some(r) && r@ == u@),
        profile is None ==> json::opt_string(res) == json::opt_string(by_token),
{
}

/// What the server answered counts exactly when its status is one of the two
/// hundreds; then a body that cannot be read is a fault that shows it.
pub proof fn law_status_decides(
    code: u16,
    status: String,
    body: String,
    parsed: Result<JmapResponse, String>,
    res: Result<JmapResponse, JmapFailure>,
    session: Result<(), JmapFailure>,
)
    requires
        call_ensures(jmap_answer, (code, status, body, parsed), res),
        call_ensures(sse_session_answer, (code, status, body), session),
    ensures
        session is Ok <==> code / 100 == 2,
        code / 100 != 2 ==> (res matches Err(JmapFailure::Status { status: s, body: b }) && s@
            == status@ && b@ == body@),
        code / 100 != 2 ==> (session matches Err(JmapFailure::SseStatus { status: s, body: b })
            && s@ == status@ && b@ == body@),
        code / 100 == 2 && parsed is Ok ==> (res matches Ok(r) && r == parsed->Ok_0),
        code / 100 == 2 && parsed is Err ==> (res matches Err(
            JmapFailure::Parse { error: e, body: b },
        ) && e@ == parsed->Err_0@ && b@ == body@),
{
}

/// The first load takes the messages and the state from the first answer to the
/// fetch, and neither is taken without the other.
pub proof fn law_first_load(
    response: &JmapResponse,
    k: int,
    items: Seq<JsonValue>,
    state: Seq<char>,
    res: Result<(Vec<Json>, String), String>,
)
    requires
        call_ensures(read_messages_with_state, (response,), res),
    ensures
        first_answer(response@, "ChatMessage/get"@, k) && json::has(
            response@[k].1,
            "list"@,
            JsonValue::Array(items),
        ) && json::has(response@[k].1, "state"@, JsonValue::Str(state)) ==> (res matches Ok(r)
            && json::json_values(r.0@) == items && r.1@ == state),
        first_answer(response@, "ChatMessage/get"@, k) && (json::lacks(response@[k].1, "list"@)
            || json::lacks(response@[k].1, "state"@)) ==> res is Err,
        unanswered(response@, "ChatMessage/get"@) ==> res is Err,
{
    law_first_answer_counts(response@, "ChatMessage/get"@, k);
}

/// What is new is what the first answer to the fetch lists for the conversation,
/// in that order, and the state is the new one; without an answer to the fetch
/// nothing is new.
pub proof fn law_news(
    response: JmapResponse,
    conv_id: &str,
    k: int,
    state: Seq<char>,
    g: int,
    items: Seq<JsonValue>,
    res: Result<ChatMessageChanges, String>,
)
    requires
        call_ensures(extract_message_changes, (response, conv_id), res),
        first_answer(response@, "ChatMessage/changes"@, k),
        json::has(response@[k].1, "newState"@, JsonValue::Str(state)),
    ensures
        unanswered(response@, "ChatMessage/get"@) ==> (res matches Ok(c)
            && c.created_messages@.len() == 0 && c.new_state@ == state),
        first_answer(response@, "ChatMessage/get"@, g) && json::has(
            response@[g].1,
            "list"@,
            JsonValue::Array(items),
        ) ==> (res matches Ok(c) && c.new_state@ == state && json::json_values(c.created_messages@)
            == items.filter(
            |m: JsonValue| json::has(m, "conversationId"@, JsonValue::Str(conv_id@)),
        )),
        first_answer(response@, "ChatMessage/get"@, g) && json::lacks(response@[g].1, "list"@)
            ==> res is Err,
{
    law_first_answer_counts(response@, "ChatMessage/changes"@, k);
    law_first_answer_counts(response@, "ChatMessage/get"@, g);
    if let Ok(c) = res {
        json::lemma_json_values(c.created_messages@);
    }
    assert(in_conversation(conv_id@) =~= |m: JsonValue|
        json::has(m, "conversationId"@, JsonValue::Str(conv_id@)));
}

/// Without a state there are no news, only a fault.
pub proof fn law_news_need_a_state(
    response: JmapResponse,
    conv_id: &str,
    k: int,
    res: Result<ChatMessageChanges, String>,
)
    requires
        call_ensures(extract_message_changes, (response, conv_id), res),
        unanswered(response@, "ChatMessage/changes"@) || (first_answer(
            response@,
            "ChatMessage/changes"@,
            k,
        ) && json::lacks(response@[k].1, "newState"@)),
    ensures
        res is Err,
{
    law_first_answer_counts(response@, "ChatMessage/changes"@, k);
}

proof fn lemma_wire_names_differ()
    ensures
        "accountId"@.len() == 9,
        "conversationId"@.len() == 14,
        "limit"@.len() == 5,
        "position"@.len() == 8,
        "preview"@.len() == 7,
        "sinceState"@.len() == 10,
        "#ids"@.len() == 4,
        "properties"@.len() == 10,
        "name"@.len() == 4 && "name"@[0] == 'n',
        "path"@.len() == 4 && "path"@[0] == 'p',
        "resultOf"@.len() == 8,
        "create"@.len() == 6,
        "senderId"@.len() == 8,
        "bodyValues"@.len() == 10,
        "messageType"@.len() == 11,
        "textBody"@.len() == 8,
{
    reveal_strlit("accountId");
    reveal_strlit("conversationId");
    reveal_strlit("limit");
    reveal_strlit("position");
    reveal_strlit("preview");
    reveal_strlit("sinceState");
    reveal_strlit("#ids");
    reveal_strlit("properties");
    reveal_strlit("name");
    reveal_strlit("path");
    reveal_strlit("resultOf");
    reveal_strlit("create");
    reveal_strlit("senderId");
    reveal_strlit("bodyValues");
    reveal_strlit("messageType");
    reveal_strlit("textBody");
}

/// Whether a call fetches the messages whose ids stand at a path in the answer to
/// the first call, which is of a method.
pub open spec fn fetches(call: InvocationView, method: Seq<char>, path: Seq<char>) -> bool {
    &&& call.0 == "ChatMessage/get"@
    &&& call.2 == "1"@
    &&& json::has(call.1, "accountId"@, JsonValue::Str("acc1"@))
    &&& call.1 matches JsonValue::Object(m)
    &&& m.dom().contains("#ids"@)
    &&& json::has(m["#ids"@], "name"@, JsonValue::Str(method))
    &&& json::has(m["#ids"@], "path"@, JsonValue::Str(path))
    &&& json::has(m["#ids"@], "resultOf"@, JsonValue::Str("0"@))
    &&& m.dom().contains("properties"@)
    &&& m["properties"@] matches JsonValue::Array(p)
    &&& p == seq![
        JsonValue::Str("id"@),
        JsonValue::Str("from"@),
        JsonValue::Str("sentAt"@),
        JsonValue::Str("textBody"@),
        JsonValue::Str("senderId"@),
        JsonValue::Str("conversationId"@),
    ]
}

proof fn lemma_fetches(method: Seq<char>, path: Seq<char>)
    ensures
        fetches(("ChatMessage/get"@, get_arguments(method, path), "1"@), method, path),
{
    lemma_wire_names_differ();
    let p = json::texts_value(message_properties())->Array_0;
    assert(p =~= seq![
        JsonValue::Str("id"@),
        JsonValue::Str("from"@),
        JsonValue::Str("sentAt"@),
        JsonValue::Str("textBody"@),
        JsonValue::Str("senderId"@),
        JsonValue::Str("conversationId"@),
    ]);
    assert("name"@ != "path"@);
}

/// The first load asks for the last twenty messages of the conversation, counted
/// from its end, and fetches those.
pub proof fn law_load_calls(conv_id: &str, res: Vec<Invocation>)
    requires
        call_ensures(load_calls, (conv_id,), res),
    ensures
        ({
            let calls = invocations(res@);
            &&& calls.len() == 2
            &&& calls[0].0 == "ChatMessage/query"@ && calls[0].2 == "0"@
            &&& json::has(calls[0].1, "accountId"@, JsonValue::Str("acc1"@))
            &&& json::has(calls[0].1, "conversationId"@, JsonValue::Str(conv_id@))
            &&& json::has(calls[0].1, "limit"@, JsonValue::Number(Some(20i128)))
            &&& json::has(calls[0].1, "position"@, JsonValue::Number(Some(-1i128)))
            &&& json::has(calls[0].1, "preview"@, JsonValue::Bool(false))
            &&& fetches(calls[1], "ChatMessage/query"@, "/ids"@)
        }),
{
    lemma_wire_names_differ();
    lemma_fetches("ChatMessage/query"@, "/ids"@);
}

/// The calls for news ask for what changed since the state, and fetch what was
/// created.
pub proof fn law_delta_calls(since: &str, res: Vec<Invocation>)
    requires
        call_ensures(delta_calls, (since,), res),
    ensures
        ({
            let calls = invocations(res@);
            &&& calls.len() == 2
            &&& calls[0].0 == "ChatMessage/changes"@ && calls[0].2 == "0"@
            &&& json::has(calls[0].1, "accountId"@, JsonValue::Str("acc1"@))
            &&& json::has(calls[0].1, "sinceState"@, JsonValue::Str(since@))
            &&& fetches(calls[1], "ChatMessage/changes"@, "/created"@)
        }),
{
    lemma_wire_names_differ();
    lemma_fetches("ChatMessage/changes"@, "/created"@);
}

/// Whether a call sends one message: in a conversation, with a text and its rich
/// form, from a sender, under a temporary id.
pub open spec fn sends(
    call: InvocationView,
    conv_id: Seq<char>,
    text: Seq<char>,
    rich: Seq<char>,
    sender: Seq<char>,
    temp_id: Seq<char>,
) -> bool {
    &&& call.0 == "ChatMessage/set"@
    &&& json::has(call.1, "senderId"@, JsonValue::Str(sender))
    &&& call.1 matches JsonValue::Object(m)
    &&& m.dom().contains("create"@)
    &&& m["create"@] matches JsonValue::Object(created)
    &&& created.dom() == set![temp_id]
    &&& json::has(created[temp_id], "conversationId"@, JsonValue::Str(conv_id))
    &&& json::has(created[temp_id], "textBody"@, JsonValue::Str(text))
    &&& json::has(created[temp_id], "bodyValues"@, JsonValue::Str(rich))
    &&& json::has(created[temp_id], "messageType"@, JsonValue::Str("user"@))
}

proof fn lemma_sends(
    conv_id: Seq<char>,
    text: Seq<char>,
    rich: Seq<char>,
    sender: Seq<char>,
    temp_id: Seq<char>,
)
    ensures
        send_view(conv_id, text, rich, sender, temp_id).len() == 1,
        sends(
            send_view(conv_id, text, rich, sender, temp_id)[0],
            conv_id,
            text,
            rich,
            sender,
            temp_id,
        ),
{
    lemma_wire_names_differ();
    let call = send_view(conv_id, text, rich, sender, temp_id)[0];
    let created = call.1->Object_0["create"@]->Object_0;
    assert(created.dom() =~= set![temp_id]);
}

/// A message is sent by one call, which says where it belongs, what it says, and
/// who sends it.
pub proof fn law_send_calls(
    conv_id: &str,
    text_body: &str,
    body_values: &str,
    sender_id: &str,
    temp_id: &str,
    res: Vec<Invocation>,
)
    requires
        call_ensures(send_calls, (conv_id, text_body, body_values, sender_id, temp_id), res),
    ensures
        res@.len() == 1,
        sends(
            invocations(res@)[0],
            conv_id@,
            text_body@,
            body_values@,
            sender_id@,
            temp_id@,
        ),
{
    lemma_sends(conv_id@, text_body@, body_values@, sender_id@, temp_id@);
    assert(invocations(res@).len() == res@.len());
}

/// A message is sent as the user of the token, with the rich form that was given,
/// or with one from which its text and a line end are read back.
pub proof fn law_message_is_sent_as_the_user(
    conv_id: &str,
    text_body: &str,
    body_values: Option<&str>,
    token: &str,
    user: Option<String>,
    sender: Seq<char>,
    res: Vec<Invocation>,
)
    requires
        call_ensures(send_message_calls, (conv_id, text_body, body_values, token), res),
        call_ensures(current_user_id_from_token, (token,), user),
        user matches Some(s) ==> sender == s@,
        user is None ==> sender.len() == 0,
    ensures
        res@.len() == 1,
        exists|rich: Seq<char>, u: Seq<char>|
            {
                &&& u.len() == 36
                &&& #[trigger] sends(
                    invocations(res@)[0],
                    conv_id@,
                    text_body@,
                    rich,
                    sender,
                    "temp-"@ + u,
                )
                &&& body_values matches Some(b) ==> rich == b@
                &&& body_values is None ==> rich == json::json_text(body_document(text_body@))
            },
{
    reveal_strlit("");
    let rich = match body_values {
        Some(b) => b@,
        None => json::json_text(body_document(text_body@)),
    };
    assert(sender =~= sender_or_nobody(subject(token_claims(token@))));
    let u = choose|u: Seq<char>| #[trigger]
        uuid_text(u) && invocations(res@) == send_view(
            conv_id@,
            text_body@,
            rich,
            sender,
            "temp-"@ + u,
        );
    lemma_sends(conv_id@, text_body@, rich, sender, "temp-"@ + u);
    assert(invocations(res@).len() == res@.len());
}

/// The rich form of a text is one insertion, of the text and a line end.
pub proof fn law_rich_form(text_body: &str, res: String)
    requires
        call_ensures(default_body_values, (text_body,), res),
    ensures
        json::json_of_text(res@) matches Ok(JsonValue::Object(m)) && m.dom().contains("ops"@)
            && m["ops"@] == JsonValue::Array(
            seq![JsonValue::Object(map!["insert"@ => JsonValue::Str(text_body@ + "\n"@)])],
        ),
{
    reveal_strlit("\n");
    assert(text_body@ + "\n"@ =~= text_body@.push('\n'));
}

/// An event tells of news exactly when it is neither empty nor a `ping` and is
/// named so, or carries a document that has the type of a change or lists changes.
pub proof fn law_events(name: &str, data: &str, res: bool)
    requires
        call_ensures(is_chat_event, (name, data), res),
    ensures
        data@ == ""@ || data@ == "ping"@ ==> !res,
        data@ != ""@ && data@ != "ping"@ && (name@ == "ChatMessage"@ || name@ == "state"@ || name@
            == "StateChange"@) ==> res,
        data@ != ""@ && data@ != "ping"@ && name@ != "ChatMessage"@ && name@ != "state"@ && name@
            != "StateChange"@ ==> (res <==> (json::json_of_text(data@) matches Ok(v) && (json::has(
            v,
            "@type"@,
            JsonValue::Str("StateChange"@),
        ) || (v matches JsonValue::Object(m) && m.dom().contains("changed"@))))),
{
    reveal_strlit("");
    if data@.len() == 0 {
        assert(data@ =~= ""@);
    }
}

/// The answer to a method is the first that has its name; the messages and the state in
/// it are what it has under `list` and `state`.
pub proof fn law_reading_an_answer(
    response: &JmapResponse,
    method: &str,
    k: int,
    payload: &Json,
    items: Seq<JsonValue>,
    state: Seq<char>,
    found: Option<&Json>,
    list: Result<Vec<Json>, String>,
    token: Result<String, String>,
)
    requires
        call_ensures(find_method_payload, (response, method), found),
        call_ensures(extract_message_list, (payload,), list),
        call_ensures(extract_state_token, (payload,), token),
    ensures
        first_answer(response@, method@, k) ==> (found matches Some(p) && p@ == response@[k].1),
        unanswered(response@, method@) ==> found is None,
        json::has(payload@, "list"@, JsonValue::Array(items)) ==> (list matches Ok(v)
            && json::json_values(v@) == items),
        json::lacks(payload@, "list"@) || !(payload@ is Object) ==> list is Err,
        json::has(payload@, "state"@, JsonValue::Str(state)) ==> (token matches Ok(t) && t@
            == state),
        json::lacks(payload@, "state"@) || !(payload@ is Object) ==> token is Err,
{
    law_first_answer_counts(response@, method@, k);
}

/// The user of some claims is named as `sub`; the user of a session is that of its
/// token.
pub proof fn law_users(
    claims: &Json,
    user: Seq<char>,
    id: Option<String>,
    access: Option<String>,
    token: String,
    token_text: &str,
    subject: Option<String>,
    by_token: Option<String>,
    by_session: Option<String>,
)
    requires
        call_ensures(subject_of_claims, (claims,), subject),
        call_ensures(session_token, (id, access), token),
        token_text@ == token@,
        call_ensures(current_user_id_from_token, (token_text,), by_token),
        call_ensures(current_user_id, (id, access), by_session),
    ensures
        json::has(claims@, "sub"@, JsonValue::Str(user)) ==> (subject matches Some(u) && u@
            == user),
        json::lacks(claims@, "sub"@) || !(claims@ is Object) ==> subject is None,
        json::opt_string(by_session) == json::opt_string(by_token),
{
}

/// The events that are listened to are three, and a document announces a change when
/// its type says so or it lists changes.
pub proof fn law_announcements(doc: &Json, names: Vec<&'static str>, res: bool)
    requires
        call_ensures(chat_event_names, (), names),
        call_ensures(announces_change, (doc,), res),
    ensures
        names@.len() == 3,
        names@[0]@ == "state"@ && names@[1]@ == "StateChange"@ && names@[2]@ == "ChatMessage"@,
        res <==> json::has(doc@, "@type"@, JsonValue::Str("StateChange"@)) || (
        doc@ matches JsonValue::Object(m) && m.dom().contains("changed"@)),
{
    let all = Seq::new(names@.len(), |i: int| names@[i]@);
    assert(all == event_names());
    assert(all.len() == names@.len());
    assert(all[0] == names@[0]@ && all[1] == names@[1]@ && all[2] == names@[2]@);
}

/// What is reported of a failure says which it was and, at its end, what was said of
/// it.
pub proof fn law_reports(f: JmapFailure, res: String)
    requires
        call_ensures(JmapFailure::message, (&f,), res),
    ensures
        match f {
            JmapFailure::Serialize(e) => res@ == "Failed to serialize JMAP request: "@ + e@,
            JmapFailure::Send(e) => res@ == "JMAP request failed: "@ + e@,
            JmapFailure::ReadBody(e) => res@ == "Failed to read response body: "@ + e@,
            JmapFailure::Status { status, body } => res@ == "JMAP request failed: "@ + status@
                + " - "@ + body@,
            JmapFailure::Parse { error, body } => res@ == "Failed to parse JMAP response: "@
                + error@ + " - Body: "@ + body@,
            JmapFailure::SseSession(e) => res@ == "Failed to establish SSE session: "@ + e@,
            JmapFailure::SseStatus { status, body } => res@ == "SSE session request failed: "@
                + status@ + " - "@ + body@,
            JmapFailure::EventSource(e) => res@ == "Failed to create EventSource: "@ + e@,
            JmapFailure::Subscribe { event, error } => res@ == "Failed to subscribe to '"@ + event@
                + "' events: "@ + error@,
        },
{
}

} // verus!
