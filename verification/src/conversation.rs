//! Which conversation belongs to a meeting.
//!
//! The conversation of a meeting is the one whose topic is the meeting's name.
//! The lookup asks the server for candidates, fetches them, and joins the one
//! that matches; where none does, it creates one. [`ConversationLookup`] decides;
//! the caller makes the calls and hands back the answers.

use vstd::prelude::*;
use crate::jmap;
use crate::jmap::{Invocation, InvocationView, JmapResponse, JMAP_ACCOUNT_ID};
use crate::json;
use crate::json::{Json, JsonValue, Members};
use crate::text;

verus! {

// ---------------------------------------------------------------------------
// Calls
// ---------------------------------------------------------------------------

/// One call, under the id that every call of the lookup has.
pub open spec fn single(method: Seq<char>, arguments: JsonValue) -> Seq<InvocationView> {
    seq![(method, arguments, "0"@)]
}

fn single_call(method: &str, arguments: Json) -> (res: Vec<Invocation>)
    ensures
        jmap::invocations(res@) == single(method@, arguments@),
{
    let mut calls: Vec<Invocation> = Vec::new();
    calls.push((method.to_owned(), arguments, "0".to_owned()));
    assert(jmap::invocations(calls@) =~= single(method@, arguments@));
    calls
}

/// Asks for conversations whose topic contains the meeting's name, joined or not.
pub open spec fn query_view(meeting_id: Seq<char>) -> Seq<InvocationView> {
    single(
        "Conversation/query"@,
        JsonValue::Object(map![
            "accountId"@ => JsonValue::Str(JMAP_ACCOUNT_ID@),
            "joinedOnly"@ => JsonValue::Bool(false),
            "search"@ => JsonValue::Str(meeting_id),
        ]),
    )
}

/// Fetches conversations.
pub open spec fn get_view(ids: Seq<Seq<char>>) -> Seq<InvocationView> {
    single(
        "Conversation/get"@,
        JsonValue::Object(map![
            "accountId"@ => JsonValue::Str(JMAP_ACCOUNT_ID@),
            "ids"@ => json::texts_value(ids),
        ]),
    )
}

/// Joins a conversation.
pub open spec fn join_view(conv_id: Seq<char>) -> Seq<InvocationView> {
    single(
        "Conversation/join"@,
        JsonValue::Object(map![
            "accountId"@ => JsonValue::Str(JMAP_ACCOUNT_ID@),
            "conversationId"@ => JsonValue::Str(conv_id),
        ]),
    )
}

/// Creates a public group conversation with the meeting's name as its topic.
pub open spec fn create_view(creator_id: Seq<char>, meeting_id: Seq<char>) -> Seq<InvocationView> {
    single(
        "Conversation/create"@,
        JsonValue::Object(map![
            "creatorId"@ => JsonValue::Str(creator_id),
            "topic"@ => JsonValue::Str(meeting_id),
            "isDirectMessage"@ => JsonValue::Bool(false),
            "isPrivate"@ => JsonValue::Bool(false),
        ]),
    )
}

fn query_call(meeting_id: &str) -> (res: Vec<Invocation>)
    ensures
        jmap::invocations(res@) == query_view(meeting_id@),
{
    single_call(
        "Conversation/query",
        Members::new().with_text("accountId", JMAP_ACCOUNT_ID).with(
            "joinedOnly",
            Json::Bool(false),
        ).with_text("search", meeting_id).into_json(),
    )
}

fn get_call(ids: &Vec<String>) -> (res: Vec<Invocation>)
    ensures
        jmap::invocations(res@) == get_view(text::strings(ids@)),
{
    single_call(
        "Conversation/get",
        Members::new().with_text("accountId", JMAP_ACCOUNT_ID).with(
            "ids",
            json::json_of_texts(ids),
        ).into_json(),
    )
}

fn join_call(conv_id: &str) -> (res: Vec<Invocation>)
    ensures
        jmap::invocations(res@) == join_view(conv_id@),
{
    single_call(
        "Conversation/join",
        Members::new().with_text("accountId", JMAP_ACCOUNT_ID).with_text(
            "conversationId",
            conv_id,
        ).into_json(),
    )
}

fn create_call(creator_id: &str, meeting_id: &str) -> (res: Vec<Invocation>)
    ensures
        jmap::invocations(res@) == create_view(creator_id@, meeting_id@),
{
    single_call(
        "Conversation/create",
        Members::new().with_text("creatorId", creator_id).with_text("topic", meeting_id).with(
            "isDirectMessage",
            Json::Bool(false),
        ).with("isPrivate", Json::Bool(false)).into_json(),
    )
}

// ---------------------------------------------------------------------------
// Answers
// ---------------------------------------------------------------------------

/// The strings among some documents, in their order.
pub open spec fn texts_among(items: Seq<JsonValue>) -> Seq<Seq<char>>
    decreases items.len(),
{
    if items.len() == 0 {
        Seq::empty()
    } else {
        let before = texts_among(items.drop_last());
        match json::text_of(items.last()) {
            Some(t) => before.push(t),
            None => before,
        }
    }
}

/// The items under a key of the answer to a method; none, where it gives none.
pub open spec fn answer_items(
    answers: Seq<InvocationView>,
    method: Seq<char>,
    key: Seq<char>,
) -> Seq<JsonValue> {
    match jmap::payload_of(answers, method) {
        Some(p) => match json::member_items(p, key) {
            Some(items) => items,
            None => Seq::empty(),
        },
        None => Seq::empty(),
    }
}

/// The candidates that a query gave.
pub open spec fn candidates(answers: Seq<InvocationView>) -> Seq<Seq<char>> {
    texts_among(answer_items(answers, "Conversation/query"@, "ids"@))
}

fn find_candidates(response: &JmapResponse) -> (res: Vec<String>)
    ensures
        text::strings(res@) == candidates(response@),
{
    let mut out: Vec<String> = Vec::new();
    assert(text::strings(out@) =~= Seq::empty());
    let payload = match jmap::find_method_payload(response, "Conversation/query") {
        Some(p) => p,
        None => {
            return out;
        },
    };
    let items = match payload.get_array("ids") {
        Some(items) => items,
        None => {
            return out;
        },
    };
    let ghost all = json::json_values(items@);
    proof {
        json::lemma_json_values(items@);
        assert(all.take(0) =~= Seq::empty());
    }
    let mut i: usize = 0;
    while i < items.len()
        invariant
            i <= items@.len(),
            all.len() == items@.len(),
            forall|k: int| 0 <= k < items@.len() ==> #[trigger] all[k] == items@[k]@,
            text::strings(out@) == texts_among(all.take(i as int)),
        decreases items@.len() - i,
    {
        proof {
            assert(all.take(i + 1).drop_last() =~= all.take(i as int));
            assert(all.take(i + 1).last() == items@[i as int]@);
        }
        if let Some(t) = items[i].as_str() {
            let ghost before = out@;
            out.push(t.to_owned());
            assert(text::strings(out@) =~= text::strings(before).push(t@));
        }
        i = i + 1;
    }
    assert(all.take(all.len() as int) == all);
    out
}

/// Whether the topic of a conversation is the meeting's name, but for the case
/// of ASCII letters.
pub open spec fn topic_matches(conv: JsonValue, meeting_id: Seq<char>) -> bool {
    match json::member_text(conv, "topic"@) {
        Some(t) => text::ascii_lower_text(t) == text::ascii_lower_text(meeting_id),
        None => false,
    }
}

/// How many participants a conversation has.
pub open spec fn participants(conv: JsonValue) -> nat {
    match json::member_items(conv, "participants"@) {
        Some(p) => p.len(),
        None => 0,
    }
}

/// Where, among some conversations, the one stands that fits the meeting best:
/// of those with its topic, one with the most participants, and of these the
/// last.
pub open spec fn best_match(convs: Seq<JsonValue>, meeting_id: Seq<char>) -> Option<int>
    decreases convs.len(),
{
    if convs.len() == 0 {
        None
    } else {
        let before = best_match(convs.drop_last(), meeting_id);
        let c = convs.last();
        if !topic_matches(c, meeting_id) {
            before
        } else {
            match before {
                Some(i) => if participants(c) >= participants(convs[i]) {
                    Some(convs.len() - 1)
                } else {
                    before
                },
                None => Some(convs.len() - 1),
            }
        }
    }
}

/// The id of the conversation that fits the meeting best.
pub open spec fn existing_conversation(
    answers: Seq<InvocationView>,
    meeting_id: Seq<char>,
) -> Option<Seq<char>> {
    let convs = answer_items(answers, "Conversation/get"@, "list"@);
    match best_match(convs, meeting_id) {
        Some(i) => json::member_text(convs[i], "id"@),
        None => None,
    }
}

fn has_topic(conv: &Json, meeting_id: &str) -> (res: bool)
    ensures
        res == topic_matches(conv@, meeting_id@),
{
    match conv.get_str("topic") {
        Some(t) => text::same_ignoring_ascii_case(t, meeting_id),
        None => false,
    }
}

fn participant_count(conv: &Json) -> (res: usize)
    ensures
        res == participants(conv@),
{
    match conv.get_array("participants") {
        Some(p) => {
            proof {
                json::lemma_json_values(p@);
            }
            p.len()
        },
        None => 0,
    }
}

fn find_best_match(convs: &Vec<Json>, meeting_id: &str) -> (res: Option<usize>)
    ensures
        match res {
            Some(i) => i < convs@.len() && best_match(json::json_values(convs@), meeting_id@)
                == Some(i as int),
            None => best_match(json::json_values(convs@), meeting_id@) is None,
        },
{
    let ghost all = json::json_values(convs@);
    proof {
        json::lemma_json_values(convs@);
        assert(all.take(0) =~= Seq::empty());
    }
    let mut best: Option<usize> = None;
    let mut i: usize = 0;
    while i < convs.len()
        invariant
            i <= convs@.len(),
            all.len() == convs@.len(),
            forall|k: int| 0 <= k < convs@.len() ==> #[trigger] all[k] == convs@[k]@,
            match best {
                Some(b) => b < i && best_match(all.take(i as int), meeting_id@) == Some(b as int),
                None => best_match(all.take(i as int), meeting_id@) is None,
            },
        decreases convs@.len() - i,
    {
        proof {
            assert(all.take(i + 1).drop_last() =~= all.take(i as int));
            assert(all.take(i + 1).last() == convs@[i as int]@);
        }
        if has_topic(&convs[i], meeting_id) {
            match best {
                Some(b) => {
                    assert(all.take(i + 1)[b as int] == convs@[b as int]@);
                    if participant_count(&convs[i]) >= participant_count(&convs[b]) {
                        best = Some(i);
                    }
                },
                None => {
                    best = Some(i);
                },
            }
        }
        i = i + 1;
    }
    assert(all.take(all.len() as int) == all);
    best
}

fn find_existing(response: &JmapResponse, meeting_id: &str) -> (res: Option<String>)
    ensures
        json::opt_string(res) == existing_conversation(response@, meeting_id@),
{
    let payload = jmap::find_method_payload(response, "Conversation/get")?;
    let convs = payload.get_array("list")?;
    let i: usize = find_best_match(convs, meeting_id)?;
    proof {
        json::lemma_json_values(convs@);
    }
    match convs[i].get_str("id") {
        Some(id) => Some(id.to_owned()),
        None => None,
    }
}

/// The id of the conversation that was created.
pub open spec fn created_conversation(answers: Seq<InvocationView>) -> Option<Seq<char>> {
    let convs = answer_items(answers, "Conversation/create"@, "list"@);
    if convs.len() > 0 {
        json::member_text(convs[0], "id"@)
    } else {
        None
    }
}

fn find_created(response: &JmapResponse) -> (res: Option<String>)
    ensures
        json::opt_string(res) == created_conversation(response@),
{
    let payload = jmap::find_method_payload(response, "Conversation/create")?;
    let convs = payload.get_array("list")?;
    proof {
        json::lemma_json_values(convs@);
    }
    if convs.len() > 0 {
        match convs[0].get_str("id") {
            Some(id) => Some(id.to_owned()),
            None => None,
        }
    } else {
        None
    }
}

// ---------------------------------------------------------------------------
// The lookup
// ---------------------------------------------------------------------------

/// Which answer the lookup waits for.
#[derive(Debug, PartialEq, Eq)]
pub enum ConversationLookup {
    Querying,
    Fetching,
    Joining { conv_id: String },
    Creating,
}

pub enum LookupView {
    Querying,
    Fetching,
    Joining { conv_id: Seq<char> },
    Creating,
}

impl View for ConversationLookup {
    type V = LookupView;

    open spec fn view(&self) -> LookupView {
        match self {
            ConversationLookup::Querying => LookupView::Querying,
            ConversationLookup::Fetching => LookupView::Fetching,
            ConversationLookup::Joining { conv_id } => LookupView::Joining { conv_id: conv_id@ },
            ConversationLookup::Creating => LookupView::Creating,
        }
    }
}

/// What is to be done next.
#[derive(Debug)]
pub enum LookupAction {
    /// Make these calls, and go on from there with the answer.
    Call(Vec<Invocation>, ConversationLookup),
    /// The conversation is found.
    Found(String),
    /// There is no conversation to be had.
    Failed(String),
}

pub enum LookupActionView {
    Call(Seq<InvocationView>, LookupView),
    Found(Seq<char>),
    Failed(Seq<char>),
}

impl View for LookupAction {
    type V = LookupActionView;

    open spec fn view(&self) -> LookupActionView {
        match self {
            LookupAction::Call(c, next) => LookupActionView::Call(jmap::invocations(c@), next@),
            LookupAction::Found(s) => LookupActionView::Found(s@),
            LookupAction::Failed(s) => LookupActionView::Failed(s@),
        }
    }
}

/// An answer of the server, or what went wrong.
pub open spec fn reply_view(reply: Result<JmapResponse, String>) -> Result<
    Seq<InvocationView>,
    Seq<char>,
> {
    match reply {
        Ok(r) => Ok(r@),
        Err(e) => Err(e@),
    }
}

/// The creation of a conversation.
pub open spec fn creation(creator_id: Seq<char>, meeting_id: Seq<char>) -> LookupActionView {
    LookupActionView::Call(create_view(creator_id, meeting_id), LookupView::Creating)
}

/// What is to be done after an answer.
pub open spec fn lookup_step(
    state: LookupView,
    reply: Result<Seq<InvocationView>, Seq<char>>,
    meeting_id: Seq<char>,
    creator_id: Seq<char>,
) -> LookupActionView {
    match (state, reply) {
        (LookupView::Joining { conv_id }, _) => LookupActionView::Found(conv_id),
        (_, Err(e)) => LookupActionView::Failed(e),
        (LookupView::Querying, Ok(answers)) => if candidates(answers).len() > 0 {
            LookupActionView::Call(get_view(candidates(answers)), LookupView::Fetching)
        } else {
            creation(creator_id, meeting_id)
        },
        (LookupView::Fetching, Ok(answers)) => match existing_conversation(answers, meeting_id) {
            Some(id) => LookupActionView::Call(join_view(id), LookupView::Joining { conv_id: id }),
            None => creation(creator_id, meeting_id),
        },
        (LookupView::Creating, Ok(answers)) => match created_conversation(answers) {
            Some(id) => LookupActionView::Found(id),
            None => LookupActionView::Failed(
                "Conversation/create response did not include a conversation ID"@,
            ),
        },
    }
}

impl ConversationLookup {
    /// Starts the lookup of a meeting's conversation.
    pub fn start(meeting_id: &str) -> (res: LookupAction)
        ensures
            res@ == LookupActionView::Call(query_view(meeting_id@), LookupView::Querying),
    {
        LookupAction::Call(query_call(meeting_id), ConversationLookup::Querying)
    }

    /// Goes on after an answer. `creator_id` is the user in whose name a
    /// conversation is created.
    pub fn step(
        self,
        reply: Result<JmapResponse, String>,
        meeting_id: &str,
        creator_id: &str,
    ) -> (res: LookupAction)
        ensures
            res@ == lookup_step(self@, reply_view(reply), meeting_id@, creator_id@),
    {
        match (self, reply) {
            (ConversationLookup::Joining { conv_id }, _) => LookupAction::Found(conv_id),
            (_, Err(e)) => LookupAction::Failed(e),
            (ConversationLookup::Querying, Ok(response)) => {
                let ids = find_candidates(&response);
                assert(text::strings(ids@).len() == ids@.len());
                if ids.len() > 0 {
                    LookupAction::Call(get_call(&ids), ConversationLookup::Fetching)
                } else {
                    LookupAction::Call(
                        create_call(creator_id, meeting_id),
                        ConversationLookup::Creating,
                    )
                }
            },
            (ConversationLookup::Fetching, Ok(response)) => match find_existing(
                &response,
                meeting_id,
            ) {
                Some(id) => {
                    let call = join_call(id.as_str());
                    LookupAction::Call(call, ConversationLookup::Joining { conv_id: id })
                },
                None => LookupAction::Call(
                    create_call(creator_id, meeting_id),
                    ConversationLookup::Creating,
                ),
            },
            (ConversationLookup::Creating, Ok(response)) => match find_created(&response) {
                Some(id) => LookupAction::Found(id),
                None => LookupAction::Failed(
                    "Conversation/create response did not include a conversation ID".to_owned(),
                ),
            },
        }
    }
}

// ---------------------------------------------------------------------------
// Laws
// ---------------------------------------------------------------------------

/// The conversation that is chosen has the meeting's topic; no other with that
/// topic has more participants, and none after it has as many. One is chosen
/// whenever one has the topic.
pub proof fn law_busiest_match_is_chosen(convs: Seq<JsonValue>, meeting_id: Seq<char>)
    ensures
        match best_match(convs, meeting_id) {
            Some(b) => {
                &&& 0 <= b < convs.len()
                &&& topic_matches(convs[b], meeting_id)
                &&& forall|i: int|
                    0 <= i < convs.len() && topic_matches(#[trigger] convs[i], meeting_id)
                        ==> participants(convs[i]) <= participants(convs[b])
                &&& forall|i: int|
                    b < i < convs.len() && topic_matches(#[trigger] convs[i], meeting_id)
                        ==> participants(convs[i]) < participants(convs[b])
            },
            None => forall|i: int|
                0 <= i < convs.len() ==> !topic_matches(#[trigger] convs[i], meeting_id),
        },
    decreases convs.len(),
{
    if convs.len() > 0 {
        let first = convs.drop_last();
        law_busiest_match_is_chosen(first, meeting_id);
        assert forall|i: int| 0 <= i < first.len() implies #[trigger] convs[i] == first[i] by {}
    }
}

/// A conversation that exists is never created a second time: a creation is
/// ordered only when no candidate came back, or none of those fetched has the
/// topic and an id.
pub proof fn law_created_only_when_none_exists(
    state: LookupView,
    answers: Seq<InvocationView>,
    meeting_id: Seq<char>,
    creator_id: Seq<char>,
)
    requires
        lookup_step(
            state,
            Ok::<Seq<InvocationView>, Seq<char>>(answers),
            meeting_id,
            creator_id,
        ) matches LookupActionView::Call(_, next) && next is Creating,
    ensures
        (state is Querying && candidates(answers).len() == 0) || (state is Fetching
            && existing_conversation(answers, meeting_id) is None),
{
}

/// A join that fails does not keep the user out of the conversation.
pub proof fn law_join_is_best_effort(
    conv_id: Seq<char>,
    reply: Result<Seq<InvocationView>, Seq<char>>,
    meeting_id: Seq<char>,
    creator_id: Seq<char>,
)
    ensures
        lookup_step(LookupView::Joining { conv_id }, reply, meeting_id, creator_id)
            == LookupActionView::Found(conv_id),
{
}

/// How many answers the lookup can still wait for.
pub open spec fn answers_left(state: LookupView) -> nat {
    match state {
        LookupView::Querying => 3,
        LookupView::Fetching => 2,
        LookupView::Joining { .. } => 1,
        LookupView::Creating => 1,
    }
}

/// The lookup ends, after three calls at the most: each answer brings it closer
/// to its end.
pub proof fn law_lookup_ends(
    state: LookupView,
    reply: Result<Seq<InvocationView>, Seq<char>>,
    meeting_id: Seq<char>,
    creator_id: Seq<char>,
)
    ensures
        lookup_step(state, reply, meeting_id, creator_id) matches LookupActionView::Call(_, next)
            ==> answers_left(next) < answers_left(state),
{
}

/// Whether two texts are of one length and, at each place, have the same character
/// or one ASCII letter in two cases.
pub open spec fn same_name(a: Seq<char>, b: Seq<char>) -> bool {
    a.len() == b.len() && forall|i: int|
        0 <= i < a.len() ==> #[trigger] a[i] == b[i] || text::other_case(a[i], b[i])
}

/// Whether a document has a topic, and it is a meeting's name, in letters of either
/// case.
pub open spec fn about(conv: JsonValue, meeting_id: Seq<char>) -> bool {
    &&& conv matches JsonValue::Object(m)
    &&& m.dom().contains("topic"@)
    &&& m["topic"@] matches JsonValue::Str(t)
    &&& same_name(t, meeting_id)
}

/// A document matches a meeting exactly when its topic is the meeting's name, in
/// letters of either case.
pub proof fn law_topic_in_either_case(conv: JsonValue, meeting_id: Seq<char>)
    ensures
        topic_matches(conv, meeting_id) <==> about(conv, meeting_id),
{
    if let Some(t) = json::member_text(conv, "topic"@) {
        text::lemma_same_but_for_case(t, meeting_id);
    }
}

/// The participants of a conversation are those that it lists; one that lists none
/// has none.
pub proof fn law_participants(conv: JsonValue, p: Seq<JsonValue>)
    ensures
        json::has(conv, "participants"@, JsonValue::Array(p)) ==> participants(conv) == p.len(),
        json::lacks(conv, "participants"@) ==> participants(conv) == 0,
{
}

/// Among conversations that were fetched, one whose topic is the meeting's name, in
/// letters of either case, is joined, and none is created. No other with that topic
/// has more participants, and none after it as many.
pub proof fn law_existing_conversation_is_joined(
    response: JmapResponse,
    meeting_id: &str,
    creator_id: &str,
    k: int,
    convs: Seq<JsonValue>,
    i: int,
    res: LookupAction,
)
    requires
        call_ensures(
            ConversationLookup::step,
            (
                ConversationLookup::Fetching,
                Ok::<JmapResponse, String>(response),
                meeting_id,
                creator_id,
            ),
            res,
        ),
        jmap::first_answer(response@, "Conversation/get"@, k),
        json::has(response@[k].1, "list"@, JsonValue::Array(convs)),
        0 <= i < convs.len(),
        about(convs[i], meeting_id@),
        forall|j: int|
            0 <= j < convs.len() && about(#[trigger] convs[j], meeting_id@) ==> json::member_text(
                convs[j],
                "id"@,
            ) is Some,
    ensures
        exists|b: int, id: Seq<char>|
            {
                &&& 0 <= b < convs.len()
                &&& about(convs[b], meeting_id@)
                &&& #[trigger] json::has(convs[b], "id"@, JsonValue::Str(id))
                &&& forall|j: int|
                    0 <= j < convs.len() && about(#[trigger] convs[j], meeting_id@)
                        ==> participants(convs[j]) <= participants(convs[b])
                &&& forall|j: int|
                    b < j < convs.len() && about(#[trigger] convs[j], meeting_id@)
                        ==> participants(convs[j]) < participants(convs[b])
                &&& res@ matches LookupActionView::Call(calls, next)
                    && next == (LookupView::Joining { conv_id: id })
                    && calls.len() == 1 && calls[0].0 == "Conversation/join"@
                    && json::has(calls[0].1, "conversationId"@, JsonValue::Str(id))
                    && json::has(calls[0].1, "accountId"@, JsonValue::Str("acc1"@))
            },
{
    jmap::law_first_answer_counts(response@, "Conversation/get"@, k);
    law_busiest_match_is_chosen(convs, meeting_id@);
    assert forall|j: int| 0 <= j < convs.len() implies topic_matches(#[trigger] convs[j], meeting_id@)
        == about(convs[j], meeting_id@) by {
        law_topic_in_either_case(convs[j], meeting_id@);
    }
    assert(answer_items(response@, "Conversation/get"@, "list"@) == convs);
    let b = best_match(convs, meeting_id@)->0;
    let id = convs[b]->Object_0["id"@]->Str_0;
    assert(json::has(convs[b], "id"@, JsonValue::Str(id)));
    lemma_wire_names_differ();
}

proof fn lemma_wire_names_differ()
    ensures
        "accountId"@ != "conversationId"@,
        "accountId"@ != "joinedOnly"@,
        "accountId"@ != "search"@,
        "accountId"@ != "ids"@,
        "joinedOnly"@ != "search"@,
        "creatorId"@ != "topic"@,
        "creatorId"@ != "isDirectMessage"@,
        "creatorId"@ != "isPrivate"@,
        "topic"@ != "isDirectMessage"@,
        "topic"@ != "isPrivate"@,
        "isDirectMessage"@ != "isPrivate"@,
{
    reveal_strlit("accountId");
    reveal_strlit("conversationId");
    reveal_strlit("joinedOnly");
    reveal_strlit("search");
    reveal_strlit("ids");
    reveal_strlit("creatorId");
    reveal_strlit("topic");
    reveal_strlit("isDirectMessage");
    reveal_strlit("isPrivate");
    assert("accountId"@.len() == 9 && "conversationId"@.len() == 14 && "joinedOnly"@.len() == 10);
    assert("search"@.len() == 6 && "ids"@.len() == 3 && "topic"@.len() == 5);
    assert("isDirectMessage"@.len() == 15);
    assert("creatorId"@[0] == 'c' && "isPrivate"@[0] == 'i');
}

/// Whether some calls create one public conversation of several, with a topic and
/// in the name of a user.
pub open spec fn creates(calls: Seq<InvocationView>, topic: Seq<char>, creator: Seq<char>) -> bool {
    &&& calls.len() == 1
    &&& calls[0].0 == "Conversation/create"@
    &&& json::has(calls[0].1, "topic"@, JsonValue::Str(topic))
    &&& json::has(calls[0].1, "creatorId"@, JsonValue::Str(creator))
    &&& json::has(calls[0].1, "isDirectMessage"@, JsonValue::Bool(false))
    &&& json::has(calls[0].1, "isPrivate"@, JsonValue::Bool(false))
}

/// When none of the conversations that were fetched has the meeting's name as its
/// topic, one is created with that topic, in the name of the user.
pub proof fn law_missing_conversation_is_created(
    response: JmapResponse,
    meeting_id: &str,
    creator_id: &str,
    k: int,
    convs: Seq<JsonValue>,
    res: LookupAction,
)
    requires
        call_ensures(
            ConversationLookup::step,
            (
                ConversationLookup::Fetching,
                Ok::<JmapResponse, String>(response),
                meeting_id,
                creator_id,
            ),
            res,
        ),
        jmap::unanswered(response@, "Conversation/get"@) || (jmap::first_answer(
            response@,
            "Conversation/get"@,
            k,
        ) && json::has(response@[k].1, "list"@, JsonValue::Array(convs))),
        jmap::first_answer(response@, "Conversation/get"@, k) ==> forall|j: int|
            0 <= j < convs.len() ==> !about(#[trigger] convs[j], meeting_id@),
    ensures
        res@ matches LookupActionView::Call(calls, next) && next is Creating && creates(
            calls,
            meeting_id@,
            creator_id@,
        ),
{
    jmap::law_first_answer_counts(response@, "Conversation/get"@, k);
    let found = answer_items(response@, "Conversation/get"@, "list"@);
    law_busiest_match_is_chosen(found, meeting_id@);
    assert forall|j: int| 0 <= j < found.len() implies topic_matches(#[trigger] found[j], meeting_id@)
        == about(found[j], meeting_id@) by {
        law_topic_in_either_case(found[j], meeting_id@);
    }
    lemma_wire_names_differ();
}

/// The lookup starts with a search for the meeting's name, among conversations that
/// the user has not joined too.
pub proof fn law_lookup_starts_with_a_search(meeting_id: &str, res: LookupAction)
    requires
        call_ensures(ConversationLookup::start, (meeting_id,), res),
    ensures
        res@ matches LookupActionView::Call(calls, next) && next is Querying && calls.len() == 1
            && calls[0].0 == "Conversation/query"@ && json::has(
            calls[0].1,
            "search"@,
            JsonValue::Str(meeting_id@),
        ) && json::has(calls[0].1, "joinedOnly"@, JsonValue::Bool(false)) && json::has(
            calls[0].1,
            "accountId"@,
            JsonValue::Str("acc1"@),
        ),
{
    lemma_wire_names_differ();
}

/// The candidates are the strings among the ids, each of them and nothing else; ids
/// that are strings all keep their places.
pub proof fn law_candidates_are_the_strings(items: Seq<JsonValue>)
    ensures
        texts_among(items).len() <= items.len(),
        forall|i: int|
            0 <= i < items.len() && #[trigger] items[i] is Str ==> texts_among(items).contains(
                items[i]->Str_0,
            ),
        forall|t: Seq<char>| #[trigger]
            texts_among(items).contains(t) ==> items.contains(JsonValue::Str(t)),
        (forall|i: int| 0 <= i < items.len() ==> #[trigger] items[i] is Str) ==> texts_among(
            items,
        ).len() == items.len() && forall|i: int|
            0 <= i < items.len() ==> texts_among(items)[i] == (#[trigger] items[i])->Str_0,
    decreases items.len(),
{
    if items.len() > 0 {
        let first = items.drop_last();
        law_candidates_are_the_strings(first);
        let before = texts_among(first);
        let now = texts_among(items);
        assert forall|i: int| 0 <= i < first.len() implies first[i] == #[trigger] items[i] by {}
        assert forall|i: int| 0 <= i < items.len() && #[trigger] items[i] is Str implies now.contains(
            items[i]->Str_0,
        ) by {
            if i < first.len() {
                assert(first[i] is Str);
                assert(before.contains(items[i]->Str_0));
                let k = choose|k: int| 0 <= k < before.len() && before[k] == items[i]->Str_0;
                assert(now[k] == items[i]->Str_0);
            } else {
                assert(now.last() == items[i]->Str_0);
            }
        }
        assert forall|t: Seq<char>| #[trigger] now.contains(t) implies items.contains(
            JsonValue::Str(t),
        ) by {
            let k = choose|k: int| 0 <= k < now.len() && now[k] == t;
            if k < before.len() {
                assert(before[k] == t);
                assert(before.contains(t));
                assert(first.contains(JsonValue::Str(t)));
                let i = choose|i: int| 0 <= i < first.len() && first[i] == JsonValue::Str(t);
                assert(items[i] == JsonValue::Str(t));
            } else {
                assert(items.last() == JsonValue::Str(t));
            }
        }
        if forall|i: int| 0 <= i < items.len() ==> #[trigger] items[i] is Str {
            assert forall|i: int| 0 <= i < first.len() implies #[trigger] first[i] is Str by {
                assert(items[i] is Str);
            }
            assert(items[items.len() - 1] is Str);
        }
    }
}

/// The candidates of a search are fetched, all of them and in their order; where
/// there is none, a conversation is created.
pub proof fn law_candidates_are_fetched(
    response: JmapResponse,
    meeting_id: &str,
    creator_id: &str,
    k: int,
    ids: Seq<JsonValue>,
    res: LookupAction,
)
    requires
        call_ensures(
            ConversationLookup::step,
            (
                ConversationLookup::Querying,
                Ok::<JmapResponse, String>(response),
                meeting_id,
                creator_id,
            ),
            res,
        ),
        jmap::first_answer(response@, "Conversation/query"@, k),
        json::has(response@[k].1, "ids"@, JsonValue::Array(ids)),
        forall|i: int| 0 <= i < ids.len() ==> #[trigger] ids[i] is Str,
    ensures
        ids.len() > 0 ==> (res@ matches LookupActionView::Call(calls, next) && next is Fetching
            && calls.len() == 1 && calls[0].0 == "Conversation/get"@ && json::has(
            calls[0].1,
            "ids"@,
            JsonValue::Array(ids),
        ) && json::has(calls[0].1, "accountId"@, JsonValue::Str("acc1"@))),
        ids.len() == 0 ==> (res@ matches LookupActionView::Call(calls, next) && next is Creating
            && creates(calls, meeting_id@, creator_id@)),
{
    jmap::law_first_answer_counts(response@, "Conversation/query"@, k);
    law_candidates_are_the_strings(ids);
    lemma_wire_names_differ();
    let texts = texts_among(ids);
    assert(json::texts_value(texts)->Array_0 =~= ids) by {
        assert forall|i: int| 0 <= i < ids.len() implies #[trigger] ids[i] == JsonValue::Str(texts[i]) by {
            assert(ids[i] is Str);
        }
    }
}

/// The conversation that was created is the first that the answer lists. An answer
/// without one ends the lookup with a fault.
pub proof fn law_created_conversation_is_found(
    response: JmapResponse,
    meeting_id: &str,
    creator_id: &str,
    k: int,
    convs: Seq<JsonValue>,
    id: Seq<char>,
    res: LookupAction,
)
    requires
        call_ensures(
            ConversationLookup::step,
            (
                ConversationLookup::Creating,
                Ok::<JmapResponse, String>(response),
                meeting_id,
                creator_id,
            ),
            res,
        ),
    ensures
        jmap::first_answer(response@, "Conversation/create"@, k) && json::has(
            response@[k].1,
            "list"@,
            JsonValue::Array(convs),
        ) && convs.len() > 0 && json::has(convs[0], "id"@, JsonValue::Str(id)) ==> res@
            == LookupActionView::Found(id),
        jmap::unanswered(response@, "Conversation/create"@) || (jmap::first_answer(
            response@,
            "Conversation/create"@,
            k,
        ) && (json::lacks(response@[k].1, "list"@) || (json::has(
            response@[k].1,
            "list"@,
            JsonValue::Array(convs),
        ) && (convs.len() == 0 || json::lacks(convs[0], "id"@))))) ==> res@
            == LookupActionView::Failed(
            "Conversation/create response did not include a conversation ID"@,
        ),
{
    jmap::law_first_answer_counts(response@, "Conversation/create"@, k);
}

/// A fault on the way to the server ends the lookup with that fault; only a join
/// is not needed.
pub proof fn law_faults_end_the_lookup(
    state: ConversationLookup,
    fault: String,
    meeting_id: &str,
    creator_id: &str,
    res: LookupAction,
)
    requires
        call_ensures(
            ConversationLookup::step,
            (state, Err::<JmapResponse, String>(fault), meeting_id, creator_id),
            res,
        ),
    ensures
        match state {
            ConversationLookup::Joining { conv_id } => res@ == LookupActionView::Found(conv_id@),
            _ => res@ == LookupActionView::Failed(fault@),
        },
{
}

/// When the conversation that fits best, of those that were fetched, has no id, there is
/// nothing to join, and one is created.
pub proof fn law_match_without_an_id(
    response: JmapResponse,
    meeting_id: &str,
    creator_id: &str,
    k: int,
    convs: Seq<JsonValue>,
    b: int,
    res: LookupAction,
)
    requires
        call_ensures(
            ConversationLookup::step,
            (
                ConversationLookup::Fetching,
                Ok::<JmapResponse, String>(response),
                meeting_id,
                creator_id,
            ),
            res,
        ),
        jmap::first_answer(response@, "Conversation/get"@, k),
        json::has(response@[k].1, "list"@, JsonValue::Array(convs)),
        0 <= b < convs.len(),
        about(convs[b], meeting_id@),
        json::lacks(convs[b], "id"@),
        forall|j: int|
            0 <= j < convs.len() && j != b && about(#[trigger] convs[j], meeting_id@)
                ==> participants(convs[j]) < participants(convs[b]),
    ensures
        res@ matches LookupActionView::Call(calls, next) && next is Creating && creates(
            calls,
            meeting_id@,
            creator_id@,
        ),
{
    jmap::law_first_answer_counts(response@, "Conversation/get"@, k);
    law_busiest_match_is_chosen(convs, meeting_id@);
    assert forall|j: int| 0 <= j < convs.len() implies topic_matches(#[trigger] convs[j], meeting_id@)
        == about(convs[j], meeting_id@) by {
        law_topic_in_either_case(convs[j], meeting_id@);
    }
    assert(answer_items(response@, "Conversation/get"@, "list"@) == convs);
    let c = best_match(convs, meeting_id@)->0;
    if c != b {
        assert(participants(convs[c]) < participants(convs[b]));
        assert(participants(convs[b]) <= participants(convs[c]));
    }
    lemma_wire_names_differ();
}

} // verus!
