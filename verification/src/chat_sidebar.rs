//! The chat panel: what it holds, and how it changes.
//!
//! [`ChatSession`] is the state of the panel. The caller draws it, makes the calls
//! to the server, and tells the session what came of them.

use vstd::prelude::*;
use crate::chat_message;
use crate::chat_message::{ChatMessage, MessageView};
use crate::clock;
use crate::jmap::ChatMessageChanges;
use crate::json;
use crate::json::{Json, JsonValue};
use crate::text;

verus! {

// ---------------------------------------------------------------------------
// Fetching what is new
// ---------------------------------------------------------------------------

/// How far the fetching of news has come. A trigger that comes while a round is
/// under way starts no second one: it is kept, and one more round follows.
#[derive(Debug, Clone, Copy, PartialEq, Eq, Structural)]
pub enum DeltaFetch {
    /// No round is under way.
    Idle,
    /// A round is about to begin.
    Ready { pending: bool },
    /// The server was asked, and has not answered.
    Fetching { pending: bool },
}

/// What happens to the fetching of news.
#[derive(Debug, Clone, Copy, PartialEq, Eq, Structural)]
pub enum DeltaEvent {
    /// The server told of news.
    Trigger,
    /// A round begins; `seeded` tells whether there is a state to start from.
    Begin { seeded: bool },
    /// The server answered.
    Succeeded,
    /// The server did not answer, or not what was asked.
    Failed,
}

/// How far the fetching has come after an event.
pub open spec fn delta_step(d: DeltaFetch, e: DeltaEvent) -> DeltaFetch {
    match (d, e) {
        (DeltaFetch::Idle, DeltaEvent::Trigger) => DeltaFetch::Ready { pending: false },
        (DeltaFetch::Ready { .. }, DeltaEvent::Trigger) => DeltaFetch::Ready { pending: true },
        (DeltaFetch::Fetching { .. }, DeltaEvent::Trigger) => DeltaFetch::Fetching {
            pending: true,
        },
        (DeltaFetch::Ready { pending }, DeltaEvent::Begin { seeded: true }) => DeltaFetch::Fetching {
            pending,
        },
        (DeltaFetch::Ready { .. }, DeltaEvent::Begin { seeded: false }) => DeltaFetch::Idle,
        (DeltaFetch::Fetching { pending: true }, DeltaEvent::Succeeded) => DeltaFetch::Ready {
            pending: false,
        },
        (DeltaFetch::Fetching { pending: false }, DeltaEvent::Succeeded) => DeltaFetch::Idle,
        (DeltaFetch::Fetching { .. }, DeltaEvent::Failed) => DeltaFetch::Idle,
        _ => d,
    }
}

/// Whether an event sends a request to the server.
pub open spec fn asks_server(d: DeltaFetch, e: DeltaEvent) -> bool {
    d is Ready && e == (DeltaEvent::Begin { seeded: true })
}

/// Whether an event ends a request to the server.
pub open spec fn ends_request(d: DeltaFetch, e: DeltaEvent) -> bool {
    d is Fetching && (e == DeltaEvent::Succeeded || e == DeltaEvent::Failed)
}

impl DeltaFetch {
    /// How far the fetching has come after an event. An event that cannot come
    /// now changes nothing.
    pub fn step(self, event: DeltaEvent) -> (res: DeltaFetch)
        ensures
            res == delta_step(self, event),
    {
        match (self, event) {
            (DeltaFetch::Idle, DeltaEvent::Trigger) => DeltaFetch::Ready { pending: false },
            (DeltaFetch::Ready { .. }, DeltaEvent::Trigger) => DeltaFetch::Ready { pending: true },
            (DeltaFetch::Fetching { .. }, DeltaEvent::Trigger) => DeltaFetch::Fetching {
                pending: true,
            },
            (DeltaFetch::Ready { pending }, DeltaEvent::Begin { seeded }) => if seeded {
                DeltaFetch::Fetching { pending }
            } else {
                DeltaFetch::Idle
            },
            (DeltaFetch::Fetching { pending }, DeltaEvent::Succeeded) => if pending {
                DeltaFetch::Ready { pending: false }
            } else {
                DeltaFetch::Idle
            },
            (DeltaFetch::Fetching { .. }, DeltaEvent::Failed) => DeltaFetch::Idle,
            _ => self,
        }
    }
}

// ---------------------------------------------------------------------------
// The session
// ---------------------------------------------------------------------------

/// The state of the chat panel.
#[derive(Debug)]
pub struct ChatSession {
    /// The messages, oldest first.
    pub messages: Vec<ChatMessage>,
    /// The state of the server that the messages show; empty before the first
    /// load.
    pub state_token: String,
    /// The number of the next message of the user's own.
    pub next_local_id: u32,
    pub load_error: Option<String>,
    pub is_loading: bool,
    /// Whether the button is shown that leads to the newest message.
    pub show_jump_button: bool,
    pub visible: bool,
    /// Whether the panel was visible when that was last looked at.
    pub was_visible: bool,
    /// The conversation of the meeting, once it is known.
    pub conv_id: Option<String>,
    /// The user for whom the chat is shown, once that is known.
    pub user_id: Option<String>,
    /// What the user has typed.
    pub input: String,
    pub delta: DeltaFetch,
}

pub struct SessionView {
    pub messages: Seq<MessageView>,
    pub state_token: Seq<char>,
    pub next_local_id: u32,
    pub load_error: Option<Seq<char>>,
    pub is_loading: bool,
    pub show_jump_button: bool,
    pub visible: bool,
    pub was_visible: bool,
    pub conv_id: Option<Seq<char>>,
    pub user_id: Option<Seq<char>>,
    pub input: Seq<char>,
    pub delta: DeltaFetch,
}

impl View for ChatSession {
    type V = SessionView;

    open spec fn view(&self) -> SessionView {
        SessionView {
            messages: chat_message::shown(self.messages@),
            state_token: self.state_token@,
            next_local_id: self.next_local_id,
            load_error: json::opt_string(self.load_error),
            is_loading: self.is_loading,
            show_jump_button: self.show_jump_button,
            visible: self.visible,
            was_visible: self.was_visible,
            conv_id: json::opt_string(self.conv_id),
            user_id: json::opt_string(self.user_id),
            input: self.input@,
            delta: self.delta,
        }
    }
}

/// The panel before anything is known.
pub open spec fn fresh_session(visible: bool) -> SessionView {
    SessionView {
        messages: Seq::empty(),
        state_token: ""@,
        next_local_id: 0,
        load_error: None,
        is_loading: true,
        show_jump_button: false,
        visible,
        was_visible: false,
        conv_id: None,
        user_id: None,
        input: ""@,
        delta: DeltaFetch::Idle,
    }
}

/// Whether messages show some documents, to a user: each in its place, with the
/// time at which it was sent.
pub open spec fn messages_show(
    list: Seq<MessageView>,
    docs: Seq<JsonValue>,
    me: Option<Seq<char>>,
) -> bool {
    &&& list.len() == docs.len()
    &&& forall|i: int|
        0 <= i < docs.len() ==> #[trigger] list[i] == chat_message::message_of(
            docs[i],
            me,
            list[i].timestamp,
        ) && clock::timestamp_shows(chat_message::sent_at(docs[i]), list[i].timestamp)
}

/// The messages in some documents, in their order.
fn read_messages(docs: &Vec<Json>, me: &Option<String>) -> (res: Vec<ChatMessage>)
    ensures
        messages_show(
            chat_message::shown(res@),
            json::json_values(docs@),
            json::opt_string(*me),
        ),
{
    let mut out: Vec<ChatMessage> = Vec::new();
    let mut i: usize = 0;
    while i < docs.len()
        invariant
            i <= docs@.len(),
            out@.len() == i,
            forall|k: int|
                0 <= k < i ==> (#[trigger] out@[k])@ == chat_message::message_of(
                    docs@[k]@,
                    json::opt_string(*me),
                    out@[k].timestamp@,
                ) && clock::timestamp_shows(
                    chat_message::sent_at(docs@[k]@),
                    out@[k].timestamp@,
                ),
        decreases docs@.len() - i,
    {
        out.push(chat_message::parse_chat_message(&docs[i], me));
        i = i + 1;
    }
    proof {
        json::lemma_json_values(docs@);
    }
    out
}

/// The messages in some documents, in reverse order.
fn read_messages_reversed(docs: &Vec<Json>, me: &Option<String>) -> (res: Vec<ChatMessage>)
    ensures
        messages_show(
            chat_message::shown(res@),
            json::json_values(docs@).reverse(),
            json::opt_string(*me),
        ),
{
    let mut out: Vec<ChatMessage> = Vec::new();
    let mut i: usize = docs.len();
    while i > 0
        invariant
            i <= docs@.len(),
            out@.len() == docs@.len() - i,
            forall|k: int|
                0 <= k < docs@.len() - i ==> (#[trigger] out@[k])@ == chat_message::message_of(
                    docs@[docs@.len() - 1 - k]@,
                    json::opt_string(*me),
                    out@[k].timestamp@,
                ) && clock::timestamp_shows(
                    chat_message::sent_at(docs@[docs@.len() - 1 - k]@),
                    out@[k].timestamp@,
                ),
        decreases i,
    {
        i = i - 1;
        out.push(chat_message::parse_chat_message(&docs[i], me));
    }
    proof {
        json::lemma_json_values(docs@);
    }
    out
}

/// A message that is to be sent.
#[derive(Debug, PartialEq, Eq)]
pub struct SendOrder {
    pub text: String,
    /// The conversation to send it to; nothing, while none is known.
    pub conv_id: Option<String>,
}

/// The message that stands for one of the user's own until the server knows it.
pub open spec fn local_message(number: u32, t: Seq<char>) -> MessageView {
    MessageView {
        id: chat_message::LOCAL_PREFIX@ + text::decimal(number as nat),
        sender: "You"@,
        initials: "YO"@,
        text: t,
        timestamp: "Now"@,
        is_self: true,
    }
}

/// The conversation to send to: the one that is known, unless its id is empty.
pub open spec fn send_target(conv_id: Option<Seq<char>>) -> Option<Seq<char>> {
    match conv_id {
        Some(c) => if c.len() > 0 {
            Some(c)
        } else {
            None
        },
        None => None,
    }
}

impl ChatSession {
    /// The panel before anything is known.
    pub fn new(visible: bool) -> (res: ChatSession)
        ensures
            res@ == fresh_session(visible),
    {
        let res = ChatSession {
            messages: Vec::new(),
            state_token: "".to_owned(),
            next_local_id: 0,
            load_error: None,
            is_loading: true,
            show_jump_button: false,
            visible,
            was_visible: false,
            conv_id: None,
            user_id: None,
            input: "".to_owned(),
            delta: DeltaFetch::Idle,
        };
        assert(res@.messages =~= Seq::empty());
        res
    }

    /// The user for whom the chat is shown was found out.
    pub fn set_user(&mut self, user_id: Option<String>)
        ensures
            final(self)@ == (SessionView { user_id: json::opt_string(user_id), ..old(self)@ }),
    {
        self.user_id = user_id;
    }

    /// The lookup of the conversation has ended.
    pub fn conversation_resolved(&mut self, result: Result<String, String>)
        ensures
            match result {
                Ok(cid) => final(self)@ == (SessionView { conv_id: Some(cid@), ..old(self)@ }),
                Err(e) => final(self)@ == (SessionView {
                    load_error: Some("Could not open chat: "@ + e@),
                    is_loading: false,
                    ..old(self)@
                }),
            },
    {
        match result {
            Ok(cid) => {
                self.conv_id = Some(cid);
            },
            Err(e) => {
                self.load_error = Some(text::join("Could not open chat: ", e.as_str()));
                self.is_loading = false;
            },
        }
    }

    /// The first load of the conversation has ended, as seen by `me`. The server
    /// gives the newest message first; the panel shows the oldest first.
    pub fn initial_load(&mut self, result: Result<(Vec<Json>, String), String>, me: &Option<String>)
        ensures
            match result {
                Ok(r) => {
                    &&& messages_show(
                        final(self)@.messages,
                        json::json_values(r.0@).reverse(),
                        json::opt_string(*me),
                    )
                    &&& final(self)@ == (SessionView {
                        messages: final(self)@.messages,
                        state_token: r.1@,
                        is_loading: false,
                        ..old(self)@
                    })
                },
                Err(e) => final(self)@ == (SessionView {
                    load_error: Some(text::debug_text(e@)),
                    is_loading: false,
                    ..old(self)@
                }),
            },
    {
        match result {
            Ok((docs, token)) => {
                self.messages = read_messages_reversed(&docs, me);
                self.state_token = token;
                self.is_loading = false;
            },
            Err(e) => {
                self.load_error = Some(text::debug_string(e.as_str()));
                self.is_loading = false;
            },
        }
    }

    /// The server told of news. Tells whether a round of fetching is to be
    /// started: none is, while one is under way.
    pub fn on_change(&mut self) -> (start: bool)
        ensures
            start == (old(self)@.delta is Idle),
            final(self)@ == (SessionView {
                delta: delta_step(old(self)@.delta, DeltaEvent::Trigger),
                ..old(self)@
            }),
    {
        let start = matches!(self.delta, DeltaFetch::Idle);
        self.delta = self.delta.step(DeltaEvent::Trigger);
        start
    }

    /// A round of fetching begins: the state since which news are to be fetched,
    /// unless no state is known yet. In that case the round ends here, as the
    /// first load will show what there is.
    pub fn begin_fetch(&mut self) -> (since: Option<String>)
        requires
            old(self)@.delta is Ready,
        ensures
            json::opt_string(since) == if old(self)@.state_token.len() > 0 {
                Some(old(self)@.state_token)
            } else {
                None
            },
            final(self)@ == (SessionView {
                delta: delta_step(
                    old(self)@.delta,
                    DeltaEvent::Begin { seeded: old(self)@.state_token.len() > 0 },
                ),
                ..old(self)@
            }),
    {
        let seeded = !self.state_token.as_str().is_empty();
        self.delta = self.delta.step(DeltaEvent::Begin { seeded });
        if seeded {
            Some(self.state_token.clone())
        } else {
            None
        }
    }

    /// Adds news to the messages. Tells whether some came from someone else.
    pub fn merge_news(&mut self, news: Vec<ChatMessage>) -> (from_others: bool)
        ensures
            final(self)@ == (SessionView {
                messages: chat_message::capped(
                    chat_message::merged(old(self)@.messages, chat_message::shown(news@)),
                ),
                ..old(self)@
            }),
            from_others == chat_message::news_from_others(
                old(self)@.messages,
                chat_message::shown(news@),
            ),
    {
        chat_message::merge_delta_messages(&mut self.messages, news)
    }

    /// The server answered with what is new. The state moves on, even if nothing
    /// is new in this conversation. Where something is, it is merged into the
    /// messages, as seen by `me`, and the answer tells whether some of it came
    /// from someone else.
    pub fn fetched(&mut self, changes: ChatMessageChanges, me: &Option<String>) -> (res: Option<
        bool,
    >)
        requires
            old(self)@.delta is Fetching,
        ensures
            changes.created_messages@.len() == 0 ==> res is None && final(self)@ == (SessionView {
                state_token: changes.new_state@,
                ..old(self)@
            }),
            changes.created_messages@.len() > 0 ==> exists|news: Seq<MessageView>| #[trigger]
                messages_show(
                    news,
                    json::json_values(changes.created_messages@),
                    json::opt_string(*me),
                ) && res == Some(chat_message::news_from_others(old(self)@.messages, news))
                    && final(self)@ == (SessionView {
                    messages: chat_message::capped(
                        chat_message::merged(old(self)@.messages, news),
                    ),
                    state_token: changes.new_state@,
                    ..old(self)@
                }),
    {
        self.state_token = changes.new_state;
        if changes.created_messages.len() == 0 {
            return None;
        }
        let news = read_messages(&changes.created_messages, me);
        Some(self.merge_news(news))
    }

    /// News were merged and drawn: the panel shows the newest message. Tells
    /// whether the user is to be notified, which is so when someone else wrote
    /// while the panel is closed.
    pub fn news_drawn(&mut self, from_others: bool) -> (notify: bool)
        ensures
            notify == (from_others && !old(self)@.visible),
            final(self)@ == (SessionView { show_jump_button: false, ..old(self)@ }),
    {
        self.show_jump_button = false;
        from_others && !self.visible
    }

    /// A round has ended well. Tells whether another one is to follow, as
    /// something came up in the meantime.
    pub fn round_done(&mut self) -> (again: bool)
        requires
            old(self)@.delta is Fetching,
        ensures
            again == (old(self)@.delta == (DeltaFetch::Fetching { pending: true })),
            final(self)@ == (SessionView {
                delta: delta_step(old(self)@.delta, DeltaEvent::Succeeded),
                ..old(self)@
            }),
    {
        let again = matches!(self.delta, DeltaFetch::Fetching { pending: true });
        self.delta = self.delta.step(DeltaEvent::Succeeded);
        again
    }

    /// A round has failed: nothing moves on, and no other round follows by
    /// itself.
    pub fn round_failed(&mut self)
        requires
            old(self)@.delta is Fetching,
        ensures
            final(self)@ == (SessionView { delta: DeltaFetch::Idle, ..old(self)@ }),
    {
        self.delta = self.delta.step(DeltaEvent::Failed);
    }

    /// The user typed.
    pub fn set_input(&mut self, input: String)
        ensures
            final(self)@ == (SessionView { input: input@, ..old(self)@ }),
    {
        self.input = input;
    }

    /// Whether there is anything to send.
    pub fn can_send(&self) -> (res: bool)
        ensures
            res == (text::trimmed(self@.input).len() > 0),
    {
        text::trimmed_chars(self.input.as_str()).len() > 0
    }

    /// Sends what the user typed, without the white space around it: it is shown
    /// at once, and the field is emptied. Where nothing was typed, nothing
    /// happens.
    pub fn do_send(&mut self) -> (res: Option<SendOrder>)
        requires
            text::trimmed(old(self)@.input).len() > 0 ==> old(self)@.next_local_id < u32::MAX,
        ensures
            ({
                let t = text::trimmed(old(self)@.input);
                if t.len() == 0 {
                    res is None && final(self)@ == old(self)@
                } else {
                    &&& res matches Some(order)
                    &&& order.text@ == t
                    &&& json::opt_string(order.conv_id) == send_target(old(self)@.conv_id)
                    &&& final(self)@ == (SessionView {
                        messages: old(self)@.messages.push(
                            local_message(old(self)@.next_local_id, t),
                        ),
                        next_local_id: (old(self)@.next_local_id + 1) as u32,
                        input: ""@,
                        ..old(self)@
                    })
                }
            }),
    {
        let text = text::trim(self.input.as_str());
        if text.as_str().is_empty() {
            return None;
        }
        let ghost before = self@.messages;
        let number = text::decimal_string(self.next_local_id as u64);
        self.messages.push(
            ChatMessage {
                id: text::join(chat_message::LOCAL_PREFIX, number.as_str()),
                sender: "You".to_owned(),
                initials: "YO".to_owned(),
                text: text.clone(),
                timestamp: "Now".to_owned(),
                is_self: true,
            },
        );
        assert(self@.messages =~= before.push(local_message(self.next_local_id, text@)));
        self.next_local_id = self.next_local_id + 1;
        self.input = "".to_owned();
        let conv_id = match &self.conv_id {
            Some(c) => if c.as_str().is_empty() {
                None
            } else {
                Some(c.clone())
            },
            None => None,
        };
        Some(SendOrder { text, conv_id })
    }

    /// The panel was opened or closed.
    pub fn set_visible(&mut self, visible: bool)
        ensures
            final(self)@ == (SessionView { visible, ..old(self)@ }),
    {
        self.visible = visible;
    }

    /// Looks at whether the panel has been opened since this was last asked: the
    /// newest message is to be shown then.
    pub fn just_opened(&mut self) -> (res: bool)
        ensures
            res == (old(self)@.visible && !old(self)@.was_visible),
            final(self)@ == (SessionView { was_visible: old(self)@.visible, ..old(self)@ }),
    {
        let res = self.visible && !self.was_visible;
        self.was_visible = self.visible;
        res
    }

    /// The panel was moved to the newest message.
    pub fn scrolled_to_bottom(&mut self)
        ensures
            final(self)@ == (SessionView { show_jump_button: false, ..old(self)@ }),
    {
        self.show_jump_button = false;
    }

    /// The user scrolled.
    pub fn scrolled(&mut self, near_bottom: bool)
        ensures
            final(self)@ == (SessionView { show_jump_button: !near_bottom, ..old(self)@ }),
    {
        self.show_jump_button = !near_bottom;
    }
}

// ---------------------------------------------------------------------------
// What is drawn
// ---------------------------------------------------------------------------

/// How far from its end, in pixels, a list still counts as scrolled to the end.
pub const SCROLL_BOTTOM_THRESHOLD_PX: i32 = 80;

/// How far a list is scrolled: the height of all of it, the height above what is
/// seen, and the height of what is seen.
#[derive(Debug, Clone, Copy, PartialEq, Eq, Structural)]
pub struct ScrollPosition {
    pub scroll_height: i32,
    pub scroll_top: i32,
    pub client_height: i32,
}

/// Whether the list is scrolled to its end, or close to it. A list that is not on
/// the page counts as such.
pub fn is_chat_near_bottom(list: Option<ScrollPosition>) -> (res: bool)
    ensures
        res == match list {
            Some(p) => p.scroll_height - p.scroll_top - p.client_height
                <= SCROLL_BOTTOM_THRESHOLD_PX,
            None => true,
        },
{
    match list {
        Some(p) => {
            let distance: i64 = p.scroll_height as i64 - p.scroll_top as i64
                - p.client_height as i64;
            distance <= SCROLL_BOTTOM_THRESHOLD_PX as i64
        },
        None => true,
    }
}

/// The style of the panel.
pub fn container_class(visible: bool) -> (res: &'static str)
    ensures
        res@ == if visible {
            "chat-sidebar visible"@
        } else {
            "chat-sidebar"@
        },
{
    if visible {
        "chat-sidebar visible"
    } else {
        "chat-sidebar"
    }
}

/// The style of a message.
pub fn item_class(is_self: bool) -> (res: &'static str)
    ensures
        res@ == if is_self {
            "chat-message chat-message--self"@
        } else {
            "chat-message"@
        },
{
    if is_self {
        "chat-message chat-message--self"
    } else {
        "chat-message"
    }
}

/// What the list of messages shows.
#[derive(Debug, Clone, Copy, PartialEq, Eq, Structural)]
pub enum ListContent {
    /// That messages are being loaded.
    Loading,
    /// What went wrong, and the messages that there are.
    Error,
    /// That there are no messages yet.
    Empty,
    /// The messages.
    Messages,
}

pub open spec fn list_content(s: SessionView) -> ListContent {
    if s.is_loading {
        ListContent::Loading
    } else if s.load_error is Some {
        ListContent::Error
    } else if s.messages.len() == 0 {
        ListContent::Empty
    } else {
        ListContent::Messages
    }
}

impl ChatSession {
    /// What the list of messages shows.
    pub fn content(&self) -> (res: ListContent)
        ensures
            res == list_content(self@),
    {
        if self.is_loading {
            ListContent::Loading
        } else if self.load_error.is_some() {
            ListContent::Error
        } else if self.messages.len() == 0 {
            ListContent::Empty
        } else {
            ListContent::Messages
        }
    }
}

// ---------------------------------------------------------------------------
// Laws
// ---------------------------------------------------------------------------

/// How far the fetching has come after some events, from its start.
pub open spec fn delta_after(events: Seq<DeltaEvent>) -> DeltaFetch
    decreases events.len(),
{
    if events.len() == 0 {
        DeltaFetch::Idle
    } else {
        delta_step(delta_after(events.drop_last()), events.last())
    }
}

/// How many requests were sent.
pub open spec fn requests_sent(events: Seq<DeltaEvent>) -> nat
    decreases events.len(),
{
    if events.len() == 0 {
        0
    } else {
        requests_sent(events.drop_last()) + if asks_server(
            delta_after(events.drop_last()),
            events.last(),
        ) {
            1nat
        } else {
            0nat
        }
    }
}

/// How many requests have ended.
pub open spec fn requests_ended(events: Seq<DeltaEvent>) -> nat
    decreases events.len(),
{
    if events.len() == 0 {
        0
    } else {
        requests_ended(events.drop_last()) + if ends_request(
            delta_after(events.drop_last()),
            events.last(),
        ) {
            1nat
        } else {
            0nat
        }
    }
}

/// Whatever happens, at most one request is under way.
pub proof fn law_one_request_at_a_time(events: Seq<DeltaEvent>)
    ensures
        requests_sent(events) == requests_ended(events) + if delta_after(events) is Fetching {
            1nat
        } else {
            0nat
        },
    decreases events.len(),
{
    if events.len() > 0 {
        law_one_request_at_a_time(events.drop_last());
    }
}

/// Whether a request is still to be sent for news that the server told of.
pub open spec fn request_owed(d: DeltaFetch) -> bool {
    d is Ready || d == (DeltaFetch::Fetching { pending: true })
}

/// No news are missed: once the server told of some, a request is owed, and it
/// stays owed until it is sent, unless a request fails or there is no state to
/// start from.
pub proof fn law_news_are_never_missed(d: DeltaFetch, e: DeltaEvent)
    ensures
        request_owed(delta_step(d, DeltaEvent::Trigger)),
        request_owed(d) && !asks_server(d, e) && e != DeltaEvent::Failed && e != (
        DeltaEvent::Begin { seeded: false }) ==> request_owed(delta_step(d, e)),
{
}

/// A burst of triggers while a round is under way counts as one.
pub proof fn law_bursts_are_collapsed(d: DeltaFetch)
    requires
        !(d is Idle),
    ensures
        delta_step(delta_step(d, DeltaEvent::Trigger), DeltaEvent::Trigger) == delta_step(
            d,
            DeltaEvent::Trigger,
        ),
{
}

/// Requests do not go on by themselves: without a trigger, a round that ends is
/// the last.
pub proof fn law_rounds_end(d: DeltaFetch, e: DeltaEvent)
    requires
        d == (DeltaFetch::Fetching { pending: false }),
        e == DeltaEvent::Succeeded || e == DeltaEvent::Failed,
    ensures
        delta_step(d, e) is Idle,
{
}

/// Two messages of the user's own never have the same id.
pub proof fn law_local_ids_differ(a: u32, b: u32, s: Seq<char>, t: Seq<char>)
    requires
        local_message(a, s).id == local_message(b, t).id,
    ensures
        a == b,
{
    let p = chat_message::LOCAL_PREFIX@;
    let x = text::decimal(a as nat);
    let y = text::decimal(b as nat);
    assert(x =~= (p + x).skip(p.len() as int));
    assert(y =~= (p + y).skip(p.len() as int));
    text::law_decimal_injective(a as nat, b as nat);
}

/// A message that the user sent is shown once: when the server's copy of it comes
/// back, under an id that is not shown yet, it takes the place of a message that
/// stood for one with this text, and the list does not grow.
pub proof fn law_echo_takes_the_place(list: Seq<MessageView>, number: u32, echo: MessageView)
    requires
        echo.is_self,
        !chat_message::is_known(list.push(local_message(number, echo.text)), echo),
    ensures
        ({
            let before = list.push(local_message(number, echo.text));
            let after = chat_message::merged_one(before, echo);
            after.len() == before.len() && exists|i: int|
                0 <= i < after.len() && chat_message::is_bubble(before[i], echo.text) && after
                    == #[trigger] before.update(i, echo)
        }),
{
    let bubble = local_message(number, echo.text);
    let before = list.push(bubble);
    let p = chat_message::LOCAL_PREFIX@;
    assert(bubble.id.take(p.len() as int) =~= p);
    assert(chat_message::is_bubble(before.last(), echo.text));
    chat_message::lemma_first_bubble(before, echo.text);
    let i = chat_message::first_bubble(before, echo.text);
    if i >= before.len() {
        assert(!chat_message::is_bubble(before[before.len() - 1], echo.text));
    }
    assert(chat_message::merged_one(before, echo) == before.update(i, echo));
}

/// Whether a trigger is kept for one more round.
pub open spec fn is_pending(d: DeltaFetch) -> bool {
    match d {
        DeltaFetch::Idle => false,
        DeltaFetch::Ready { pending } => pending,
        DeltaFetch::Fetching { pending } => pending,
    }
}

/// A request is under way from the beginning of a round with a state to start from
/// until an answer or its failure. A round is about to begin after a trigger, and
/// after an answer if a trigger came in the meantime. A trigger is kept while a
/// round is about to begin or under way, and until that ends.
pub proof fn law_rounds(d: DeltaFetch, e: DeltaEvent, res: DeltaFetch)
    requires
        call_ensures(DeltaFetch::step, (d, e), res),
    ensures
        res is Fetching <==> (d is Fetching && !(e is Succeeded) && !(e is Failed)) || (d is Ready
            && e == (DeltaEvent::Begin { seeded: true })),
        res is Ready <==> (d is Idle && e is Trigger) || (d is Ready && !(e is Begin)) || (
        d is Fetching && is_pending(d) && e is Succeeded),
        is_pending(res) <==> (e is Trigger && !(d is Idle)) || (is_pending(d) && !(e is Trigger)
            && !(res is Idle) && !(d is Fetching && e is Succeeded)),
{
}

/// A fresh panel has nothing in it and is loading.
pub proof fn law_fresh_panel(visible: bool, res: ChatSession)
    requires
        call_ensures(ChatSession::new, (visible,), res),
    ensures
        res@.messages.len() == 0,
        res@.state_token.len() == 0,
        res@.input.len() == 0,
        res.next_local_id == 0,
        res.load_error is None,
        res.is_loading,
        !res.show_jump_button,
        res.visible == visible,
        !res.was_visible,
        res.conv_id is None,
        res.user_id is None,
        res.delta is Idle,
{
    reveal_strlit("");
}

/// The conversation that was found is the one of the panel, which goes on loading;
/// one that was not found is an error, and nothing is loaded.
pub proof fn law_conversation_of_the_panel(s: &mut ChatSession, result: Result<String, String>)
    requires
        call_ensures(ChatSession::conversation_resolved, (s, result), ()),
    ensures
        final(s)@.messages == old(s)@.messages,
        final(s)@.state_token == old(s)@.state_token,
        match result {
            Ok(c) => {
                &&& final(s)@.conv_id == Some(c@)
                &&& final(s).is_loading == old(s).is_loading
                &&& final(s)@.load_error == old(s)@.load_error
            },
            Err(e) => {
                &&& final(s)@.conv_id == old(s)@.conv_id
                &&& !final(s).is_loading
                &&& final(s)@.load_error == Some("Could not open chat: "@ + e@)
            },
        },
{
}

/// Whether a message is the one in a document, seen by a user: with its id, its text,
/// its sender and the time at which it was sent, and the user's own when that is who
/// sent it.
pub open spec fn is_of(m: MessageView, doc: JsonValue, me: Option<String>) -> bool {
    &&& forall|id: Seq<char>| #[trigger]
        json::has(doc, "id"@, JsonValue::Str(id)) ==> m.id == id
    &&& forall|t: Seq<char>| #[trigger]
        json::has(doc, "textBody"@, JsonValue::Str(t)) ==> m.text == t
    &&& forall|n: Seq<char>| #[trigger]
        chat_message::from_has(doc, "displayName"@, n) ==> m.sender == n
    &&& forall|u: Seq<char>| #[trigger]
        chat_message::from_has(doc, "id"@, u) ==> (m.is_self <==> me is Some && me->0@ == u)
    &&& forall|raw: Seq<char>| #[trigger]
        json::has(doc, "sentAt"@, JsonValue::Str(raw)) ==> clock::timestamp_shows(raw, m.timestamp)
    &&& me is None ==> !m.is_self
}

/// The first load shows the messages that the server gave, newest last where the
/// server has them newest first, and keeps the state. A load that fails shows why,
/// and keeps what there was.
pub proof fn law_first_load_is_shown(
    s: &mut ChatSession,
    result: Result<(Vec<Json>, String), String>,
    me: &Option<String>,
)
    requires
        call_ensures(ChatSession::initial_load, (s, result, me), ()),
    ensures
        !final(s).is_loading,
        final(s)@.conv_id == old(s)@.conv_id,
        final(s).next_local_id == old(s).next_local_id,
        match result {
            Ok(r) => {
                &&& final(s)@.state_token == r.1@
                &&& final(s)@.load_error == old(s)@.load_error
                &&& final(s)@.messages.len() == r.0@.len()
                &&& forall|i: int|
                    0 <= i < r.0@.len() ==> is_of(
                        #[trigger] final(s)@.messages[i],
                        r.0@[r.0@.len() - 1 - i]@,
                        *me,
                    )
            },
            Err(e) => {
                &&& final(s)@.messages == old(s)@.messages
                &&& final(s)@.state_token == old(s)@.state_token
                &&& final(s)@.load_error == Some(text::debug_text(e@))
            },
        },
{
    if let Ok(r) = result {
        json::lemma_json_values(r.0@);
        let docs = json::json_values(r.0@).reverse();
        assert forall|i: int| 0 <= i < r.0@.len() implies is_of(
            #[trigger] final(s)@.messages[i],
            r.0@[r.0@.len() - 1 - i]@,
            *me,
        ) by {
            assert(docs[i] == r.0@[r.0@.len() - 1 - i]@);
        }
    }
}

/// A trigger starts a round exactly when none is about to begin or under way, and
/// changes nothing that is shown.
pub proof fn law_trigger(s: &mut ChatSession, start: bool)
    requires
        call_ensures(ChatSession::on_change, (s,), start),
    ensures
        start <==> old(s).delta is Idle,
        start ==> final(s).delta is Ready && !is_pending(final(s).delta),
        !start ==> is_pending(final(s).delta) && (final(s).delta is Ready <==> old(s).delta
            is Ready),
        final(s)@.messages == old(s)@.messages,
        final(s)@.state_token == old(s)@.state_token,
{
}

/// A round asks for what is new since the state of the panel; without one it ends
/// before it has asked.
pub proof fn law_round_begins(s: &mut ChatSession, since: Option<String>)
    requires
        old(s)@.delta is Ready,
        call_ensures(ChatSession::begin_fetch, (s,), since),
    ensures
        since is Some <==> old(s)@.state_token.len() > 0,
        since matches Some(t) ==> t@ == old(s)@.state_token,
        since is Some ==> final(s).delta is Fetching && is_pending(final(s).delta) == is_pending(
            old(s).delta,
        ),
        since is None ==> final(s).delta is Idle,
        final(s)@.messages == old(s)@.messages,
        final(s)@.state_token == old(s)@.state_token,
{
}

/// The state moves to the one of the answer, whatever the answer holds. An answer
/// without messages changes no others; messages are merged in the order of the
/// answer, as they are where they are merged by hand.
pub proof fn law_answer_is_merged(
    s: &mut ChatSession,
    changes: ChatMessageChanges,
    me: &Option<String>,
    res: Option<bool>,
)
    requires
        old(s)@.delta is Fetching,
        call_ensures(ChatSession::fetched, (s, changes, me), res),
    ensures
        final(s)@.state_token == changes.new_state@,
        final(s)@.delta == old(s)@.delta,
        final(s)@.input == old(s)@.input,
        res is None <==> changes.created_messages@.len() == 0,
        res is None ==> final(s)@.messages == old(s)@.messages,
        res is Some ==> exists|news: Seq<MessageView>|
            {
                &&& news.len() == changes.created_messages@.len()
                &&& forall|i: int|
                    0 <= i < news.len() ==> is_of(
                        #[trigger] news[i],
                        changes.created_messages@[i]@,
                        *me,
                    )
                &&& res == Some(chat_message::news_from_others(old(s)@.messages, news))
                &&& final(s)@.messages == chat_message::capped(
                    #[trigger] chat_message::merged(old(s)@.messages, news),
                )
            },
{
    if changes.created_messages@.len() > 0 {
        json::lemma_json_values(changes.created_messages@);
        let docs = json::json_values(changes.created_messages@);
        let news = choose|news: Seq<MessageView>| #[trigger]
            messages_show(news, docs, json::opt_string(*me)) && res == Some(
                chat_message::news_from_others(old(s)@.messages, news),
            ) && final(s)@ == (SessionView {
                messages: chat_message::capped(chat_message::merged(old(s)@.messages, news)),
                state_token: changes.new_state@,
                ..old(s)@
            });
        assert forall|i: int| 0 <= i < news.len() implies is_of(
            #[trigger] news[i],
            changes.created_messages@[i]@,
            *me,
        ) by {
            assert(docs[i] == changes.created_messages@[i]@);
        }
        assert(final(s)@.messages == chat_message::capped(
            chat_message::merged(old(s)@.messages, news),
        ));
    }
}

/// The user is notified exactly of what someone else wrote while the panel was
/// closed; once news are drawn, there is nothing to jump to.
pub proof fn law_notice(s: &mut ChatSession, from_others: bool, notify: bool)
    requires
        call_ensures(ChatSession::news_drawn, (s, from_others), notify),
    ensures
        notify ==> from_others && !old(s).visible,
        from_others && !old(s).visible ==> notify,
        !final(s).show_jump_button,
        final(s)@.messages == old(s)@.messages,
        final(s).visible == old(s).visible,
{
}

/// After a round that ended well, another follows exactly when a trigger came in the
/// meantime.
pub proof fn law_round_ends_well(s: &mut ChatSession, again: bool)
    requires
        old(s)@.delta is Fetching,
        call_ensures(ChatSession::round_done, (s,), again),
    ensures
        again <==> is_pending(old(s).delta),
        again ==> final(s).delta is Ready,
        !again ==> final(s).delta is Idle,
        !is_pending(final(s).delta),
        final(s)@.messages == old(s)@.messages,
        final(s)@.state_token == old(s)@.state_token,
{
}

/// A round that failed leaves the messages and the state as they were, and no other
/// follows.
pub proof fn law_round_fails(s: &mut ChatSession)
    requires
        old(s)@.delta is Fetching,
        call_ensures(ChatSession::round_failed, (s,), ()),
    ensures
        final(s).delta is Idle,
        final(s)@.messages == old(s)@.messages,
        final(s)@.state_token == old(s)@.state_token,
{
}

/// There is something to send exactly when something other than white space was
/// typed.
pub proof fn law_something_to_send(s: &ChatSession, res: bool)
    requires
        call_ensures(ChatSession::can_send, (s,), res),
    ensures
        !res <==> text::blank(s@.input),
{
    text::law_trimmed(s@.input);
    let t = text::trimmed(s@.input);
    let (i, j) = choose|i: int, j: int|
        0 <= i <= j <= s@.input.len() && t == #[trigger] s@.input.subrange(i, j) && (forall|k: int|
            0 <= k < i || j <= k < s@.input.len() ==> text::is_whitespace(#[trigger] s@.input[k]));
    if t.len() > 0 {
        assert(t[0] == s@.input[i]);
    } else {
        assert(i == j);
    }
}

/// What was typed, without the white space round it, is sent to the conversation and
/// shown at once as the user's own, under a number that was not used before; the
/// field is emptied. Where only white space was typed, nothing happens.
pub proof fn law_sending(
    s: &mut ChatSession,
    before: Seq<char>,
    inside: Seq<char>,
    after: Seq<char>,
    res: Option<SendOrder>,
)
    requires
        text::blank(before) && text::blank(after),
        inside.len() > 0 ==> !text::is_whitespace(inside[0]) && !text::is_whitespace(inside.last()),
        old(s)@.input == before + inside + after,
        old(s).next_local_id < u32::MAX,
        call_ensures(ChatSession::do_send, (s,), res),
    ensures
        inside.len() == 0 ==> res is None && final(s)@ == old(s)@,
        inside.len() > 0 ==> {
            &&& res is Some
            &&& res->0.text@ == inside
            &&& match old(s).conv_id {
                Some(c) => if c@.len() > 0 {
                    res->0.conv_id is Some && res->0.conv_id->0@ == c@
                } else {
                    res->0.conv_id is None
                },
                None => res->0.conv_id is None,
            }
            &&& final(s)@.input.len() == 0
            &&& final(s).next_local_id == old(s).next_local_id + 1
            &&& final(s)@.messages.len() == old(s)@.messages.len() + 1
            &&& final(s)@.messages.drop_last() == old(s)@.messages
            &&& final(s)@.messages.last().is_self
            &&& final(s)@.messages.last().text == inside
            &&& final(s)@.messages.last().sender == "You"@
            &&& final(s)@.messages.last().initials == "YO"@
            &&& final(s)@.messages.last().timestamp == "Now"@
            &&& text::has_prefix(final(s)@.messages.last().id, "local-"@)
            &&& text::number_in(final(s)@.messages.last().id.skip(6)) == old(s).next_local_id
            &&& final(s)@.conv_id == old(s)@.conv_id
            &&& final(s)@.state_token == old(s)@.state_token
        },
{
    reveal_strlit("");
    reveal_strlit("local-");
    text::lemma_trim_leaves_what_is_inside(before, inside, after);
    if inside.len() > 0 {
        let n = old(s).next_local_id as nat;
        text::law_decimal(n);
        let id = final(s)@.messages.last().id;
        assert(id == "local-"@ + text::decimal(n));
        assert(id.take(6) =~= "local-"@);
        assert(id.skip(6) =~= text::decimal(n));
        assert(final(s)@.messages.drop_last() =~= old(s)@.messages);
    }
}

/// An opening of the panel is noticed once: asked again, with the panel left open,
/// there is nothing new.
pub proof fn law_opening_is_noticed_once(
    s: &mut ChatSession,
    t: &mut ChatSession,
    first: bool,
    again: bool,
)
    requires
        call_ensures(ChatSession::just_opened, (s,), first),
        *old(t) == *final(s),
        call_ensures(ChatSession::just_opened, (t,), again),
    ensures
        first <==> old(s).visible && !old(s).was_visible,
        !again,
        final(t).visible == old(s).visible,
{
}

/// The button that leads to the newest message is there exactly while the list is
/// scrolled away from its end.
pub proof fn law_jump_button(s: &mut ChatSession, t: &mut ChatSession, near_bottom: bool)
    requires
        call_ensures(ChatSession::scrolled, (s, near_bottom), ()),
        call_ensures(ChatSession::scrolled_to_bottom, (t,), ()),
    ensures
        final(s).show_jump_button <==> !near_bottom,
        !final(t).show_jump_button,
        final(s)@.messages == old(s)@.messages,
        final(t)@.messages == old(t)@.messages,
{
}

/// A list counts as scrolled to its end when no more than eighty pixels of it lie
/// below what is seen; so does one that is not there.
pub proof fn law_near_the_end(p: ScrollPosition, below: int, res: bool, none: bool)
    requires
        p.scroll_height == p.scroll_top + p.client_height + below,
        call_ensures(is_chat_near_bottom, (Some(p),), res),
        call_ensures(is_chat_near_bottom, (None::<ScrollPosition>,), none),
    ensures
        res <==> below <= 80,
        none,
{
}

/// What the list shows: that it is loading, before all else; then an error; then
/// that it is empty, or its messages.
pub proof fn law_what_the_list_shows(s: &ChatSession, res: ListContent)
    requires
        call_ensures(ChatSession::content, (s,), res),
    ensures
        res is Loading <==> s.is_loading,
        res is Error <==> !s.is_loading && s.load_error is Some,
        res is Empty <==> !s.is_loading && s.load_error is None && s.messages@.len() == 0,
        res is Messages <==> !s.is_loading && s.load_error is None && s.messages@.len() > 0,
{
}

/// The styles: an open panel and the user's own messages are marked.
pub proof fn law_styles(visible: bool, is_self: bool, panel: &'static str, item: &'static str)
    requires
        call_ensures(container_class, (visible,), panel),
        call_ensures(item_class, (is_self,), item),
    ensures
        panel@ == "chat-sidebar"@ + if visible {
            " visible"@
        } else {
            Seq::empty()
        },
        item@ == "chat-message"@ + if is_self {
            " chat-message--self"@
        } else {
            Seq::empty()
        },
{
    reveal_strlit("chat-sidebar");
    reveal_strlit(" visible");
    reveal_strlit("chat-sidebar visible");
    reveal_strlit("chat-message");
    reveal_strlit(" chat-message--self");
    reveal_strlit("chat-message chat-message--self");
    assert("chat-sidebar visible"@ =~= "chat-sidebar"@ + " visible"@);
    assert("chat-message chat-message--self"@ =~= "chat-message"@ + " chat-message--self"@);
    assert("chat-sidebar"@ =~= "chat-sidebar"@ + Seq::empty());
    assert("chat-message"@ =~= "chat-message"@ + Seq::empty());
}

/// Who the user is, what was typed and whether the panel is open is remembered as it
/// was said, and nothing else changes.
pub proof fn law_what_is_said_is_remembered(
    s: &mut ChatSession,
    t: &mut ChatSession,
    u: &mut ChatSession,
    user: Option<String>,
    input: String,
    visible: bool,
)
    requires
        call_ensures(ChatSession::set_user, (s, user), ()),
        call_ensures(ChatSession::set_input, (t, input), ()),
        call_ensures(ChatSession::set_visible, (u, visible), ()),
    ensures
        final(s)@.user_id == json::opt_string(user),
        final(s)@.messages == old(s)@.messages && final(s)@.input == old(s)@.input,
        final(t)@.input == input@,
        final(t)@.messages == old(t)@.messages && final(t)@.user_id == old(t)@.user_id,
        final(u).visible == visible,
        final(u).was_visible == old(u).was_visible,
{
}

/// News are merged into the panel as they are into any list, and change nothing else.
pub proof fn law_news_in_the_panel(
    s: &mut ChatSession,
    list: &mut Vec<ChatMessage>,
    news: Vec<ChatMessage>,
    badge: bool,
    from_others: bool,
)
    requires
        call_ensures(ChatSession::merge_news, (s, news), from_others),
        chat_message::shown(old(list)@) == old(s)@.messages,
        call_ensures(chat_message::merge_delta_messages, (list, news), badge),
    ensures
        from_others == badge,
        final(s)@.messages == chat_message::shown(final(list)@),
        final(s)@.state_token == old(s)@.state_token,
        final(s)@.delta == old(s)@.delta,
        final(s)@.input == old(s)@.input,
        final(s).next_local_id == old(s).next_local_id,
{
}

} // verus!
