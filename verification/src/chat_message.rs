//! The messages of a chat: how one is read from the server's JSON, and how news
//! from the server is merged into the list that is shown.

use vstd::prelude::*;
use crate::clock;
use crate::json;
use crate::json::{Json, JsonValue};
use crate::text;

verus! {

/// A message as it is shown.
#[derive(Debug, PartialEq, Eq)]
pub struct ChatMessage {
    pub id: String,
    pub sender: String,
    pub initials: String,
    pub text: String,
    pub timestamp: String,
    pub is_self: bool,
}

impl Clone for ChatMessage {
    fn clone(&self) -> (res: ChatMessage)
        ensures
            res == *self,
    {
        ChatMessage {
            id: self.id.clone(),
            sender: self.sender.clone(),
            initials: self.initials.clone(),
            text: self.text.clone(),
            timestamp: self.timestamp.clone(),
            is_self: self.is_self,
        }
    }
}

pub struct MessageView {
    pub id: Seq<char>,
    pub sender: Seq<char>,
    pub initials: Seq<char>,
    pub text: Seq<char>,
    pub timestamp: Seq<char>,
    pub is_self: bool,
}

impl View for ChatMessage {
    type V = MessageView;

    open spec fn view(&self) -> MessageView {
        MessageView {
            id: self.id@,
            sender: self.sender@,
            initials: self.initials@,
            text: self.text@,
            timestamp: self.timestamp@,
            is_self: self.is_self,
        }
    }
}

/// What a list of messages says.
pub open spec fn shown(list: Seq<ChatMessage>) -> Seq<MessageView> {
    Seq::new(list.len(), |i: int| list[i]@)
}

// ---------------------------------------------------------------------------
// The length of the list
// ---------------------------------------------------------------------------

/// The most messages that are kept.
pub const MAX_RETAINED_MESSAGES: usize = 200;

/// The newest messages of a list, as many as are kept.
pub open spec fn capped(list: Seq<MessageView>) -> Seq<MessageView> {
    if list.len() > MAX_RETAINED_MESSAGES {
        list.skip(list.len() - MAX_RETAINED_MESSAGES)
    } else {
        list
    }
}

/// Drops the oldest messages, so that at most [`MAX_RETAINED_MESSAGES`] are left.
pub fn cap_messages(list: &mut Vec<ChatMessage>)
    ensures
        shown(final(list)@) == capped(shown(old(list)@)),
{
    if list.len() > MAX_RETAINED_MESSAGES {
        let ghost all = list@;
        let overflow: usize = list.len() - MAX_RETAINED_MESSAGES;
        let newest = list.split_off(overflow);
        *list = newest;
        assert(shown(list@) =~= shown(all).skip(overflow as int));
    }
}

// ---------------------------------------------------------------------------
// Merging
// ---------------------------------------------------------------------------

/// How the ids of messages begin that were shown before the server knew them.
pub const LOCAL_PREFIX: &'static str = "local-";

/// Whether a message has an id.
pub open spec fn has_id(list: Seq<MessageView>, id: Seq<char>) -> bool {
    exists|i: int| 0 <= i < list.len() && (#[trigger] list[i]).id == id
}

/// Whether a message was shown before the server knew it, with this text.
pub open spec fn is_bubble(m: MessageView, t: Seq<char>) -> bool {
    text::has_prefix(m.id, LOCAL_PREFIX@) && m.text == t
}

/// Where the first such message stands, or the length of the list.
pub open spec fn first_bubble(list: Seq<MessageView>, t: Seq<char>) -> int
    decreases list.len(),
{
    if list.len() == 0 || is_bubble(list[0], t) {
        0
    } else {
        1 + first_bubble(list.skip(1), t)
    }
}

/// Whether the server sent a message that is already shown.
pub open spec fn is_known(list: Seq<MessageView>, m: MessageView) -> bool {
    m.id.len() > 0 && has_id(list, m.id)
}

/// The list after one message from the server. One that is already shown changes
/// nothing. One of the user's own takes the place of the message that stood for
/// it. Any other comes last.
pub open spec fn merged_one(list: Seq<MessageView>, m: MessageView) -> Seq<MessageView> {
    if is_known(list, m) {
        list
    } else if m.is_self && first_bubble(list, m.text) < list.len() {
        list.update(first_bubble(list, m.text), m)
    } else {
        list.push(m)
    }
}

/// The list after some messages from the server.
pub open spec fn merged(list: Seq<MessageView>, news: Seq<MessageView>) -> Seq<MessageView>
    decreases news.len(),
{
    if news.len() == 0 {
        list
    } else {
        merged_one(merged(list, news.drop_last()), news.last())
    }
}

/// Whether some of these messages came from someone else and were not shown yet.
pub open spec fn news_from_others(list: Seq<MessageView>, news: Seq<MessageView>) -> bool {
    exists|k: int|
        0 <= k < news.len() && !(#[trigger] news[k]).is_self && !is_known(
            merged(list, news.take(k)),
            news[k],
        )
}

pub proof fn lemma_first_bubble(list: Seq<MessageView>, t: Seq<char>)
    ensures
        0 <= first_bubble(list, t) <= list.len(),
        first_bubble(list, t) < list.len() ==> is_bubble(list[first_bubble(list, t)], t),
        forall|i: int| 0 <= i < first_bubble(list, t) ==> !is_bubble(#[trigger] list[i], t),
    decreases list.len(),
{
    if list.len() > 0 && !is_bubble(list[0], t) {
        let rest = list.skip(1);
        lemma_first_bubble(rest, t);
        assert forall|i: int| 0 <= i < first_bubble(list, t) implies !is_bubble(
            #[trigger] list[i],
            t,
        ) by {
            if i > 0 {
                assert(rest[i - 1] == list[i]);
            }
        }
    }
}

/// Whether a message with this id is in the list.
fn contains_id(list: &Vec<ChatMessage>, id: &str) -> (res: bool)
    ensures
        res == has_id(shown(list@), id@),
{
    let mut i: usize = 0;
    while i < list.len()
        invariant
            i <= list@.len(),
            forall|k: int| 0 <= k < i ==> (#[trigger] shown(list@)[k]).id != id@,
        decreases list@.len() - i,
    {
        if list[i].id.as_str().eq(id) {
            assert(shown(list@)[i as int].id == id@);
            return true;
        }
        i = i + 1;
    }
    false
}

/// Where the first message stands that was shown before the server knew it, with
/// this text, or the length of the list.
fn find_bubble(list: &Vec<ChatMessage>, t: &str) -> (at: usize)
    ensures
        at == first_bubble(shown(list@), t@),
{
    let mut i: usize = 0;
    assert(shown(list@).skip(0) == shown(list@));
    while i < list.len()
        invariant
            i <= list@.len(),
            first_bubble(shown(list@), t@) == i + first_bubble(shown(list@).skip(i as int), t@),
        decreases list@.len() - i,
    {
        let ghost rest = shown(list@).skip(i as int);
        assert(rest.skip(1) == shown(list@).skip(i + 1));
        assert(rest[0] == list@[i as int]@);
        if text::starts_with(list[i].id.as_str(), LOCAL_PREFIX) && list[i].text.as_str().eq(t) {
            return i;
        }
        i = i + 1;
    }
    i
}

/// Merges messages from the server into the list, oldest first, and drops the
/// oldest of the list if it is then too long. Tells whether a message from
/// someone else was added.
pub fn merge_delta_messages(list: &mut Vec<ChatMessage>, new_msgs: Vec<ChatMessage>) -> (res: bool)
    ensures
        shown(final(list)@) == capped(merged(shown(old(list)@), shown(new_msgs@))),
        res == news_from_others(shown(old(list)@), shown(new_msgs@)),
{
    let mut appended_from_other = false;
    let ghost before = shown(list@);
    let ghost news = shown(new_msgs@);
    assert(news.take(0) =~= Seq::empty());
    for nm in it: new_msgs
        invariant
            it.seq() == new_msgs@,
            news == shown(new_msgs@),
            shown(list@) == merged(before, news.take(it.index() as int)),
            appended_from_other == exists|k: int|
                0 <= k < it.index() && !(#[trigger] news[k]).is_self && !is_known(
                    merged(before, news.take(k)),
                    news[k],
                ),
    {
        let ghost n = it.index() as int;
        let ghost now = shown(list@);
        proof {
            assert(news.take(n + 1).drop_last() =~= news.take(n));
            assert(news.take(n + 1).last() == nm@);
            lemma_first_bubble(now, nm.text@);
        }
        let known = !nm.id.as_str().is_empty() && contains_id(list, nm.id.as_str());
        if known {
            assert(is_known(now, nm@));
        } else if nm.is_self {
            let at: usize = find_bubble(list, nm.text.as_str());
            if at < list.len() {
                list.set(at, nm);
                assert(shown(list@) =~= now.update(at as int, nm@));
            } else {
                list.push(nm);
                assert(shown(list@) =~= now.push(nm@));
            }
        } else {
            list.push(nm);
            assert(shown(list@) =~= now.push(nm@));
            appended_from_other = true;
            assert(news[n] == nm@);
        }
    }
    assert(news.take(news.len() as int) == news);
    cap_messages(list);
    appended_from_other
}

// ---------------------------------------------------------------------------
// Reading a message
// ---------------------------------------------------------------------------

/// The initials of a name: the first letters of its first two words, in upper
/// case; a question mark, where it has no words.
pub open spec fn initials_of(name: Seq<char>) -> Seq<char> {
    let w = text::words(name);
    if w.len() == 0 {
        "?"@
    } else if w.len() == 1 {
        text::unicode_uppercase(seq![w[0][0]])
    } else {
        text::unicode_uppercase(seq![w[0][0], w[1][0]])
    }
}

/// The initials of a name: the first letters of its first two words, in upper
/// case; a question mark, where it has no words.
pub fn initials(name: &str) -> (res: String)
    ensures
        res@ == initials_of(name@),
{
    let v = text::chars_of(name);
    assert(v@.skip(0) == v@);
    let a: usize = text::skip_whitespace(&v, 0);
    if a >= v.len() {
        return "?".to_owned();
    }
    let b: usize = text::skip_word(&v, a);
    let c: usize = text::skip_whitespace(&v, b);
    let mut letters = String::new();
    letters.push(v[a]);
    proof {
        let t = v@.skip(a as int);
        let rest = v@.skip(b as int);
        text::lemma_leading_whitespace(name@);
        text::lemma_leading_word(t);
        assert(t.skip(b - a) =~= rest);
        assert(text::words(name@) =~= seq![t.take(b - a)] + text::words(rest));
        assert(t.take(b - a)[0] == v@[a as int]);
        if c < v@.len() {
            let u = rest.skip(c - b);
            text::lemma_leading_whitespace(rest);
            text::lemma_leading_word(u);
            assert(text::words(rest)[0][0] == v@[c as int]);
            assert(text::words(name@)[1] == text::words(rest)[0]);
        } else {
            assert(text::words(rest).len() == 0);
        }
    }
    if c < v.len() {
        letters.push(v[c]);
        assert(letters@ =~= seq![v@[a as int], v@[c as int]]);
    } else {
        assert(letters@ =~= seq![v@[a as int]]);
    }
    text::to_uppercase(letters.as_str())
}

/// What a message says, as it is shown.
pub open spec fn body_of(m: JsonValue) -> Seq<char> {
    match json::member_text(m, "textBody"@) {
        Some(t) => t,
        None => "no content"@,
    }
}

/// What a message says, as it is shown.
pub fn message_text(m: &Json) -> (res: String)
    ensures
        res@ == body_of(m@),
{
    match m.get_str("textBody") {
        Some(t) => t.to_owned(),
        None => "no content".to_owned(),
    }
}

/// The text under a key of the object under another key.
pub open spec fn inner_text(m: JsonValue, outer: Seq<char>, inner: Seq<char>) -> Option<Seq<char>> {
    match json::member(m, outer) {
        Some(x) => json::member_text(x, inner),
        None => None,
    }
}

fn get_inner_text<'a>(m: &'a Json, outer: &str, inner: &str) -> (res: Option<&'a str>)
    ensures
        json::opt_text(res) == inner_text(m@, outer@, inner@),
{
    match m.get(outer) {
        Some(x) => x.get_str(inner),
        None => None,
    }
}

/// Who sent a message, as it is shown.
pub open spec fn sender_of(m: JsonValue) -> Seq<char> {
    match inner_text(m, "from"@, "displayName"@) {
        Some(n) => n,
        None => "Unknown"@,
    }
}

/// The id of the user who sent a message, from the first place that gives one.
pub open spec fn sender_id_of(m: JsonValue) -> Option<Seq<char>> {
    match inner_text(m, "from"@, "id"@) {
        Some(s) => Some(s),
        None => match inner_text(m, "from"@, "userId"@) {
            Some(s) => Some(s),
            None => json::member_text(m, "senderId"@),
        },
    }
}

/// When a message was sent, as the server gives it.
pub open spec fn sent_at(m: JsonValue) -> Seq<char> {
    match json::member_text(m, "sentAt"@) {
        Some(t) => t,
        None => ""@,
    }
}

/// The message in a JSON document, seen by a user, with a timestamp.
pub open spec fn message_of(
    m: JsonValue,
    me: Option<Seq<char>>,
    timestamp: Seq<char>,
) -> MessageView {
    MessageView {
        id: match json::member_text(m, "id"@) {
            Some(i) => i,
            None => ""@,
        },
        sender: sender_of(m),
        initials: initials_of(sender_of(m)),
        text: body_of(m),
        timestamp,
        is_self: me is Some && me == sender_id_of(m),
    }
}

/// The message in a JSON document, seen by a user, with a timestamp.
pub fn chat_message_with(m: &Json, my_user_id: &Option<String>, timestamp: String) -> (res:
    ChatMessage)
    ensures
        res@ == message_of(m@, json::opt_string(*my_user_id), timestamp@),
{
    let sender = match get_inner_text(m, "from", "displayName") {
        Some(n) => n.to_owned(),
        None => "Unknown".to_owned(),
    };
    let sender_id = match get_inner_text(m, "from", "id") {
        Some(s) => Some(s),
        None => match get_inner_text(m, "from", "userId") {
            Some(s) => Some(s),
            None => m.get_str("senderId"),
        },
    };
    let is_self = match (my_user_id, sender_id) {
        (Some(me), Some(sid)) => me.as_str().eq(sid),
        _ => false,
    };
    let id = match m.get_str("id") {
        Some(i) => i.to_owned(),
        None => "".to_owned(),
    };
    let initials = initials(sender.as_str());
    let text = message_text(m);
    ChatMessage { id, sender, initials, text, timestamp, is_self }
}

/// The message in a JSON document, seen by a user. It is shown with the time at
/// which it was sent, in the local time zone.
pub fn parse_chat_message(m: &Json, my_user_id: &Option<String>) -> (res: ChatMessage)
    ensures
        res@ == message_of(m@, json::opt_string(*my_user_id), res.timestamp@),
        clock::timestamp_shows(sent_at(m@), res.timestamp@),
{
    let raw = match m.get_str("sentAt") {
        Some(t) => t.to_owned(),
        None => "".to_owned(),
    };
    chat_message_with(m, my_user_id, clock::format_timestamp(raw.as_str()))
}

// ---------------------------------------------------------------------------
// Laws
// ---------------------------------------------------------------------------

/// However many messages come, at most [`MAX_RETAINED_MESSAGES`] are kept, and
/// those are the newest, in their order.
pub proof fn law_newest_messages_are_kept(list: Seq<MessageView>)
    ensures
        capped(list).len() <= MAX_RETAINED_MESSAGES,
        capped(list).len() == list.len() || capped(list).len() == MAX_RETAINED_MESSAGES,
        list.skip(list.len() - capped(list).len()) == capped(list),
{
    assert(list.skip(0) == list);
}

/// Whether no two messages have the same id, where they have one.
pub open spec fn ids_differ(list: Seq<MessageView>) -> bool {
    forall|i: int, j: int|
        0 <= i < j < list.len() && (#[trigger] list[i]).id.len() > 0 ==> list[i].id != (
        #[trigger] list[j]).id
}

/// No message is shown twice: where the ids of the list differ, they differ after
/// the merge, whatever comes.
pub proof fn law_no_message_is_shown_twice(list: Seq<MessageView>, news: Seq<MessageView>)
    requires
        ids_differ(list),
    ensures
        ids_differ(merged(list, news)),
        ids_differ(capped(merged(list, news))),
    decreases news.len(),
{
    if news.len() > 0 {
        law_no_message_is_shown_twice(list, news.drop_last());
        let before = merged(list, news.drop_last());
        lemma_first_bubble(before, news.last().text);
    }
}

/// Whether the server gave a message an id of its own.
pub open spec fn has_server_id(m: MessageView) -> bool {
    m.id.len() > 0 && !text::has_prefix(m.id, LOCAL_PREFIX@)
}

proof fn lemma_merged_one_keeps_ids(list: Seq<MessageView>, m: MessageView, id: Seq<char>)
    requires
        !text::has_prefix(id, LOCAL_PREFIX@),
        has_id(list, id),
    ensures
        has_id(merged_one(list, m), id),
{
    let i = choose|i: int| 0 <= i < list.len() && (#[trigger] list[i]).id == id;
    lemma_first_bubble(list, m.text);
    assert(merged_one(list, m)[i].id == id);
}

proof fn lemma_merged_one_has_id(list: Seq<MessageView>, m: MessageView)
    requires
        m.id.len() > 0,
    ensures
        has_id(merged_one(list, m), m.id),
{
    lemma_first_bubble(list, m.text);
    let after = merged_one(list, m);
    if !is_known(list, m) {
        if m.is_self && first_bubble(list, m.text) < list.len() {
            assert(after[first_bubble(list, m.text)].id == m.id);
        } else {
            assert(after.last().id == m.id);
        }
    }
}

/// No message from the server is dropped in a merge, and none that the server
/// knows is taken away: after it, the list has the id of each.
pub proof fn law_no_message_is_lost(list: Seq<MessageView>, news: Seq<MessageView>)
    requires
        forall|k: int| 0 <= k < news.len() ==> has_server_id(#[trigger] news[k]),
    ensures
        forall|k: int| 0 <= k < news.len() ==> has_id(merged(list, news), (#[trigger] news[k]).id),
        forall|i: int|
            0 <= i < list.len() && has_server_id(#[trigger] list[i]) ==> has_id(
                merged(list, news),
                list[i].id,
            ),
    decreases news.len(),
{
    if news.len() > 0 {
        let first = news.drop_last();
        let before = merged(list, first);
        assert forall|k: int| 0 <= k < first.len() implies has_server_id(#[trigger] first[k]) by {
            assert(first[k] == news[k]);
        }
        law_no_message_is_lost(list, first);
        assert forall|k: int| 0 <= k < news.len() implies has_id(
            merged(list, news),
            (#[trigger] news[k]).id,
        ) by {
            if k < first.len() {
                assert(first[k] == news[k]);
                lemma_merged_one_keeps_ids(before, news.last(), news[k].id);
            } else {
                assert(has_server_id(news[k]));
                lemma_merged_one_has_id(before, news[k]);
            }
        }
        assert forall|i: int| 0 <= i < list.len() && has_server_id(#[trigger] list[i]) implies has_id(
            merged(list, news),
            list[i].id,
        ) by {
            lemma_merged_one_keeps_ids(before, news.last(), list[i].id);
        }
    } else {
        assert forall|i: int| 0 <= i < list.len() implies has_id(list, (#[trigger] list[i]).id) by {}
    }
}

proof fn lemma_known_news_change_nothing(list: Seq<MessageView>, news: Seq<MessageView>)
    requires
        forall|k: int| 0 <= k < news.len() ==> is_known(list, #[trigger] news[k]),
    ensures
        merged(list, news) == list,
        !news_from_others(list, news),
    decreases news.len(),
{
    if news.len() > 0 {
        let first = news.drop_last();
        assert forall|k: int| 0 <= k < first.len() implies is_known(list, #[trigger] first[k]) by {
            assert(first[k] == news[k]);
        }
        lemma_known_news_change_nothing(list, first);
        assert(is_known(list, news[news.len() - 1]));
        assert forall|k: int| 0 <= k < news.len() && !(#[trigger] news[k]).is_self implies is_known(
            merged(list, news.take(k)),
            news[k],
        ) by {
            if k < first.len() {
                assert(first[k] == news[k]);
                assert(first.take(k) =~= news.take(k));
            } else {
                assert(news.take(k) =~= first);
            }
        }
    }
}

/// Messages that are delivered again change nothing and raise no badge, as long
/// as none was dropped for the length of the list.
pub proof fn law_redelivery_changes_nothing(list: Seq<MessageView>, news: Seq<MessageView>)
    requires
        forall|k: int| 0 <= k < news.len() ==> has_server_id(#[trigger] news[k]),
        merged(list, news).len() <= MAX_RETAINED_MESSAGES,
    ensures
        ({
            let once = capped(merged(list, news));
            capped(merged(once, news)) == once && !news_from_others(once, news)
        }),
{
    law_no_message_is_lost(list, news);
    let once = merged(list, news);
    assert forall|k: int| 0 <= k < news.len() implies is_known(once, #[trigger] news[k]) by {
        assert(has_server_id(news[k]));
    }
    lemma_known_news_change_nothing(once, news);
}

/// The user's own messages never raise the badge, whether they take the place of
/// one that was shown before or come from another device.
pub proof fn law_own_messages_raise_no_badge(list: Seq<MessageView>, news: Seq<MessageView>)
    requires
        forall|k: int| 0 <= k < news.len() ==> (#[trigger] news[k]).is_self,
    ensures
        !news_from_others(list, news),
{
}

/// What is shown stays where it is: a merge adds messages at the end, and changes
/// an earlier one only by putting the server's own copy of the user's message,
/// with the same text, in the place of the message that stood for it.
pub proof fn law_merge_keeps_the_order(list: Seq<MessageView>, news: Seq<MessageView>)
    ensures
        merged(list, news).len() >= list.len(),
        forall|i: int|
            0 <= i < list.len() ==> {
                let m = #[trigger] merged(list, news)[i];
                m == list[i] || (text::has_prefix(list[i].id, LOCAL_PREFIX@) && m.is_self && m.text
                    == list[i].text)
            },
    decreases news.len(),
{
    if news.len() > 0 {
        law_merge_keeps_the_order(list, news.drop_last());
        let before = merged(list, news.drop_last());
        lemma_first_bubble(before, news.last().text);
        assert forall|i: int| 0 <= i < list.len() implies {
            let m = #[trigger] merged(list, news)[i];
            m == list[i] || (text::has_prefix(list[i].id, LOCAL_PREFIX@) && m.is_self && m.text
                == list[i].text)
        } by {
            assert(merged(list, news)[i] == before[i] || i == first_bubble(
                before,
                news.last().text,
            ));
        }
    }
}

/// Of a list of messages the last two hundred are kept, or all, if they are no more.
pub proof fn law_two_hundred_are_kept(older: Seq<MessageView>, newest: Seq<MessageView>)
    requires
        newest.len() <= 200,
        older.len() > 0 ==> newest.len() == 200,
    ensures
        capped(older + newest) == newest,
{
    assert(capped(older + newest) =~= newest);
}

/// Messages that come in two parts are merged as if they came at once.
pub proof fn law_merge_in_parts(
    list: Seq<MessageView>,
    a: Seq<MessageView>,
    b: Seq<MessageView>,
)
    ensures
        merged(list, a + b) == merged(merged(list, a), b),
        merged(list, Seq::empty()) == list,
    decreases b.len(),
{
    if b.len() == 0 {
        assert(a + b =~= a);
    } else {
        law_merge_in_parts(list, a, b.drop_last());
        assert((a + b).drop_last() =~= a + b.drop_last());
        assert((a + b).last() == b.last());
    }
}

/// Whether no message of a list has an id, if that is one at all.
pub open spec fn is_unseen(list: Seq<MessageView>, id: Seq<char>) -> bool {
    id.len() == 0 || forall|i: int| 0 <= i < list.len() ==> (#[trigger] list[i]).id != id
}

/// A message from someone else that is not shown yet comes last, and is news.
pub proof fn law_news_come_last(list: Seq<MessageView>, m: MessageView)
    requires
        is_unseen(list, m.id),
        !m.is_self,
    ensures
        merged(list, seq![m]) == list.push(m),
        news_from_others(list, seq![m]),
{
    let news = seq![m];
    assert(news.drop_last() =~= Seq::empty());
    assert(merged(list, news.drop_last()) == list);
    assert(news.take(0) =~= Seq::empty());
    assert(!news[0].is_self && !is_known(merged(list, news.take(0)), news[0]));
}

/// A message that is shown already, by its id, changes nothing and is no news.
pub proof fn law_known_message_changes_nothing(list: Seq<MessageView>, i: int, m: MessageView)
    requires
        0 <= i < list.len(),
        list[i].id == m.id,
        m.id.len() > 0,
    ensures
        merged(list, seq![m]) == list,
        !news_from_others(list, seq![m]),
{
    let news = seq![m];
    assert(has_id(list, m.id));
    lemma_known_news_change_nothing(list, news);
}

/// Whether a message is one that the user sent from here and the server has not
/// confirmed: its id starts with `local-`.
pub open spec fn is_unconfirmed(m: MessageView) -> bool {
    m.id.len() >= 6 && m.id.take(6) == "local-"@
}

/// A message of the user's own takes the place of the first unconfirmed one with its
/// text; where there is none, it comes last. Either way it is no news.
pub proof fn law_own_message_takes_its_place(list: Seq<MessageView>, m: MessageView, i: int)
    requires
        is_unseen(list, m.id),
        m.is_self,
        0 <= i <= list.len(),
        i < list.len() ==> is_unconfirmed(list[i]) && list[i].text == m.text,
        forall|j: int|
            0 <= j < i ==> !(is_unconfirmed(#[trigger] list[j]) && list[j].text == m.text),
    ensures
        i < list.len() ==> merged(list, seq![m]) == list.update(i, m),
        i == list.len() ==> merged(list, seq![m]) == list.push(m),
        !news_from_others(list, seq![m]),
{
    let news = seq![m];
    reveal_strlit("local-");
    assert(news.drop_last() =~= Seq::empty());
    assert(merged(list, news.drop_last()) == list);
    lemma_first_bubble(list, m.text);
    let k = first_bubble(list, m.text);
    if k < i {
        assert(is_unconfirmed(list[k]));
    }
    if i < k {
        assert(is_bubble(list[i], m.text));
    }
}

/// One message from someone else that neither the list nor the news before it have
/// is enough for news.
pub proof fn law_badge(list: Seq<MessageView>, news: Seq<MessageView>, k: int)
    requires
        0 <= k < news.len(),
        !news[k].is_self,
        is_unseen(list, news[k].id),
        forall|j: int| 0 <= j < k ==> (#[trigger] news[j]).id != news[k].id,
    ensures
        news_from_others(list, news),
{
    let before = merged(list, news.take(k));
    lemma_unseen(list, news.take(k), news[k].id);
    assert(!news[k].is_self && !is_known(before, news[k]));
}

proof fn lemma_unseen(list: Seq<MessageView>, news: Seq<MessageView>, id: Seq<char>)
    requires
        is_unseen(list, id),
        forall|j: int| 0 <= j < news.len() ==> (#[trigger] news[j]).id != id,
    ensures
        is_unseen(merged(list, news), id),
    decreases news.len(),
{
    if news.len() > 0 && id.len() > 0 {
        let first = news.drop_last();
        assert forall|j: int| 0 <= j < first.len() implies (#[trigger] first[j]).id != id by {
            assert(news[j].id != id);
        }
        lemma_unseen(list, first, id);
        let before = merged(list, first);
        lemma_first_bubble(before, news.last().text);
        assert(news[news.len() - 1].id != id);
        assert forall|i: int| 0 <= i < merged(list, news).len() implies (#[trigger] merged(
            list,
            news,
        )[i]).id != id by {
            if i < before.len() {
                assert(before[i].id != id);
            }
        }
    }
}

/// The initials of a name of two words or more are the first letters of the first
/// two, in upper case; of one word, its first letter; of none, a question mark.
pub proof fn law_initials(
    before: Seq<char>,
    first: Seq<char>,
    gap: Seq<char>,
    second: Seq<char>,
    after: Seq<char>,
    name: &str,
    res: String,
)
    requires
        call_ensures(initials, (name,), res),
        text::blank(before),
        text::is_word(first),
        text::blank(gap),
        text::is_word(second),
        after.len() > 0 ==> text::is_whitespace(after[0]),
    ensures
        name@ == before ==> res@ == "?"@,
        name@ == before + first + gap ==> res@ == text::unicode_uppercase(seq![first[0]]),
        gap.len() > 0 && name@ == before + first + (gap + second + after) ==> res@
            == text::unicode_uppercase(seq![first[0], second[0]]),
{
    text::law_words(before, first, gap);
    text::law_words(gap, second, after);
    if name@ == before + first + gap {
        assert(text::words(gap).len() == 0);
        assert(text::words(name@) =~= seq![first]);
    }
    if gap.len() > 0 {
        assert((gap + second + after)[0] == gap[0]);
        text::law_words(before, first, gap + second + after);
        if name@ == before + first + (gap + second + after) {
            let w = text::words(name@);
            assert(w[0] == first);
            assert(w[1] == second);
        }
    }
}

/// Whether the sender of a message, as it is listed, has something under a key.
pub open spec fn from_has(m: JsonValue, key: Seq<char>, t: Seq<char>) -> bool {
    m matches JsonValue::Object(o) && o.dom().contains("from"@) && json::has(
        o["from"@],
        key,
        JsonValue::Str(t),
    )
}

/// Whether the sender of a message is listed without something under a key, or not
/// at all.
pub open spec fn from_lacks(m: JsonValue, key: Seq<char>) -> bool {
    m matches JsonValue::Object(o) && (!o.dom().contains("from"@) || json::lacks(o["from"@], key))
}

/// What is shown of a message is what the document gives, each under its key: the
/// id, the name of the sender and its initials, and the text. What it does not give
/// is empty, unknown or said to be missing. The time is the one handed in.
pub proof fn law_message_is_read(
    m: &Json,
    me: &Option<String>,
    timestamp: String,
    name: &str,
    letters: String,
    id: Seq<char>,
    body: Seq<char>,
    res: ChatMessage,
)
    requires
        call_ensures(chat_message_with, (m, me, timestamp), res),
        call_ensures(initials, (name,), letters),
    ensures
        json::has(m@, "id"@, JsonValue::Str(id)) ==> res.id@ == id,
        json::lacks(m@, "id"@) ==> res.id@.len() == 0,
        json::has(m@, "textBody"@, JsonValue::Str(body)) ==> res.text@ == body,
        json::lacks(m@, "textBody"@) ==> res.text@ == "no content"@,
        from_has(m@, "displayName"@, name@) ==> res.sender@ == name@,
        from_lacks(m@, "displayName"@) ==> res.sender@ == "Unknown"@,
        res.sender@ == name@ ==> res.initials@ == letters@,
        res.timestamp@ == timestamp@,
{
    reveal_strlit("");
}

/// A message is the user's own exactly when the user's id is that of its sender: the
/// one listed as `id`, else as `userId` with the sender, else as `senderId` with the
/// message. Without a user, none is.
pub proof fn law_own_messages(
    m: &Json,
    me: &Option<String>,
    timestamp: String,
    id: Seq<char>,
    res: ChatMessage,
)
    requires
        call_ensures(chat_message_with, (m, me, timestamp), res),
    ensures
        me is None ==> !res.is_self,
        me is Some && from_has(m@, "id"@, id) ==> (res.is_self <==> me->0@ == id),
        me is Some && from_lacks(m@, "id"@) && from_has(m@, "userId"@, id) ==> (res.is_self
            <==> me->0@ == id),
        me is Some && from_lacks(m@, "id"@) && from_lacks(m@, "userId"@) && json::has(
            m@,
            "senderId"@,
            JsonValue::Str(id),
        ) ==> (res.is_self <==> me->0@ == id),
        from_lacks(m@, "id"@) && from_lacks(m@, "userId"@) && json::lacks(m@, "senderId"@)
            ==> !res.is_self,
{
}

/// A message that is read is shown at the time at which it was sent, in the local
/// time zone, and is in all else as with any other time.
pub proof fn law_message_at_its_time(
    m: &Json,
    me: &Option<String>,
    raw: Seq<char>,
    other: ChatMessage,
    timestamp: String,
    res: ChatMessage,
)
    requires
        call_ensures(parse_chat_message, (m, me), res),
        call_ensures(chat_message_with, (m, me, timestamp), other),
        json::has(m@, "sentAt"@, JsonValue::Str(raw)),
    ensures
        match clock::rfc3339_instant(raw) {
            Some(t) => exists|o: i32|
                clock::zone_gives(t.0, t.1, o) && -86_400 < o < 86_400 && res.timestamp@
                    == #[trigger] clock::shown_time(t.0, t.1, o, "%A, %b %-d - %-I:%M %p"@),
            None => res.timestamp@ == raw,
        },
        res.id@ == other.id@,
        res.sender@ == other.sender@,
        res.initials@ == other.initials@,
        res.text@ == other.text@,
        res.is_self == other.is_self,
{
}

/// The list that is left has at most two hundred messages: the last ones, as they
/// were.
pub proof fn law_list_is_capped(list: &mut Vec<ChatMessage>)
    requires
        call_ensures(cap_messages, (list,), ()),
    ensures
        final(list)@.len() == if old(list)@.len() > 200 {
            200nat
        } else {
            old(list)@.len()
        },
        forall|i: int|
            0 <= i < final(list)@.len() ==> (#[trigger] final(list)@[i])@ == old(list)@[i
                + old(list)@.len() - final(list)@.len()]@,
{
    let before = shown(old(list)@);
    let after = shown(final(list)@);
    assert(before.len() == old(list)@.len() && after.len() == final(list)@.len());
    assert forall|i: int| 0 <= i < final(list)@.len() implies (#[trigger] final(list)@[i])@
        == old(list)@[i + old(list)@.len() - final(list)@.len()]@ by {
        assert(after[i] == final(list)@[i]@);
        assert(after[i] == before[i + before.len() - after.len()]);
    }
}

/// One message that comes in changes the list and the badge as follows. A message from
/// someone else that is not shown yet comes last and raises the badge; one that is
/// shown changes nothing; one of the user's own takes the place of the first
/// unconfirmed message with its text. (As long as the list is not too long.)
pub proof fn law_one_message_comes_in(
    list: &mut Vec<ChatMessage>,
    news: Vec<ChatMessage>,
    m: MessageView,
    i: int,
    badge: bool,
)
    requires
        call_ensures(merge_delta_messages, (list, news), badge),
        shown(news@) == seq![m],
        old(list)@.len() < 200,
    ensures
        ({
            let before = shown(old(list)@);
            let after = shown(final(list)@);
            &&& is_unseen(before, m.id) && !m.is_self ==> after == before.push(m) && badge
            &&& m.id.len() > 0 && 0 <= i < before.len() && before[i].id == m.id ==> after == before
                && !badge
            &&& is_unseen(before, m.id) && m.is_self ==> !badge
            &&& is_unseen(before, m.id) && m.is_self && 0 <= i < before.len() && is_unconfirmed(
                before[i],
            ) && before[i].text == m.text && (forall|j: int|
                0 <= j < i ==> !(is_unconfirmed(#[trigger] before[j]) && before[j].text == m.text))
                ==> after == before.update(i, m)
        }),
{
    let before = shown(old(list)@);
    assert(before.len() == old(list)@.len());
    if is_unseen(before, m.id) && !m.is_self {
        law_news_come_last(before, m);
    }
    if m.id.len() > 0 && 0 <= i < before.len() && before[i].id == m.id {
        law_known_message_changes_nothing(before, i, m);
    }
    if is_unseen(before, m.id) && m.is_self {
        let news_view = seq![m];
        assert(!news_from_others(before, news_view));
        if 0 <= i < before.len() && is_unconfirmed(before[i]) && before[i].text == m.text && (
        forall|j: int|
            0 <= j < i ==> !(is_unconfirmed(#[trigger] before[j]) && before[j].text == m.text)) {
            law_own_message_takes_its_place(before, m, i);
        }
    }
}

/// What a message says is its text, or that there is none.
pub proof fn law_text_of_a_message(m: &Json, body: Seq<char>, res: String)
    requires
        call_ensures(message_text, (m,), res),
    ensures
        json::has(m@, "textBody"@, JsonValue::Str(body)) ==> res@ == body,
        json::lacks(m@, "textBody"@) || !(m@ is Object) ==> res@ == "no content"@,
{
}

/// A message that does not say when it was sent is shown as one with an empty time.
pub proof fn law_message_without_a_time(m: &Json, me: &Option<String>, res: ChatMessage)
    requires
        call_ensures(parse_chat_message, (m, me), res),
        json::lacks(m@, "sentAt"@),
        clock::rfc3339_instant(""@) is None,
    ensures
        res.timestamp@.len() == 0,
{
    reveal_strlit("");
}

} // verus!
