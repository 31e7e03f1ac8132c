//! The stream that tells the home page of changes to its feed of meetings.

use vstd::prelude::*;
use crate::json;
use crate::json::{JsonValue, Members};

verus! {

/// The name of every event on the stream.
pub const FEED_CHANGED_EVENT: &'static str = "feed-changed";

/// After how many quiet seconds a sign of life is sent.
pub const KEEPALIVE_SECONDS: u64 = 15;

/// Why the feed changed.
#[derive(Debug, Clone, Copy, PartialEq, Eq, Structural)]
pub enum FeedChangeReason {
    Created,
    Joined,
    BecameIdle,
    Ended,
    ParticipantLeft,
    /// Anything may have changed.
    Refresh,
}

pub open spec fn reason_name(r: FeedChangeReason) -> Seq<char> {
    match r {
        FeedChangeReason::Created => "created"@,
        FeedChangeReason::Joined => "joined"@,
        FeedChangeReason::BecameIdle => "became_idle"@,
        FeedChangeReason::Ended => "ended"@,
        FeedChangeReason::ParticipantLeft => "participant_left"@,
        FeedChangeReason::Refresh => "refresh"@,
    }
}

impl FeedChangeReason {
    /// The reason, as the client is told.
    pub fn as_str(&self) -> (res: &'static str)
        ensures
            res@ == reason_name(*self),
    {
        match *self {
            FeedChangeReason::Created => "created",
            FeedChangeReason::Joined => "joined",
            FeedChangeReason::BecameIdle => "became_idle",
            FeedChangeReason::Ended => "ended",
            FeedChangeReason::ParticipantLeft => "participant_left",
            FeedChangeReason::Refresh => "refresh",
        }
    }
}

/// A change of the feed.
#[derive(Debug, PartialEq, Eq)]
pub struct FeedChange {
    /// The meeting that changed; empty when anything may have.
    pub meeting_id: String,
    pub reason: FeedChangeReason,
}

impl Clone for FeedChange {
    fn clone(&self) -> (res: FeedChange)
        ensures
            res == *self,
    {
        FeedChange { meeting_id: self.meeting_id.clone(), reason: self.reason }
    }
}

impl FeedChange {
    pub fn new(meeting_id: &str, reason: FeedChangeReason) -> (res: FeedChange)
        ensures
            res.meeting_id@ == meeting_id@,
            res.reason == reason,
    {
        FeedChange { meeting_id: meeting_id.to_owned(), reason }
    }

    /// The change that stands for any.
    pub fn refresh() -> (res: FeedChange)
        ensures
            res.meeting_id@ == ""@,
            res.reason == FeedChangeReason::Refresh,
    {
        FeedChange::new("", FeedChangeReason::Refresh)
    }
}

/// What the client is told of a change.
pub open spec fn change_document(meeting_id: Seq<char>, reason: FeedChangeReason) -> JsonValue {
    JsonValue::Object(
        map![
            "meeting_id"@ => JsonValue::Str(meeting_id),
            "reason"@ => JsonValue::Str(reason_name(reason)),
        ],
    )
}

/// An event on the stream.
#[derive(Debug, PartialEq, Eq)]
pub struct FeedEvent {
    pub event: &'static str,
    pub data: String,
}

/// Whether an event tells of a change: it has the name of every event, and its
/// data is the JSON text of the change, from which the change is read back.
pub open spec fn event_tells(e: FeedEvent, meeting_id: Seq<char>, reason: FeedChangeReason) -> bool {
    &&& e.event@ == FEED_CHANGED_EVENT@
    &&& e.data@ == json::json_text(change_document(meeting_id, reason))
    &&& json::reads_as(e.data@, change_document(meeting_id, reason))
}

/// The event that tells of a change.
pub fn feed_change_to_sse_event(change: &FeedChange) -> (res: FeedEvent)
    ensures
        event_tells(res, change.meeting_id@, change.reason),
{
    let doc = Members::new().with_text("meeting_id", change.meeting_id.as_str()).with_text(
        "reason",
        change.reason.as_str(),
    ).into_json();
    proof {
        assert(json::storable(JsonValue::Str(change.meeting_id@), 126));
        assert(json::storable(JsonValue::Str(reason_name(change.reason)), 126));
    }
    FeedEvent { event: FEED_CHANGED_EVENT, data: json::write_json(&doc) }
}

/// What the stream receives.
#[derive(Debug, PartialEq, Eq)]
pub enum FeedSignal {
    Change(FeedChange),
    /// So many changes were missed.
    Lagged(u64),
    /// No more changes will come.
    Closed,
}

/// The next event on the stream; nothing, when it ends. Changes that were missed
/// are told of as one that stands for any.
pub fn next_feed_event(signal: &FeedSignal) -> (res: Option<FeedEvent>)
    ensures
        match *signal {
            FeedSignal::Change(c) => res matches Some(e) && event_tells(e, c.meeting_id@, c.reason),
            FeedSignal::Lagged(_) => res matches Some(e) && event_tells(
                e,
                ""@,
                FeedChangeReason::Refresh,
            ),
            FeedSignal::Closed => res is None,
        },
{
    match signal {
        FeedSignal::Change(c) => Some(feed_change_to_sse_event(c)),
        FeedSignal::Lagged(_) => Some(feed_change_to_sse_event(&FeedChange::refresh())),
        FeedSignal::Closed => None,
    }
}

// ---------------------------------------------------------------------------
// Laws
// ---------------------------------------------------------------------------

proof fn lemma_reason_names_differ(a: FeedChangeReason, b: FeedChangeReason)
    requires
        reason_name(a) == reason_name(b),
    ensures
        a == b,
{
    reveal_strlit("created");
    reveal_strlit("joined");
    reveal_strlit("became_idle");
    reveal_strlit("ended");
    reveal_strlit("participant_left");
    reveal_strlit("refresh");
    let x = reason_name(a);
    let y = reason_name(b);
    assert(x.len() == y.len() && x[0] == y[0]);
}

/// The client can tell from an event which change it is about.
pub proof fn law_events_tell_changes_apart(
    e: FeedEvent,
    m: Seq<char>,
    r: FeedChangeReason,
    n: Seq<char>,
    s: FeedChangeReason,
)
    requires
        event_tells(e, m, r),
        event_tells(e, n, s),
    ensures
        m == n,
        r == s,
{
    reveal_strlit("meeting_id");
    reveal_strlit("reason");
    let a = change_document(m, r);
    let b = change_document(n, s);
    assert(a == b);
    assert("meeting_id"@.len() != "reason"@.len());
    assert(json::member_text(a, "meeting_id"@) == Some(m));
    assert(json::member_text(b, "meeting_id"@) == Some(n));
    assert(json::member_text(a, "reason"@) == Some(reason_name(r)));
    assert(json::member_text(b, "reason"@) == Some(reason_name(s)));
    lemma_reason_names_differ(r, s);
}

/// Whether an event carries, under the name that clients listen to, a document with
/// a meeting and a reason.
pub open spec fn carries(e: FeedEvent, meeting_id: Seq<char>, reason: Seq<char>) -> bool {
    &&& e.event@ == "feed-changed"@
    &&& json::json_of_text(e.data@) matches Ok(doc)
    &&& json::has(doc, "meeting_id"@, JsonValue::Str(meeting_id))
    &&& json::has(doc, "reason"@, JsonValue::Str(reason))
}

/// A change is passed on with its meeting and its reason. Changes that were missed,
/// however many, become one event that names no meeting and asks for a refresh; the
/// end of the changes is the end of the events.
pub proof fn law_changes_are_passed_on(
    signal: &FeedSignal,
    change: FeedChange,
    name: &'static str,
    res: Option<FeedEvent>,
)
    requires
        call_ensures(next_feed_event, (signal,), res),
        call_ensures(FeedChangeReason::as_str, (&change.reason,), name),
    ensures
        *signal == FeedSignal::Change(change) ==> (res matches Some(e) && carries(
            e,
            change.meeting_id@,
            name@,
        )),
        signal is Lagged ==> (res matches Some(e) && carries(e, ""@, "refresh"@)),
        signal is Closed <==> res is None,
{
    reveal_strlit("meeting_id");
    reveal_strlit("reason");
    assert("meeting_id"@.len() != "reason"@.len());
}

/// The reasons, as clients know them.
pub proof fn law_reasons(r: FeedChangeReason, name: &'static str)
    requires
        call_ensures(FeedChangeReason::as_str, (&r,), name),
    ensures
        name@ == "created"@ <==> r is Created,
        name@ == "joined"@ <==> r is Joined,
        name@ == "became_idle"@ <==> r is BecameIdle,
        name@ == "ended"@ <==> r is Ended,
        name@ == "participant_left"@ <==> r is ParticipantLeft,
        name@ == "refresh"@ <==> r is Refresh,
{
    if name@ == "created"@ {
        lemma_reason_names_differ(r, FeedChangeReason::Created);
    }
    if name@ == "joined"@ {
        lemma_reason_names_differ(r, FeedChangeReason::Joined);
    }
    if name@ == "became_idle"@ {
        lemma_reason_names_differ(r, FeedChangeReason::BecameIdle);
    }
    if name@ == "ended"@ {
        lemma_reason_names_differ(r, FeedChangeReason::Ended);
    }
    if name@ == "participant_left"@ {
        lemma_reason_names_differ(r, FeedChangeReason::ParticipantLeft);
    }
    if name@ == "refresh"@ {
        lemma_reason_names_differ(r, FeedChangeReason::Refresh);
    }
}

/// The event of a change is the one that the stream sends for it; a change is made of
/// the meeting and the reason given, and the one that stands for any names no meeting.
pub proof fn law_changes_and_their_events(
    change: &FeedChange,
    meeting: &str,
    reason: FeedChangeReason,
    event: FeedEvent,
    sent: Option<FeedEvent>,
    made: FeedChange,
    any: FeedChange,
)
    requires
        call_ensures(feed_change_to_sse_event, (change,), event),
        call_ensures(next_feed_event, (&FeedSignal::Change(*change),), sent),
        call_ensures(FeedChange::new, (meeting, reason), made),
        call_ensures(FeedChange::refresh, (), any),
    ensures
        sent matches Some(e) && e.event@ == event.event@ && e.data@ == event.data@,
        made.meeting_id@ == meeting@ && made.reason == reason,
        any.meeting_id@.len() == 0 && any.reason is Refresh,
{
    reveal_strlit("");
}

} // verus!
