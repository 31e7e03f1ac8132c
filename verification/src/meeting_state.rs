//! What an observer knows of a meeting: who takes part, how good their
//! connections are, and what has happened.
//!
//! Time is counted in nanoseconds from some moment before the observer started.
//! A measurement that is a floating-point number is carried as its bits
//! ([`Measure`]): nothing here computes with it.

use vstd::prelude::*;
use crate::clock;
use crate::clock::{UtcInstant, UtcOffset};
use crate::text;

verus! {

/// After how many nanoseconds without a packet a participant counts as stale.
pub const STALE_THRESHOLD: u64 = 2_000_000_000;

/// After how many nanoseconds without a packet a participant counts as gone.
pub const PRUNE_THRESHOLD: u64 = 10_000_000_000;

/// The most events that are kept.
pub const MAX_EVENTS: usize = 50;

/// A measurement: the bits of a 64-bit floating-point number.
#[derive(Debug, Clone, Copy, PartialEq, Eq, Structural)]
pub struct Measure {
    pub bits: u64,
}

/// A point in time and the offset of the local time zone then.
#[derive(Debug, Clone, Copy, PartialEq, Eq)]
pub struct WallTime {
    pub instant: UtcInstant,
    pub offset: UtcOffset,
}

/// What a peer observed of a participant.
#[derive(Debug, Clone, Copy, PartialEq, Eq, Structural)]
pub struct QualitySnapshot {
    pub jitter_ms: Measure,
    pub conceal_per_sec: Measure,
    pub fps: Measure,
    pub bitrate_kbps: u64,
    pub can_see: bool,
    pub can_listen: bool,
    pub updated_at: u64,
}

impl QualitySnapshot {
    /// How many whole seconds old the observations are.
    pub fn age_secs(&self, now: u64) -> (res: u64)
        ensures
            res == age(self.updated_at, now) / 1_000_000_000,
    {
        age_of(self.updated_at, now) / 1_000_000_000
    }
}

/// A participant.
#[derive(Debug)]
pub struct Participant {
    pub email: String,
    pub video_enabled: bool,
    pub audio_enabled: bool,
    pub last_heartbeat: u64,
    pub rtt_ms: Option<Measure>,
    pub quality: Option<QualitySnapshot>,
    pub joined_at: u64,
}

pub struct ParticipantView {
    pub email: Seq<char>,
    pub video_enabled: bool,
    pub audio_enabled: bool,
    pub last_heartbeat: u64,
    pub rtt_ms: Option<Measure>,
    pub quality: Option<QualitySnapshot>,
    pub joined_at: u64,
}

impl View for Participant {
    type V = ParticipantView;

    open spec fn view(&self) -> ParticipantView {
        ParticipantView {
            email: self.email@,
            video_enabled: self.video_enabled,
            audio_enabled: self.audio_enabled,
            last_heartbeat: self.last_heartbeat,
            rtt_ms: self.rtt_ms,
            quality: self.quality,
            joined_at: self.joined_at,
        }
    }
}

/// What a list of participants says.
pub open spec fn people(v: Seq<Participant>) -> Seq<ParticipantView> {
    Seq::new(v.len(), |i: int| v[i]@)
}

/// How long ago something was.
pub open spec fn age(since: u64, now: u64) -> int {
    if now > since {
        now - since
    } else {
        0
    }
}

fn age_of(since: u64, now: u64) -> (res: u64)
    ensures
        res == age(since, now),
{
    if now > since {
        now - since
    } else {
        0
    }
}

/// A participant of whom nothing is known but that a packet came.
pub open spec fn newcomer(email: Seq<char>, now: u64) -> ParticipantView {
    ParticipantView {
        email,
        video_enabled: false,
        audio_enabled: false,
        last_heartbeat: now,
        rtt_ms: None,
        quality: None,
        joined_at: now,
    }
}

impl Participant {
    /// A participant of whom nothing is known but that a packet came.
    pub fn new(email: String, now: u64) -> (res: Participant)
        ensures
            res@ == newcomer(email@, now),
    {
        Participant {
            email,
            video_enabled: false,
            audio_enabled: false,
            last_heartbeat: now,
            rtt_ms: None,
            quality: None,
            joined_at: now,
        }
    }

    /// Whether no packet has come for a while.
    pub fn is_stale(&self, now: u64) -> (res: bool)
        ensures
            res == (age(self@.last_heartbeat, now) > STALE_THRESHOLD),
    {
        age_of(self.last_heartbeat, now) > STALE_THRESHOLD
    }

    /// Whether no packet has come for so long that the participant is gone.
    pub fn should_prune(&self, now: u64) -> (res: bool)
        ensures
            res == is_gone(self@, now),
    {
        age_of(self.last_heartbeat, now) > PRUNE_THRESHOLD
    }
}

/// Whether no packet has come for so long that a participant is gone.
pub open spec fn is_gone(p: ParticipantView, now: u64) -> bool {
    age(p.last_heartbeat, now) > PRUNE_THRESHOLD
}

/// Something that happened.
#[derive(Debug)]
pub struct Event {
    pub when: WallTime,
    pub msg: String,
}

pub struct EventView {
    pub when: WallTime,
    pub msg: Seq<char>,
}

impl View for Event {
    type V = EventView;

    open spec fn view(&self) -> EventView {
        EventView { when: self.when, msg: self.msg@ }
    }
}

/// What a list of events says.
pub open spec fn history(v: Seq<Event>) -> Seq<EventView> {
    Seq::new(v.len(), |i: int| v[i]@)
}

/// The events after one more: the oldest goes when there are too many.
pub open spec fn recorded(events: Seq<EventView>, when: WallTime, msg: Seq<char>) -> Seq<EventView> {
    let all = events.push(EventView { when, msg });
    if all.len() > MAX_EVENTS {
        all.skip(1)
    } else {
        all
    }
}

// ---------------------------------------------------------------------------
// Packets
// ---------------------------------------------------------------------------

/// What a media packet says.
#[derive(Debug, PartialEq, Eq)]
pub struct MediaPacket {
    pub email: String,
    /// The e-mail address on the envelope.
    pub envelope_email: String,
    /// The number of the session on the envelope; zero for none.
    pub session_id: u64,
    pub is_heartbeat: bool,
    /// Whether video and audio are on, where a heartbeat says so.
    pub heartbeat_metadata: Option<HeartbeatMetadata>,
}

#[derive(Debug, Clone, Copy, PartialEq, Eq, Structural)]
pub struct HeartbeatMetadata {
    pub video_enabled: bool,
    pub audio_enabled: bool,
}

/// What a health packet says.
#[derive(Debug, PartialEq, Eq)]
pub struct HealthPacket {
    pub reporting_peer: String,
    pub active_server_rtt_ms: Measure,
    /// What the reporter observes of others, each by e-mail address or by the
    /// number of a session.
    pub peer_stats: Vec<(String, PeerStats)>,
}

#[derive(Debug, Clone, Copy, PartialEq, Eq, Structural)]
pub struct PeerStats {
    pub neteq_stats: Option<NeteqStats>,
    pub video_stats: Option<VideoStats>,
    pub can_see: bool,
    pub can_listen: bool,
}

#[derive(Debug, Clone, Copy, PartialEq, Eq, Structural)]
pub struct NeteqStats {
    pub current_buffer_size_ms: Measure,
    pub network: Option<NetworkStats>,
}

#[derive(Debug, Clone, Copy, PartialEq, Eq, Structural)]
pub struct NetworkStats {
    pub operation_counters: Option<OperationCounters>,
}

#[derive(Debug, Clone, Copy, PartialEq, Eq, Structural)]
pub struct OperationCounters {
    pub expand_per_sec: Measure,
}

#[derive(Debug, Clone, Copy, PartialEq, Eq, Structural)]
pub struct VideoStats {
    pub fps_received: Measure,
    pub bitrate_kbps: u64,
}

/// What an observer receives, taken off its wire format: the schema of that format
/// is not part of this library.
#[derive(Debug, PartialEq, Eq)]
pub enum Packet {
    Media(MediaPacket),
    Health(HealthPacket),
    /// Anything else, and what cannot be read.
    Other,
}

/// The measurement zero.
pub open spec fn zero_measure() -> Measure {
    Measure { bits: 0 }
}

/// The quality that some observations show; what is missing counts as zero.
pub open spec fn snapshot_of(s: PeerStats, now: u64) -> QualitySnapshot {
    QualitySnapshot {
        jitter_ms: match s.neteq_stats {
            Some(n) => n.current_buffer_size_ms,
            None => zero_measure(),
        },
        conceal_per_sec: match s.neteq_stats {
            Some(n) => match n.network {
                Some(net) => match net.operation_counters {
                    Some(op) => op.expand_per_sec,
                    None => zero_measure(),
                },
                None => zero_measure(),
            },
            None => zero_measure(),
        },
        fps: match s.video_stats {
            Some(v) => v.fps_received,
            None => zero_measure(),
        },
        bitrate_kbps: match s.video_stats {
            Some(v) => v.bitrate_kbps,
            None => 0,
        },
        can_see: s.can_see,
        can_listen: s.can_listen,
        updated_at: now,
    }
}

/// The quality that some observations show; what is missing counts as zero.
pub fn quality_snapshot(s: &PeerStats, now: u64) -> (res: QualitySnapshot)
    ensures
        res == snapshot_of(*s, now),
{
    let zero = Measure { bits: 0 };
    let jitter_ms = match s.neteq_stats {
        Some(n) => n.current_buffer_size_ms,
        None => zero,
    };
    let conceal_per_sec = match s.neteq_stats {
        Some(n) => match n.network {
            Some(net) => match net.operation_counters {
                Some(op) => op.expand_per_sec,
                None => zero,
            },
            None => zero,
        },
        None => zero,
    };
    let fps = match s.video_stats {
        Some(v) => v.fps_received,
        None => zero,
    };
    let bitrate_kbps: u64 = match s.video_stats {
        Some(v) => v.bitrate_kbps,
        None => 0,
    };
    QualitySnapshot {
        jitter_ms,
        conceal_per_sec,
        fps,
        bitrate_kbps,
        can_see: s.can_see,
        can_listen: s.can_listen,
        updated_at: now,
    }
}

// ---------------------------------------------------------------------------
// The meeting
// ---------------------------------------------------------------------------

/// What is known of a meeting.
pub struct MeetingView {
    pub meeting_id: Seq<char>,
    pub started_at: u64,
    /// The participants, in the order in which they came; no two with the same
    /// e-mail address.
    pub participants: Seq<ParticipantView>,
    pub events: Seq<EventView>,
    /// Whose session has which number.
    pub sessions: Map<Seq<char>, Seq<char>>,
}

/// Whether no two participants have the same e-mail address.
pub open spec fn all_different(ps: Seq<ParticipantView>) -> bool {
    forall|i: int, j: int|
        0 <= i < j < ps.len() ==> (#[trigger] ps[i]).email != (#[trigger] ps[j]).email
}

/// Whether there is a participant with an e-mail address.
pub open spec fn takes_part(ps: Seq<ParticipantView>, email: Seq<char>) -> bool {
    exists|i: int| 0 <= i < ps.len() && (#[trigger] ps[i]).email == email
}

/// The participants after the one with an e-mail address was changed.
pub open spec fn with_changed(
    ps: Seq<ParticipantView>,
    email: Seq<char>,
    change: spec_fn(ParticipantView) -> ParticipantView,
) -> Seq<ParticipantView> {
    Seq::new(
        ps.len(),
        |i: int|
            if ps[i].email == email {
                change(ps[i])
            } else {
                ps[i]
            },
    )
}

/// The numbers of sessions, as pairs of which the last with a number counts.
pub open spec fn session_map(v: Seq<(String, String)>) -> Map<Seq<char>, Seq<char>>
    decreases v.len(),
{
    if v.len() == 0 {
        Map::empty()
    } else {
        session_map(v.drop_last()).insert(v.last().0@, v.last().1@)
    }
}

/// Whose packet a media packet is: the address in it, else the one on the
/// envelope; nobody's, where neither is given.
pub open spec fn media_sender(p: MediaPacket) -> Option<Seq<char>> {
    if p.email@.len() > 0 {
        Some(p.email@)
    } else if p.envelope_email@.len() > 0 {
        Some(p.envelope_email@)
    } else {
        None
    }
}

/// The participants after a packet from someone: a newcomer, if the sender is
/// new.
pub open spec fn with_sender(
    ps: Seq<ParticipantView>,
    email: Seq<char>,
    now: u64,
) -> Seq<ParticipantView> {
    if takes_part(ps, email) {
        with_changed(
            ps,
            email,
            |p: ParticipantView| ParticipantView { last_heartbeat: now, ..p },
        )
    } else {
        ps.push(newcomer(email, now))
    }
}

/// The participants after a heartbeat of someone.
pub open spec fn with_heartbeat(
    ps: Seq<ParticipantView>,
    email: Seq<char>,
    m: Option<HeartbeatMetadata>,
) -> Seq<ParticipantView> {
    match m {
        Some(hb) => with_changed(
            ps,
            email,
            |p: ParticipantView| ParticipantView {
                video_enabled: hb.video_enabled,
                audio_enabled: hb.audio_enabled,
                ..p
            },
        ),
        None => ps,
    }
}

/// The meeting after a media packet.
pub open spec fn after_media(
    s: MeetingView,
    p: MediaPacket,
    now: u64,
    wall: WallTime,
) -> MeetingView {
    match media_sender(p) {
        None => s,
        Some(email) => {
            let seen = with_sender(s.participants, email, now);
            MeetingView {
                sessions: if p.session_id > 0 {
                    s.sessions.insert(text::decimal(p.session_id as nat), email)
                } else {
                    s.sessions
                },
                participants: if p.is_heartbeat {
                    with_heartbeat(seen, email, p.heartbeat_metadata)
                } else {
                    seen
                },
                events: if p.is_heartbeat && !takes_part(s.participants, email) {
                    recorded(s.events, wall, email + " joined"@)
                } else {
                    s.events
                },
                ..s
            }
        },
    }
}

/// Whom an observation is about: a participant with this address, else the one
/// whose session has this number.
pub open spec fn observed_peer(s: MeetingView, peer: Seq<char>) -> Option<Seq<char>> {
    if takes_part(s.participants, peer) {
        Some(peer)
    } else if s.sessions.dom().contains(peer) {
        Some(s.sessions[peer])
    } else {
        None
    }
}

/// The meeting after one observation.
pub open spec fn after_observation(
    s: MeetingView,
    peer: Seq<char>,
    stats: PeerStats,
    now: u64,
) -> MeetingView {
    match observed_peer(s, peer) {
        None => s,
        Some(email) => MeetingView {
            participants: with_changed(
                s.participants,
                email,
                |p: ParticipantView| ParticipantView {
                    quality: Some(snapshot_of(stats, now)),
                    ..p
                },
            ),
            ..s
        },
    }
}

/// The meeting after some observations, one after the other.
pub open spec fn after_observations(
    s: MeetingView,
    stats: Seq<(String, PeerStats)>,
    now: u64,
) -> MeetingView
    decreases stats.len(),
{
    if stats.len() == 0 {
        s
    } else {
        after_observation(
            after_observations(s, stats.drop_last(), now),
            stats.last().0@,
            stats.last().1,
            now,
        )
    }
}

/// The meeting after a health packet.
pub open spec fn after_health(s: MeetingView, p: HealthPacket, now: u64) -> MeetingView {
    if p.reporting_peer@.len() == 0 {
        s
    } else {
        let reported = MeetingView {
            participants: with_changed(
                s.participants,
                p.reporting_peer@,
                |q: ParticipantView| ParticipantView {
                    rtt_ms: Some(p.active_server_rtt_ms),
                    last_heartbeat: now,
                    ..q
                },
            ),
            ..s
        };
        after_observations(reported, p.peer_stats@, now)
    }
}

/// The meeting after a packet.
pub open spec fn after_packet(s: MeetingView, p: Packet, now: u64, wall: WallTime) -> MeetingView {
    match p {
        Packet::Media(m) => after_media(s, m, now, wall),
        Packet::Health(h) => after_health(s, h, now),
        Packet::Other => s,
    }
}

/// The participants that are not gone.
pub open spec fn remaining(ps: Seq<ParticipantView>, now: u64) -> Seq<ParticipantView>
    decreases ps.len(),
{
    if ps.len() == 0 {
        Seq::empty()
    } else {
        let before = remaining(ps.drop_last(), now);
        if is_gone(ps.last(), now) {
            before
        } else {
            before.push(ps.last())
        }
    }
}

/// The events after it was noticed who is gone.
pub open spec fn departures(
    events: Seq<EventView>,
    ps: Seq<ParticipantView>,
    now: u64,
    wall: WallTime,
) -> Seq<EventView>
    decreases ps.len(),
{
    if ps.len() == 0 {
        events
    } else {
        let before = departures(events, ps.drop_last(), now, wall);
        if is_gone(ps.last(), now) {
            recorded(before, wall, ps.last().email + " left"@)
        } else {
            before
        }
    }
}

/// The meeting after it was noticed who is gone.
pub open spec fn after_tick(s: MeetingView, now: u64, wall: WallTime) -> MeetingView {
    MeetingView {
        participants: remaining(s.participants, now),
        events: departures(s.events, s.participants, now, wall),
        ..s
    }
}

/// What is known of a meeting.
#[derive(Debug)]
pub struct MeetingState {
    meeting_id: String,
    started_at: u64,
    participants: Vec<Participant>,
    events: Vec<Event>,
    session_to_email: Vec<(String, String)>,
}

impl View for MeetingState {
    type V = MeetingView;

    closed spec fn view(&self) -> MeetingView {
        MeetingView {
            meeting_id: self.meeting_id@,
            started_at: self.started_at,
            participants: people(self.participants@),
            events: history(self.events@),
            sessions: session_map(self.session_to_email@),
        }
    }
}

/// Whether what is known of a meeting is in order.
pub open spec fn well_formed(s: MeetingView) -> bool {
    all_different(s.participants) && s.events.len() <= MAX_EVENTS
}

impl MeetingState {
    #[verifier::type_invariant]
    spec fn valid(self) -> bool {
        well_formed(self@)
    }

    /// A meeting of which nothing is known yet.
    pub fn new(meeting_id: String, now: u64) -> (res: MeetingState)
        ensures
            res@ == (MeetingView {
                meeting_id: meeting_id@,
                started_at: now,
                participants: Seq::empty(),
                events: Seq::empty(),
                sessions: Map::empty(),
            }),
    {
        let participants: Vec<Participant> = Vec::new();
        let events: Vec<Event> = Vec::new();
        assert(people(participants@) =~= Seq::empty());
        assert(history(events@) =~= Seq::empty());
        MeetingState {
            meeting_id,
            started_at: now,
            participants,
            events,
            session_to_email: Vec::new(),
        }
    }
}

/// Where the participant with an e-mail address stands.
fn find(ps: &Vec<Participant>, email: &str) -> (res: Option<usize>)
    ensures
        match res {
            Some(i) => i < ps@.len() && people(ps@)[i as int].email == email@,
            None => !takes_part(people(ps@), email@),
        },
{
    let mut i: usize = 0;
    while i < ps.len()
        invariant
            i <= ps@.len(),
            forall|k: int| 0 <= k < i ==> (#[trigger] people(ps@)[k]).email != email@,
        decreases ps@.len() - i,
    {
        if ps[i].email.as_str().eq(email) {
            return Some(i);
        }
        i = i + 1;
    }
    None
}

/// What changes when one of several different participants does.
proof fn lemma_changed(
    ps: Seq<ParticipantView>,
    i: int,
    change: spec_fn(ParticipantView) -> ParticipantView,
)
    requires
        all_different(ps),
        0 <= i < ps.len(),
        change(ps[i]).email == ps[i].email,
    ensures
        with_changed(ps, ps[i].email, change) == ps.update(i, change(ps[i])),
        all_different(with_changed(ps, ps[i].email, change)),
{
    assert(with_changed(ps, ps[i].email, change) =~= ps.update(i, change(ps[i])));
}

proof fn lemma_absent_unchanged(
    ps: Seq<ParticipantView>,
    email: Seq<char>,
    change: spec_fn(ParticipantView) -> ParticipantView,
)
    requires
        !takes_part(ps, email),
    ensures
        with_changed(ps, email, change) == ps,
{
    assert(with_changed(ps, email, change) =~= ps);
}

/// Notes a packet from someone. Tells whether the sender is new.
fn note_sender(ps: &mut Vec<Participant>, email: &str, now: u64) -> (is_new: bool)
    requires
        all_different(people(old(ps)@)),
    ensures
        people(final(ps)@) == with_sender(people(old(ps)@), email@, now),
        all_different(people(final(ps)@)),
        is_new == !takes_part(people(old(ps)@), email@),
{
    let ghost before = people(ps@);
    match find(ps, email) {
        Some(i) => {
            ps[i].last_heartbeat = now;
            proof {
                let change = |p: ParticipantView| ParticipantView { last_heartbeat: now, ..p };
                lemma_changed(before, i as int, change);
                assert(people(ps@) =~= before.update(i as int, change(before[i as int])));
            }
            false
        },
        None => {
            ps.push(Participant::new(email.to_owned(), now));
            assert(people(ps@) =~= before.push(newcomer(email@, now)));
            true
        },
    }
}

/// Notes whether someone's video and audio are on.
fn note_heartbeat(ps: &mut Vec<Participant>, email: &str, hb: HeartbeatMetadata)
    requires
        all_different(people(old(ps)@)),
    ensures
        people(final(ps)@) == with_heartbeat(people(old(ps)@), email@, Some(hb)),
        all_different(people(final(ps)@)),
{
    let ghost before = people(ps@);
    let ghost change = |p: ParticipantView| ParticipantView {
        video_enabled: hb.video_enabled,
        audio_enabled: hb.audio_enabled,
        ..p
    };
    match find(ps, email) {
        Some(i) => {
            ps[i].video_enabled = hb.video_enabled;
            ps[i].audio_enabled = hb.audio_enabled;
            proof {
                lemma_changed(before, i as int, change);
                assert(people(ps@) =~= before.update(i as int, change(before[i as int])));
            }
        },
        None => {
            proof {
                lemma_absent_unchanged(before, email@, change);
            }
        },
    }
}

/// Notes what someone reports of their own connection.
fn note_report(ps: &mut Vec<Participant>, email: &str, rtt: Measure, now: u64)
    requires
        all_different(people(old(ps)@)),
    ensures
        people(final(ps)@) == with_changed(
            people(old(ps)@),
            email@,
            |q: ParticipantView| ParticipantView { rtt_ms: Some(rtt), last_heartbeat: now, ..q },
        ),
        all_different(people(final(ps)@)),
{
    let ghost before = people(ps@);
    let ghost change = |q: ParticipantView| ParticipantView {
        rtt_ms: Some(rtt),
        last_heartbeat: now,
        ..q
    };
    match find(ps, email) {
        Some(i) => {
            ps[i].rtt_ms = Some(rtt);
            ps[i].last_heartbeat = now;
            proof {
                lemma_changed(before, i as int, change);
                assert(people(ps@) =~= before.update(i as int, change(before[i as int])));
            }
        },
        None => {
            proof {
                lemma_absent_unchanged(before, email@, change);
            }
        },
    }
}

/// Notes what was observed of someone.
fn note_quality(ps: &mut Vec<Participant>, email: &str, stats: &PeerStats, now: u64)
    requires
        all_different(people(old(ps)@)),
    ensures
        people(final(ps)@) == with_changed(
            people(old(ps)@),
            email@,
            |p: ParticipantView| ParticipantView { quality: Some(snapshot_of(*stats, now)), ..p },
        ),
        all_different(people(final(ps)@)),
{
    let ghost before = people(ps@);
    let ghost change = |p: ParticipantView| ParticipantView {
        quality: Some(snapshot_of(*stats, now)),
        ..p
    };
    match find(ps, email) {
        Some(i) => {
            ps[i].quality = Some(quality_snapshot(stats, now));
            proof {
                lemma_changed(before, i as int, change);
                assert(people(ps@) =~= before.update(i as int, change(before[i as int])));
            }
        },
        None => {
            proof {
                lemma_absent_unchanged(before, email@, change);
            }
        },
    }
}

/// Where the last pair with a number stands.
fn find_session(v: &Vec<(String, String)>, number: &str) -> (res: Option<usize>)
    ensures
        match res {
            Some(i) => i < v@.len() && v@[i as int].0@ == number@ && (forall|k: int|
                i < k < v@.len() ==> (#[trigger] v@[k]).0@ != number@),
            None => forall|k: int| 0 <= k < v@.len() ==> (#[trigger] v@[k]).0@ != number@,
        },
{
    let mut i: usize = v.len();
    while i > 0
        invariant
            i <= v@.len(),
            forall|k: int| i <= k < v@.len() ==> (#[trigger] v@[k]).0@ != number@,
        decreases i,
    {
        if v[i - 1].0.as_str().eq(number) {
            return Some(i - 1);
        }
        i = i - 1;
    }
    None
}

/// What the pairs say of a number.
proof fn lemma_session_found(v: Seq<(String, String)>, i: int)
    requires
        0 <= i < v.len(),
        forall|k: int| i < k < v.len() ==> (#[trigger] v[k]).0@ != v[i].0@,
    ensures
        session_map(v).dom().contains(v[i].0@),
        session_map(v)[v[i].0@] == v[i].1@,
    decreases v.len(),
{
    if i < v.len() - 1 {
        lemma_session_found(v.drop_last(), i);
    }
}

proof fn lemma_session_missing(v: Seq<(String, String)>, number: Seq<char>)
    requires
        forall|k: int| 0 <= k < v.len() ==> (#[trigger] v[k]).0@ != number,
    ensures
        !session_map(v).dom().contains(number),
    decreases v.len(),
{
    if v.len() > 0 {
        let first = v.drop_last();
        assert forall|k: int| 0 <= k < first.len() implies (#[trigger] first[k]).0@ != number by {
            assert(first[k] == v[k]);
        }
        lemma_session_missing(first, number);
        assert(v[v.len() - 1].0@ != number);
    }
}

proof fn lemma_session_replaced(v: Seq<(String, String)>, i: int, pair: (String, String))
    requires
        0 <= i < v.len(),
        pair.0@ == v[i].0@,
        forall|k: int| i < k < v.len() ==> (#[trigger] v[k]).0@ != v[i].0@,
    ensures
        session_map(v.update(i, pair)) == session_map(v).insert(pair.0@, pair.1@),
    decreases v.len(),
{
    let n = v.len() - 1;
    let changed = v.update(i, pair);
    if i < n {
        lemma_session_replaced(v.drop_last(), i, pair);
        assert(changed.drop_last() =~= v.drop_last().update(i, pair));
        assert(changed.last() == v[n]);
    } else {
        assert(changed.drop_last() =~= v.drop_last());
    }
    assert(session_map(changed) =~= session_map(v).insert(pair.0@, pair.1@));
}

/// Notes whose session has a number.
fn note_session(v: &mut Vec<(String, String)>, number: String, email: String)
    ensures
        session_map(final(v)@) == session_map(old(v)@).insert(number@, email@),
{
    let ghost before = v@;
    match find_session(v, number.as_str()) {
        Some(i) => {
            proof {
                lemma_session_replaced(before, i as int, (number, email));
            }
            v.set(i, (number, email));
        },
        None => {
            v.push((number, email));
            assert(v@.drop_last() =~= before);
        },
    }
}

/// The participants that are not gone.
fn keep_remaining(ps: Vec<Participant>, now: u64) -> (res: Vec<Participant>)
    ensures
        people(res@) == remaining(people(ps@), now),
{
    let mut kept: Vec<Participant> = Vec::new();
    let ghost all = people(ps@);
    assert(people(kept@) =~= remaining(all.take(0), now));
    for p in it: ps
        invariant
            it.seq() == ps@,
            all == people(ps@),
            people(kept@) == remaining(all.take(it.index() as int), now),
    {
        let ghost n = it.index() as int;
        proof {
            assert(all.take(n + 1).drop_last() =~= all.take(n));
            assert(all.take(n + 1).last() == p@);
        }
        if !p.should_prune(now) {
            let ghost before = people(kept@);
            kept.push(p);
            assert(people(kept@) =~= before.push(p@));
        }
    }
    assert(all.take(all.len() as int) == all);
    kept
}

/// Adds an event; the oldest goes when there are too many.
fn record(events: &mut Vec<Event>, when: WallTime, msg: String)
    requires
        old(events)@.len() <= MAX_EVENTS,
    ensures
        history(final(events)@) == recorded(history(old(events)@), when, msg@),
        final(events)@.len() <= MAX_EVENTS,
{
    let ghost before = history(events@);
    events.push(Event { when, msg });
    assert(history(events@) =~= before.push(EventView { when, msg: msg@ }));
    if events.len() > MAX_EVENTS {
        let ghost all = events@;
        let _oldest = events.remove(0);
        assert(history(events@) =~= history(all).skip(1));
    }
}

proof fn lemma_remaining_different(ps: Seq<ParticipantView>, now: u64)
    requires
        all_different(ps),
    ensures
        all_different(remaining(ps, now)),
        forall|i: int|
            0 <= i < remaining(ps, now).len() ==> ps.contains(#[trigger] remaining(ps, now)[i]),
    decreases ps.len(),
{
    if ps.len() > 0 {
        let first = ps.drop_last();
        lemma_remaining_different(first, now);
        let before = remaining(first, now);
        let after = remaining(ps, now);
        assert forall|i: int| 0 <= i < after.len() implies ps.contains(#[trigger] after[i]) by {
            if i < before.len() {
                let k = choose|k: int| 0 <= k < first.len() && first[k] == before[i];
                assert(ps[k] == after[i]);
            } else {
                assert(ps[ps.len() - 1] == after[i]);
            }
        }
        assert forall|i: int, j: int| 0 <= i < j < after.len() implies (#[trigger] after[i]).email
            != (#[trigger] after[j]).email by {
            if j >= before.len() {
                let k = choose|k: int| 0 <= k < first.len() && first[k] == before[i];
                assert(ps[k].email != ps[ps.len() - 1].email);
            }
        }
    }
}

impl MeetingState {
    /// Takes a packet in.
    pub fn process_packet(&mut self, packet: &Packet, now: u64, wall: WallTime)
        ensures
            final(self)@ == after_packet(old(self)@, *packet, now, wall),
    {
        match packet {
            Packet::Media(m) => self.process_media(m, now, wall),
            Packet::Health(h) => self.process_health(h, now),
            Packet::Other => {},
        }
    }

    /// Takes a media packet in. Any packet shows that its sender is there; a
    /// heartbeat tells of a newcomer.
    pub fn process_media(&mut self, packet: &MediaPacket, now: u64, wall: WallTime)
        ensures
            final(self)@ == after_media(old(self)@, *packet, now, wall),
    {
        proof {
            use_type_invariant(&*self);
        }
        let email = if !packet.email.as_str().is_empty() {
            packet.email.clone()
        } else if !packet.envelope_email.as_str().is_empty() {
            packet.envelope_email.clone()
        } else {
            return ;
        };
        let mut participants: Vec<Participant> = Vec::new();
        let mut events: Vec<Event> = Vec::new();
        let mut sessions: Vec<(String, String)> = Vec::new();
        assert(people(participants@) =~= Seq::empty());
        std::mem::swap(&mut participants, &mut self.participants);
        std::mem::swap(&mut events, &mut self.events);
        std::mem::swap(&mut sessions, &mut self.session_to_email);
        if packet.session_id > 0 {
            note_session(
                &mut sessions,
                text::decimal_string(packet.session_id),
                email.clone(),
            );
        }
        let is_new = note_sender(&mut participants, email.as_str(), now);
        if packet.is_heartbeat {
            if let Some(hb) = packet.heartbeat_metadata {
                note_heartbeat(&mut participants, email.as_str(), hb);
            }
            if is_new {
                record(&mut events, wall, text::join(email.as_str(), " joined"));
            }
        }
        self.events = events;
        self.session_to_email = sessions;
        self.participants = participants;
    }

    /// Takes a health packet in. The reporter is there, and tells of the time to
    /// the server; the others are as the reporter observes them.
    pub fn process_health(&mut self, packet: &HealthPacket, now: u64)
        ensures
            final(self)@ == after_health(old(self)@, *packet, now),
    {
        proof {
            use_type_invariant(&*self);
        }
        if packet.reporting_peer.as_str().is_empty() {
            return ;
        }
        let mut participants: Vec<Participant> = Vec::new();
        assert(people(participants@) =~= Seq::empty());
        std::mem::swap(&mut participants, &mut self.participants);
        note_report(
            &mut participants,
            packet.reporting_peer.as_str(),
            packet.active_server_rtt_ms,
            now,
        );
        let stats = &packet.peer_stats;
        let ghost start = MeetingView { participants: people(participants@), ..old(self)@ };
        let mut i: usize = 0;
        assert(stats@.take(0).len() == 0);
        while i < stats.len()
            invariant
                i <= stats@.len(),
                all_different(people(participants@)),
                self@ == (MeetingView { participants: Seq::empty(), ..old(self)@ }),
                start == (MeetingView { participants: start.participants, ..old(self)@ }),
                after_observations(start, stats@.take(i as int), now) == (MeetingView {
                    participants: people(participants@),
                    ..start
                }),
            decreases stats@.len() - i,
        {
            let ghost so_far = after_observations(start, stats@.take(i as int), now);
            proof {
                assert(stats@.take(i + 1).drop_last() =~= stats@.take(i as int));
                assert(stats@.take(i + 1).last() == stats@[i as int]);
            }
            let peer = stats[i].0.as_str();
            let email = match find(&participants, peer) {
                Some(k) => {
                    assert(people(participants@)[k as int].email == peer@);
                    Some(peer.to_owned())
                },
                None => match find_session(&self.session_to_email, peer) {
                    Some(k) => {
                        proof {
                            lemma_session_found(self.session_to_email@, k as int);
                        }
                        Some(self.session_to_email[k].1.clone())
                    },
                    None => {
                        proof {
                            lemma_session_missing(self.session_to_email@, peer@);
                        }
                        None
                    },
                },
            };
            if let Some(email) = email {
                assert(observed_peer(so_far, peer@) == Some(email@));
                note_quality(&mut participants, email.as_str(), &stats[i].1, now);
            }
            i = i + 1;
        }
        assert(stats@.take(stats@.len() as int) == stats@);
        self.participants = participants;
    }

    /// Notices who is gone.
    pub fn tick(&mut self, now: u64, wall: WallTime)
        ensures
            final(self)@ == after_tick(old(self)@, now, wall),
    {
        proof {
            use_type_invariant(&*self);
        }
        let mut participants: Vec<Participant> = Vec::new();
        let mut events: Vec<Event> = Vec::new();
        assert(people(participants@) =~= Seq::empty());
        std::mem::swap(&mut participants, &mut self.participants);
        std::mem::swap(&mut events, &mut self.events);
        let ghost all = people(participants@);
        let ghost before = history(events@);
        let mut i: usize = 0;
        while i < participants.len()
            invariant
                i <= participants@.len(),
                all == people(participants@),
                events@.len() <= MAX_EVENTS,
                history(events@) == departures(before, all.take(i as int), now, wall),
            decreases participants@.len() - i,
        {
            proof {
                assert(all.take(i + 1).drop_last() =~= all.take(i as int));
                assert(all.take(i + 1).last() == participants@[i as int]@);
            }
            if participants[i].should_prune(now) {
                record(
                    &mut events,
                    wall,
                    text::join(participants[i].email.as_str(), " left"),
                );
            }
            i = i + 1;
        }
        proof {
            assert(all.take(all.len() as int) == all);
            lemma_remaining_different(all, now);
        }
        let kept = keep_remaining(participants, now);
        self.events = events;
        self.participants = kept;
    }
}

// ---------------------------------------------------------------------------
// Reading
// ---------------------------------------------------------------------------

impl MeetingState {
    pub fn meeting_id(&self) -> (res: &str)
        ensures
            res@ == self@.meeting_id,
    {
        self.meeting_id.as_str()
    }

    /// The participants, in the order in which they came.
    pub fn participants(&self) -> (res: &Vec<Participant>)
        ensures
            people(res@) == self@.participants,
    {
        &self.participants
    }

    /// The events, oldest first.
    pub fn events(&self) -> (res: &Vec<Event>)
        ensures
            history(res@) == self@.events,
    {
        &self.events
    }

    /// How long the meeting has been observed, as `h:mm:ss` or `mm:ss`.
    pub fn elapsed_str(&self, now: u64) -> (res: String)
        ensures
            res@ == clock::elapsed_text((age(self@.started_at, now) / 1_000_000_000) as nat),
    {
        clock::format_elapsed(age_of(self.started_at, now) / 1_000_000_000)
    }
}

// ---------------------------------------------------------------------------
// Sorting
// ---------------------------------------------------------------------------

/// Whether a participant comes before another in a table: the one with the higher
/// score, where the table goes by scores and they differ, and else the one whose
/// e-mail address is first in the dictionary.
pub open spec fn comes_first(
    ps: Seq<ParticipantView>,
    scores: Option<Seq<i64>>,
    i: int,
    j: int,
) -> bool {
    if scores matches Some(s) && s[i] != s[j] {
        scores->0[i] > scores->0[j]
    } else {
        text::text_before(ps[i].email, ps[j].email)
    }
}

/// Whether numbers are those below `n`, each once.
pub open spec fn permutation(order: Seq<usize>, n: nat) -> bool {
    &&& order.len() == n
    &&& forall|i: int| 0 <= i < n ==> (#[trigger] order[i]) < n
    &&& forall|i: int, j: int| 0 <= i < j < n ==> #[trigger] order[i] != #[trigger] order[j]
}

/// Whether numbers of participants stand in the order of a table.
pub open spec fn in_table_order(
    ps: Seq<ParticipantView>,
    scores: Option<Seq<i64>>,
    order: Seq<usize>,
) -> bool {
    forall|a: int, b: int|
        0 <= a < b < order.len() ==> comes_first(
            ps,
            scores,
            (#[trigger] order[a]) as int,
            (#[trigger] order[b]) as int,
        )
}

/// Whether a table shows participants: each once, in order.
pub open spec fn table_of(
    rows: Seq<ParticipantView>,
    ps: Seq<ParticipantView>,
    scores: Option<Seq<i64>>,
) -> bool {
    exists|order: Seq<usize>| #[trigger]
        permutation(order, ps.len()) && in_table_order(ps, scores, order) && rows == Seq::new(
            ps.len(),
            |i: int| ps[order[i] as int],
        )
}

pub open spec fn opt_scores(scores: Option<&Vec<i64>>) -> Option<Seq<i64>> {
    match scores {
        Some(v) => Some(v@),
        None => None,
    }
}

proof fn lemma_comes_first_total(
    ps: Seq<ParticipantView>,
    scores: Option<Seq<i64>>,
    i: int,
    j: int,
)
    requires
        all_different(ps),
        0 <= i < ps.len(),
        0 <= j < ps.len(),
        i != j,
    ensures
        comes_first(ps, scores, i, j) || comes_first(ps, scores, j, i),
{
    text::law_text_order_total(ps[i].email, ps[j].email);
    if i < j {
        assert(ps[i].email != ps[j].email);
    } else {
        assert(ps[j].email != ps[i].email);
    }
}

proof fn lemma_comes_first_transitive(
    ps: Seq<ParticipantView>,
    scores: Option<Seq<i64>>,
    i: int,
    j: int,
    k: int,
)
    requires
        comes_first(ps, scores, i, j),
        comes_first(ps, scores, j, k),
    ensures
        comes_first(ps, scores, i, k),
{
    if text::text_before(ps[i].email, ps[j].email) && text::text_before(ps[j].email, ps[k].email) {
        text::law_text_order_transitive(ps[i].email, ps[j].email, ps[k].email);
    }
}

impl MeetingState {
    fn is_before(&self, scores: Option<&Vec<i64>>, i: usize, j: usize) -> (res: bool)
        requires
            i < self.participants@.len(),
            j < self.participants@.len(),
            scores matches Some(s) ==> s@.len() == self.participants@.len(),
        ensures
            res == comes_first(self@.participants, opt_scores(scores), i as int, j as int),
    {
        if let Some(s) = scores {
            if s[i] != s[j] {
                return s[i] > s[j];
            }
        }
        text::comes_before(
            self.participants[i].email.as_str(),
            self.participants[j].email.as_str(),
        )
    }

    /// The numbers of the participants in the order of a table.
    fn table_order(&self, scores: Option<&Vec<i64>>) -> (order: Vec<usize>)
        requires
            scores matches Some(s) ==> s@.len() == self.participants@.len(),
        ensures
            permutation(order@, self@.participants.len()),
            in_table_order(self@.participants, opt_scores(scores), order@),
    {
        proof {
            use_type_invariant(self);
        }
        let ghost ps = self@.participants;
        let ghost sc = opt_scores(scores);
        let mut order: Vec<usize> = Vec::new();
        let mut k: usize = 0;
        while k < self.participants.len()
            invariant
                k <= self.participants@.len(),
                ps == self@.participants,
                all_different(ps),
                sc == opt_scores(scores),
                scores matches Some(s) ==> s@.len() == self.participants@.len(),
                permutation(order@, k as nat),
                in_table_order(ps, sc, order@),
            decreases self.participants@.len() - k,
        {
            let ghost before = order@;
            let mut at: usize = 0;
            while at < order.len() && self.is_before(scores, order[at], k)
                invariant
                    at <= order@.len(),
                    order@ == before,
                    k < self.participants@.len(),
                    ps == self@.participants,
                    sc == opt_scores(scores),
                    scores matches Some(s) ==> s@.len() == self.participants@.len(),
                    permutation(order@, k as nat),
                    forall|a: int|
                        0 <= a < at ==> comes_first(
                            ps,
                            sc,
                            (#[trigger] order@[a]) as int,
                            k as int,
                        ),
                decreases order@.len() - at,
            {
                at = at + 1;
            }
            proof {
                if at < before.len() {
                    lemma_comes_first_total(ps, sc, before[at as int] as int, k as int);
                    assert forall|a: int| at <= a < before.len() implies comes_first(
                        ps,
                        sc,
                        k as int,
                        (#[trigger] before[a]) as int,
                    ) by {
                        if a > at {
                            lemma_comes_first_transitive(
                                ps,
                                sc,
                                k as int,
                                before[at as int] as int,
                                before[a] as int,
                            );
                        }
                    }
                }
            }
            order.insert(at, k);
            proof {
                assert(order@ == before.insert(at as int, k));
                assert forall|a: int, b: int| 0 <= a < b < order@.len() implies comes_first(
                    ps,
                    sc,
                    (#[trigger] order@[a]) as int,
                    (#[trigger] order@[b]) as int,
                ) by {
                    if a == at {
                        assert(order@[b] == before[b - 1]);
                    } else if b == at {
                        assert(order@[a] == before[a]);
                    } else {
                        assert(order@[a] == before[if a < at {
                            a
                        } else {
                            a - 1
                        }]);
                        assert(order@[b] == before[if b < at {
                            b
                        } else {
                            b - 1
                        }]);
                    }
                }
                assert forall|i: int| 0 <= i < k + 1 implies (#[trigger] order@[i]) < k + 1 by {
                    if i < at {
                        assert(order@[i] == before[i]);
                    } else if i > at {
                        assert(order@[i] == before[i - 1]);
                    }
                }
                assert forall|i: int, j: int| 0 <= i < j < k + 1 implies #[trigger] order@[i]
                    != #[trigger] order@[j] by {
                    if i < at {
                        assert(order@[i] == before[i]);
                    } else if i > at {
                        assert(order@[i] == before[i - 1]);
                    }
                    if j < at {
                        assert(order@[j] == before[j]);
                    } else if j > at {
                        assert(order@[j] == before[j - 1]);
                    }
                }
            }
            k = k + 1;
        }
        order
    }

    /// The participants in the order of a table: by their scores, highest first,
    /// where scores are given, one for each participant in the order in which they
    /// came; and else by e-mail address.
    pub fn sorted_participants(&self, scores: Option<&Vec<i64>>) -> (res: Vec<&Participant>)
        requires
            scores matches Some(s) ==> s@.len() == self@.participants.len(),
        ensures
            table_of(
                Seq::new(res@.len(), |i: int| res@[i]@),
                self@.participants,
                opt_scores(scores),
            ),
    {
        let order = self.table_order(scores);
        let mut rows: Vec<&Participant> = Vec::new();
        let mut i: usize = 0;
        while i < order.len()
            invariant
                i <= order@.len(),
                permutation(order@, self.participants@.len()),
                rows@.len() == i,
                forall|k: int|
                    0 <= k < i ==> *(#[trigger] rows@[k])
                        == self.participants@[order@[k] as int],
            decreases order@.len() - i,
        {
            rows.push(&self.participants[order[i]]);
            i = i + 1;
        }
        proof {
            let shown = Seq::new(rows@.len(), |k: int| rows@[k]@);
            assert(shown =~= Seq::new(
                self@.participants.len(),
                |k: int| self@.participants[order@[k] as int],
            ));
        }
        rows
    }
}

// ---------------------------------------------------------------------------
// Laws
// ---------------------------------------------------------------------------

proof fn lemma_with_changed(
    ps: Seq<ParticipantView>,
    email: Seq<char>,
    change: spec_fn(ParticipantView) -> ParticipantView,
)
    requires
        forall|p: ParticipantView| (#[trigger] change(p)).email == p.email,
    ensures
        with_changed(ps, email, change).len() == ps.len(),
        forall|i: int|
            0 <= i < ps.len() ==> (#[trigger] with_changed(ps, email, change)[i]).email
                == ps[i].email,
        all_different(ps) ==> all_different(with_changed(ps, email, change)),
{
}

proof fn lemma_observations(s: MeetingView, stats: Seq<(String, PeerStats)>, now: u64)
    ensures
        ({
            let t = after_observations(s, stats, now);
            &&& t.participants.len() == s.participants.len()
            &&& forall|i: int|
                0 <= i < s.participants.len() ==> (#[trigger] t.participants[i]).email
                    == s.participants[i].email
            &&& t.events == s.events
            &&& all_different(s.participants) ==> all_different(t.participants)
        }),
    decreases stats.len(),
{
    if stats.len() > 0 {
        lemma_observations(s, stats.drop_last(), now);
        let before = after_observations(s, stats.drop_last(), now);
        if let Some(email) = observed_peer(before, stats.last().0@) {
            lemma_with_changed(
                before.participants,
                email,
                |p: ParticipantView| ParticipantView {
                    quality: Some(snapshot_of(stats.last().1, now)),
                    ..p
                },
            );
        }
    }
}

/// Health packets tell of those who are there; they bring nobody in and turn
/// nobody out.
pub proof fn law_health_packets_keep_the_list(s: MeetingView, p: HealthPacket, now: u64)
    ensures
        after_health(s, p, now).participants.len() == s.participants.len(),
        forall|i: int|
            0 <= i < s.participants.len() ==> (#[trigger] after_health(
                s,
                p,
                now,
            ).participants[i]).email == s.participants[i].email,
        after_health(s, p, now).events == s.events,
        all_different(s.participants) ==> all_different(after_health(s, p, now).participants),
{
    if p.reporting_peer@.len() > 0 {
        let change = |q: ParticipantView| ParticipantView {
            rtt_ms: Some(p.active_server_rtt_ms),
            last_heartbeat: now,
            ..q
        };
        lemma_with_changed(s.participants, p.reporting_peer@, change);
        let reported = MeetingView {
            participants: with_changed(s.participants, p.reporting_peer@, change),
            ..s
        };
        lemma_observations(reported, p.peer_stats@, now);
        assert(after_health(s, p, now) == after_observations(reported, p.peer_stats@, now));
        assert forall|i: int| 0 <= i < s.participants.len() implies (#[trigger] after_health(
            s,
            p,
            now,
        ).participants[i]).email == s.participants[i].email by {
            assert(reported.participants[i].email == s.participants[i].email);
        }
    }
}

proof fn lemma_media_participants(s: MeetingView, p: MediaPacket, now: u64, wall: WallTime)
    requires
        media_sender(p) is Some,
        all_different(s.participants),
    ensures
        all_different(after_media(s, p, now, wall).participants),
        exists|i: int|
            0 <= i < after_media(s, p, now, wall).participants.len() && (
            #[trigger] after_media(s, p, now, wall).participants[i]).email == media_sender(p)->0
                && after_media(s, p, now, wall).participants[i].last_heartbeat == now,
{
    let email = media_sender(p)->0;
    let seen = with_sender(s.participants, email, now);
    let touch = |q: ParticipantView| ParticipantView { last_heartbeat: now, ..q };
    lemma_with_changed(s.participants, email, touch);
    assert(all_different(seen));
    let i = if takes_part(s.participants, email) {
        choose|i: int| 0 <= i < s.participants.len() && (#[trigger] s.participants[i]).email
            == email
    } else {
        s.participants.len() as int
    };
    assert(seen[i].email == email && seen[i].last_heartbeat == now);
    let after = after_media(s, p, now, wall).participants;
    if p.is_heartbeat {
        if let Some(hb) = p.heartbeat_metadata {
            lemma_with_changed(
                seen,
                email,
                |q: ParticipantView| ParticipantView {
                    video_enabled: hb.video_enabled,
                    audio_enabled: hb.audio_enabled,
                    ..q
                },
            );
        }
    }
    assert(after[i].email == email && after[i].last_heartbeat == now);
}

/// Whoever sends a media packet of any kind is there at that moment: listed, and
/// neither stale nor gone.
pub proof fn law_media_packets_show_presence(
    s: MeetingView,
    p: MediaPacket,
    now: u64,
    wall: WallTime,
)
    requires
        media_sender(p) is Some,
        all_different(s.participants),
    ensures
        exists|i: int|
            0 <= i < after_media(s, p, now, wall).participants.len() && (
            #[trigger] after_media(s, p, now, wall).participants[i]).email == media_sender(p)->0
                && age(after_media(s, p, now, wall).participants[i].last_heartbeat, now) == 0,
{
    lemma_media_participants(s, p, now, wall);
}

/// What is known stays in order, whatever packets come: nobody is listed twice,
/// and no more events are kept than are meant to be.
pub proof fn law_packets_keep_the_meeting_in_order(
    s: MeetingView,
    p: Packet,
    now: u64,
    wall: WallTime,
)
    requires
        well_formed(s),
    ensures
        well_formed(after_packet(s, p, now, wall)),
{
    match p {
        Packet::Media(m) => {
            if media_sender(m) is Some {
                lemma_media_participants(s, m, now, wall);
            }
        },
        Packet::Health(h) => {
            law_health_packets_keep_the_list(s, h, now);
        },
        Packet::Other => {},
    }
}

proof fn lemma_departures_len(
    events: Seq<EventView>,
    ps: Seq<ParticipantView>,
    now: u64,
    wall: WallTime,
)
    requires
        events.len() <= MAX_EVENTS,
    ensures
        departures(events, ps, now, wall).len() <= MAX_EVENTS,
    decreases ps.len(),
{
    if ps.len() > 0 {
        lemma_departures_len(events, ps.drop_last(), now, wall);
    }
}

proof fn lemma_remaining(ps: Seq<ParticipantView>, now: u64)
    ensures
        forall|i: int|
            0 <= i < remaining(ps, now).len() ==> !is_gone(#[trigger] remaining(ps, now)[i], now),
        forall|i: int|
            0 <= i < ps.len() && !is_gone(#[trigger] ps[i], now) ==> remaining(ps, now).contains(
                ps[i],
            ),
    decreases ps.len(),
{
    if ps.len() > 0 {
        let first = ps.drop_last();
        lemma_remaining(first, now);
        let before = remaining(first, now);
        let after = remaining(ps, now);
        assert forall|i: int| 0 <= i < ps.len() && !is_gone(#[trigger] ps[i], now) implies after.contains(
            ps[i],
        ) by {
            if i < first.len() {
                assert(first[i] == ps[i]);
                let k = choose|k: int| 0 <= k < before.len() && before[k] == ps[i];
                assert(after[k] == ps[i]);
            } else {
                assert(after.last() == ps[i]);
            }
        }
    }
}

/// After a look at who is gone, those and only those are no longer listed, and
/// what is known is still in order.
pub proof fn law_only_the_silent_are_removed(s: MeetingView, now: u64, wall: WallTime)
    requires
        well_formed(s),
    ensures
        well_formed(after_tick(s, now, wall)),
        forall|i: int|
            0 <= i < after_tick(s, now, wall).participants.len() ==> !is_gone(
                #[trigger] after_tick(s, now, wall).participants[i],
                now,
            ),
        forall|i: int|
            0 <= i < s.participants.len() && !is_gone(#[trigger] s.participants[i], now)
                ==> after_tick(s, now, wall).participants.contains(s.participants[i]),
{
    lemma_remaining(s.participants, now);
    lemma_remaining_different(s.participants, now);
    lemma_departures_len(s.events, s.participants, now, wall);
}

/// Nobody is gone who does not count as stale.
pub proof fn law_gone_is_later_than_stale(p: ParticipantView, now: u64)
    requires
        is_gone(p, now),
    ensures
        age(p.last_heartbeat, now) > STALE_THRESHOLD,
{
}

/// Whether a media packet is someone's: the address in it counts, and the one on the
/// envelope only where there is none in it.
pub open spec fn is_from(p: MediaPacket, email: Seq<char>) -> bool {
    &&& email.len() > 0
    &&& p.email@ == email || (p.email@.len() == 0 && p.envelope_email@ == email)
}

/// The place at which someone is listed, or the next one where they are not.
pub open spec fn place_of(ps: Seq<ParticipantView>, email: Seq<char>, i: int) -> bool {
    &&& 0 <= i <= ps.len()
    &&& i < ps.len() ==> ps[i].email == email
    &&& i == ps.len() ==> forall|j: int| 0 <= j < ps.len() ==> (#[trigger] ps[j]).email != email
}

/// Whether video and audio are on after a packet, given whether they were before.
pub open spec fn switches_after(p: MediaPacket, video: bool, audio: bool) -> (bool, bool) {
    if p.is_heartbeat && p.heartbeat_metadata is Some {
        (p.heartbeat_metadata->0.video_enabled, p.heartbeat_metadata->0.audio_enabled)
    } else {
        (video, audio)
    }
}

/// After a packet, its sender is listed, was last heard of now, and has video and
/// audio on exactly as a heartbeat says, whatever they were before; without a word
/// on them they stay, and for a newcomer they are off. Of a newcomer nothing else is
/// known; one who was listed keeps all else, and so does everybody else, in place.
pub proof fn law_sender_after_a_packet(
    s: &mut MeetingState,
    packet: &Packet,
    m: MediaPacket,
    now: u64,
    wall: WallTime,
    email: Seq<char>,
    i: int,
)
    requires
        call_ensures(MeetingState::process_packet, (s, packet, now, wall), ()),
        *packet == Packet::Media(m),
        is_from(m, email),
        all_different(old(s)@.participants),
        place_of(old(s)@.participants, email, i),
    ensures
        ({
            let before = old(s)@.participants;
            let after = final(s)@.participants;
            let was_on = if i < before.len() {
                (before[i].video_enabled, before[i].audio_enabled)
            } else {
                (false, false)
            };
            &&& i < before.len() ==> after.len() == before.len()
            &&& i == before.len() ==> after.len() == before.len() + 1
            &&& after[i].email == email
            &&& after[i].last_heartbeat == now
            &&& (after[i].video_enabled, after[i].audio_enabled) == switches_after(
                m,
                was_on.0,
                was_on.1,
            )
            &&& i < before.len() ==> after[i].rtt_ms == before[i].rtt_ms && after[i].quality
                == before[i].quality && after[i].joined_at == before[i].joined_at
            &&& i == before.len() ==> after[i].rtt_ms is None && after[i].quality is None
                && after[i].joined_at == now
            &&& forall|j: int|
                0 <= j < before.len() && j != i ==> #[trigger] after[j] == before[j]
        }),
{
    let before = old(s)@.participants;
    let seen = with_sender(before, email, now);
    let after = final(s)@.participants;
    assert(media_sender(m) == Some(email));
    if i < before.len() {
        assert(takes_part(before, email));
    }
    assert forall|j: int| 0 <= j < before.len() && j != i implies before[j].email != email by {
        if i < before.len() {
            if j < i {
                assert(before[j].email != before[i].email);
            } else {
                assert(before[i].email != before[j].email);
            }
        }
    }
    assert forall|j: int| 0 <= j < before.len() && j != i implies #[trigger] after[j]
        == before[j] by {
        assert(seen[j] == before[j]);
    }
}

/// A heartbeat of a newcomer, and no other media packet, is an event: that they
/// joined. Of the events before it the newest are kept, so that there are at most
/// fifty.
pub proof fn law_newcomers_are_announced(
    s: &mut MeetingState,
    packet: &Packet,
    m: MediaPacket,
    now: u64,
    wall: WallTime,
    email: Seq<char>,
    i: int,
)
    requires
        call_ensures(MeetingState::process_packet, (s, packet, now, wall), ()),
        *packet == Packet::Media(m),
        is_from(m, email),
        place_of(old(s)@.participants, email, i),
        old(s)@.events.len() <= 50,
    ensures
        !m.is_heartbeat || i < old(s)@.participants.len() ==> final(s)@.events == old(s)@.events,
        m.is_heartbeat && i == old(s)@.participants.len() ==> final(s)@.events.len() > 0
            && final(s)@.events.last().msg == email + " joined"@ && final(s)@.events.last().when
            == wall && final(s)@.events.drop_last() == if old(s)@.events.len() < 50 {
            old(s)@.events
        } else {
            old(s)@.events.skip(1)
        },
{
    assert(media_sender(m) == Some(email));
    if i < old(s)@.participants.len() {
        assert(takes_part(old(s)@.participants, email));
    }
    if m.is_heartbeat && i == old(s)@.participants.len() {
        let e = old(s)@.events;
        assert(final(s)@.events == recorded(e, wall, email + " joined"@));
        assert(final(s)@.events.drop_last() =~= if e.len() < 50 {
            e
        } else {
            e.skip(1)
        });
    }
}

/// A packet with the number of a session tells whose it is; numbers that it does not
/// name keep their owners. A packet that is nobody's, or of no known kind, changes
/// nothing.
pub proof fn law_sessions(
    s: &mut MeetingState,
    packet: &Packet,
    now: u64,
    wall: WallTime,
    email: Seq<char>,
    number: Seq<char>,
)
    requires
        call_ensures(MeetingState::process_packet, (s, packet, now, wall), ()),
    ensures
        final(s)@.meeting_id == old(s)@.meeting_id,
        final(s)@.started_at == old(s)@.started_at,
        packet is Other ==> final(s)@ == old(s)@,
        !(packet is Media) ==> final(s)@.sessions == old(s)@.sessions,
        *packet matches Packet::Media(m) ==> {
            &&& m.email@.len() == 0 && m.envelope_email@.len() == 0 ==> final(s)@ == old(s)@
            &&& is_from(m, email) && m.session_id == 0 ==> final(s)@.sessions == old(s)@.sessions
            &&& is_from(m, email) && m.session_id > 0 && number == text::decimal(
                m.session_id as nat,
            ) ==> final(s)@.sessions.dom().contains(number) && final(s)@.sessions[number] == email
            &&& is_from(m, email) && m.session_id > 0 && number != text::decimal(
                m.session_id as nat,
            ) ==> (final(s)@.sessions.dom().contains(number) <==> old(s)@.sessions.dom().contains(
                number,
            )) && (old(s)@.sessions.dom().contains(number) ==> final(s)@.sessions[number]
                == old(s)@.sessions[number])
        },
{
    if let Packet::Media(m) = *packet {
        if is_from(m, email) {
            assert(media_sender(m) == Some(email));
        }
    }
    if let Packet::Health(h) = *packet {
        lemma_health_keeps_the_rest(old(s)@, h, now);
    }
}

proof fn lemma_observations_keep_the_rest(s: MeetingView, stats: Seq<(String, PeerStats)>, now: u64)
    ensures
        ({
            let t = after_observations(s, stats, now);
            &&& t.meeting_id == s.meeting_id
            &&& t.started_at == s.started_at
            &&& t.sessions == s.sessions
            &&& t.events == s.events
            &&& t.participants.len() == s.participants.len()
            &&& forall|i: int|
                0 <= i < s.participants.len() ==> (#[trigger] t.participants[i]) == (
                ParticipantView { quality: t.participants[i].quality, ..s.participants[i] })
        }),
    decreases stats.len(),
{
    if stats.len() > 0 {
        lemma_observations_keep_the_rest(s, stats.drop_last(), now);
    }
}

proof fn lemma_health_keeps_the_rest(s: MeetingView, h: HealthPacket, now: u64)
    ensures
        after_health(s, h, now).meeting_id == s.meeting_id,
        after_health(s, h, now).started_at == s.started_at,
        after_health(s, h, now).sessions == s.sessions,
        after_health(s, h, now).events == s.events,
{
    if h.reporting_peer@.len() > 0 {
        let reported = MeetingView {
            participants: with_changed(
                s.participants,
                h.reporting_peer@,
                |q: ParticipantView| ParticipantView {
                    rtt_ms: Some(h.active_server_rtt_ms),
                    last_heartbeat: now,
                    ..q
                },
            ),
            ..s
        };
        lemma_observations_keep_the_rest(reported, h.peer_stats@, now);
    }
}

/// Who reports on their health was heard of now, at the time to the server that they
/// report. Nobody else's time to the server changes, nor when they were heard of;
/// and nobody's video or audio, nor when they came. A report without a reporter
/// changes nothing.
pub proof fn law_report(s: &mut MeetingState, packet: &Packet, h: HealthPacket, now: u64, wall: WallTime)
    requires
        call_ensures(MeetingState::process_packet, (s, packet, now, wall), ()),
        *packet == Packet::Health(h),
    ensures
        h.reporting_peer@.len() == 0 ==> final(s)@ == old(s)@,
        final(s)@.participants.len() == old(s)@.participants.len(),
        final(s)@.events == old(s)@.events,
        forall|i: int|
            0 <= i < old(s)@.participants.len() ==> {
                let before = old(s)@.participants[i];
                let after = #[trigger] final(s)@.participants[i];
                &&& after.email == before.email
                &&& after.video_enabled == before.video_enabled
                &&& after.audio_enabled == before.audio_enabled
                &&& after.joined_at == before.joined_at
                &&& h.reporting_peer@.len() > 0 && before.email == h.reporting_peer@
                    ==> after.rtt_ms == Some(h.active_server_rtt_ms) && after.last_heartbeat == now
                &&& before.email != h.reporting_peer@ ==> after.rtt_ms == before.rtt_ms
                    && after.last_heartbeat == before.last_heartbeat
            },
{
    if h.reporting_peer@.len() > 0 {
        let reported = MeetingView {
            participants: with_changed(
                old(s)@.participants,
                h.reporting_peer@,
                |q: ParticipantView| ParticipantView {
                    rtt_ms: Some(h.active_server_rtt_ms),
                    last_heartbeat: now,
                    ..q
                },
            ),
            ..old(s)@
        };
        lemma_observations_keep_the_rest(reported, h.peer_stats@, now);
        assert(final(s)@ == after_observations(reported, h.peer_stats@, now));
        assert forall|i: int| 0 <= i < old(s)@.participants.len() implies ({
            let before = old(s)@.participants[i];
            let after = #[trigger] final(s)@.participants[i];
            &&& after.email == before.email
            &&& after.video_enabled == before.video_enabled
            &&& after.audio_enabled == before.audio_enabled
            &&& after.joined_at == before.joined_at
            &&& h.reporting_peer@.len() > 0 && before.email == h.reporting_peer@ ==> after.rtt_ms
                == Some(h.active_server_rtt_ms) && after.last_heartbeat == now
            &&& before.email != h.reporting_peer@ ==> after.rtt_ms == before.rtt_ms
                && after.last_heartbeat == before.last_heartbeat
        }) by {
            assert(final(s)@.participants[i] == (ParticipantView {
                quality: final(s)@.participants[i].quality,
                ..reported.participants[i]
            }));
        }
    }
}

/// One observation is about the participant with that address, and where there is
/// none, about the one whose session has that number. It changes their quality, and
/// nobody else's; an observation of nobody changes nothing.
pub proof fn law_one_observation(
    s: MeetingView,
    peer: String,
    stats: PeerStats,
    now: u64,
    snapshot: QualitySnapshot,
)
    requires
        call_ensures(quality_snapshot, (&stats, now), snapshot),
    ensures
        ({
            let t = after_observations(s, seq![(peer, stats)], now);
            let listed = exists|i: int|
                0 <= i < s.participants.len() && (#[trigger] s.participants[i]).email == peer@;
            &&& t.participants.len() == s.participants.len()
            &&& forall|i: int|
                0 <= i < s.participants.len() ==> {
                    let p = s.participants[i];
                    let meant = if listed {
                        p.email == peer@
                    } else {
                        s.sessions.dom().contains(peer@) && p.email == s.sessions[peer@]
                    };
                    (#[trigger] t.participants[i]).quality == if meant {
                        Some(snapshot)
                    } else {
                        p.quality
                    }
                }
        }),
{
    let one = seq![(peer, stats)];
    assert(one.drop_last() =~= Seq::empty());
    assert(after_observations(s, one.drop_last(), now) == s);
    assert(after_observations(s, one, now) == after_observation(s, peer@, stats, now));
    let t = after_observation(s, peer@, stats, now);
    if exists|i: int| 0 <= i < s.participants.len() && (#[trigger] s.participants[i]).email == peer@ {
        assert(takes_part(s.participants, peer@));
    } else {
        assert(!takes_part(s.participants, peer@));
    }
}

/// Observations count one after the other.
pub proof fn law_observations_in_parts(
    s: MeetingView,
    a: Seq<(String, PeerStats)>,
    b: Seq<(String, PeerStats)>,
    now: u64,
)
    ensures
        after_observations(s, a + b, now) == after_observations(
            after_observations(s, a, now),
            b,
            now,
        ),
    decreases b.len(),
{
    if b.len() == 0 {
        assert(a + b =~= a);
    } else {
        law_observations_in_parts(s, a, b.drop_last(), now);
        assert((a + b).drop_last() =~= a + b.drop_last());
        assert((a + b).last() == b.last());
    }
}

/// A report with one observation shows it: the quality of the one who is meant is
/// the one observed, now.
pub proof fn law_report_with_an_observation(
    s: &mut MeetingState,
    packet: &Packet,
    h: HealthPacket,
    stats: PeerStats,
    now: u64,
    wall: WallTime,
    i: int,
    snapshot: QualitySnapshot,
)
    requires
        call_ensures(MeetingState::process_packet, (s, packet, now, wall), ()),
        call_ensures(quality_snapshot, (&stats, now), snapshot),
        *packet == Packet::Health(h),
        h.reporting_peer@.len() > 0,
        0 <= i < old(s)@.participants.len(),
        h.peer_stats@.len() == 1,
        h.peer_stats@[0].0@ == old(s)@.participants[i].email,
        h.peer_stats@[0].1 == stats,
    ensures
        final(s)@.participants[i].quality == Some(snapshot),
        forall|j: int|
            0 <= j < old(s)@.participants.len() && old(s)@.participants[j].email
                != old(s)@.participants[i].email ==> (#[trigger] final(s)@.participants[j]).quality
                == old(s)@.participants[j].quality,
{
    let reported = MeetingView {
        participants: with_changed(
            old(s)@.participants,
            h.reporting_peer@,
            |q: ParticipantView| ParticipantView {
                rtt_ms: Some(h.active_server_rtt_ms),
                last_heartbeat: now,
                ..q
            },
        ),
        ..old(s)@
    };
    let pair = h.peer_stats@[0];
    assert(h.peer_stats@ =~= seq![(pair.0, pair.1)]);
    law_one_observation(reported, pair.0, stats, now, snapshot);
    assert(reported.participants[i].email == pair.0@);
    assert forall|j: int|
        0 <= j < old(s)@.participants.len() && old(s)@.participants[j].email
            != old(s)@.participants[i].email implies (#[trigger] final(s)@.participants[j]).quality
        == old(s)@.participants[j].quality by {
        assert(reported.participants[j].email == old(s)@.participants[j].email);
        assert(reported.participants[j].quality == old(s)@.participants[j].quality);
    }
}

/// An observation is taken as it is: the buffer as jitter, the expansions as
/// concealment, frames and rate of the video, and whether the peer is seen and
/// heard. What was not measured is zero.
pub proof fn law_snapshot(stats: &PeerStats, now: u64, res: QualitySnapshot)
    requires
        call_ensures(quality_snapshot, (stats, now), res),
    ensures
        res.updated_at == now,
        res.can_see == stats.can_see,
        res.can_listen == stats.can_listen,
        match stats.video_stats {
            Some(v) => res.fps == v.fps_received && res.bitrate_kbps == v.bitrate_kbps,
            None => res.fps.bits == 0 && res.bitrate_kbps == 0,
        },
        match stats.neteq_stats {
            Some(n) => {
                &&& res.jitter_ms == n.current_buffer_size_ms
                &&& n.network is Some && n.network->0.operation_counters is Some
                    ==> res.conceal_per_sec == n.network->0.operation_counters->0.expand_per_sec
                &&& n.network is None || n.network->0.operation_counters is None
                    ==> res.conceal_per_sec.bits == 0
            },
            None => res.jitter_ms.bits == 0 && res.conceal_per_sec.bits == 0,
        },
{
}

/// Who has not been heard of for more than two seconds is stale, for more than ten
/// gone; who was heard of later than now, or just then, is neither.
pub proof fn law_silence(p: &Participant, now: u64, stale: bool, gone: bool)
    requires
        call_ensures(Participant::is_stale, (p, now), stale),
        call_ensures(Participant::should_prune, (p, now), gone),
    ensures
        stale <==> now - p.last_heartbeat > 2 * 1_000_000_000,
        gone <==> now - p.last_heartbeat > 10 * 1_000_000_000,
{
}

/// Who takes part is looked at one by one: those of a first and a second part that
/// are left, and the events, are those of the first and then of the second.
pub proof fn law_departures_one_by_one(
    events: Seq<EventView>,
    a: Seq<ParticipantView>,
    b: Seq<ParticipantView>,
    now: u64,
    wall: WallTime,
)
    ensures
        remaining(a + b, now) == remaining(a, now) + remaining(b, now),
        departures(events, a + b, now, wall) == departures(
            departures(events, a, now, wall),
            b,
            now,
            wall,
        ),
    decreases b.len(),
{
    if b.len() == 0 {
        assert(a + b =~= a);
        assert(remaining(a, now) + remaining(b, now) =~= remaining(a, now));
    } else {
        law_departures_one_by_one(events, a, b.drop_last(), now, wall);
        assert((a + b).drop_last() =~= a + b.drop_last());
        assert((a + b).last() == b.last());
        assert(remaining(a + b, now) =~= remaining(a, now) + remaining(b, now));
    }
}

/// Who has been silent for more than ten seconds is no longer listed, and that they
/// left is an event; the others stay, in their order, and nothing else changes.
pub proof fn law_one_departure(
    s: &mut MeetingState,
    now: u64,
    wall: WallTime,
    a: Seq<ParticipantView>,
    p: ParticipantView,
    b: Seq<ParticipantView>,
)
    requires
        call_ensures(MeetingState::tick, (s, now, wall), ()),
        old(s)@.participants == a + seq![p] + b,
        forall|i: int| 0 <= i < a.len() ==> now - (#[trigger] a[i]).last_heartbeat <= 10_000_000_000,
        forall|i: int| 0 <= i < b.len() ==> now - (#[trigger] b[i]).last_heartbeat <= 10_000_000_000,
        old(s)@.events.len() < 50,
    ensures
        now - p.last_heartbeat > 10_000_000_000 ==> final(s)@.participants == a + b
            && final(s)@.events == old(s)@.events.push(
            EventView { when: wall, msg: p.email + " left"@ },
        ),
        now - p.last_heartbeat <= 10_000_000_000 ==> final(s)@ == old(s)@,
        final(s)@.sessions == old(s)@.sessions,
        final(s)@.meeting_id == old(s)@.meeting_id,
        final(s)@.started_at == old(s)@.started_at,
{
    let e = old(s)@.events;
    lemma_nobody_gone(e, a, now, wall);
    law_departures_one_by_one(e, a, seq![p], now, wall);
    law_departures_one_by_one(e, a + seq![p], b, now, wall);
    let one = seq![p];
    assert(one.drop_last() =~= Seq::empty());
    assert(remaining(one.drop_last(), now) =~= Seq::empty());
    assert(departures(e, one.drop_last(), now, wall) == e);
    let mid = departures(e, one, now, wall);
    lemma_nobody_gone(mid, b, now, wall);
    if now - p.last_heartbeat > 10_000_000_000 {
        assert(remaining(one, now) =~= Seq::empty());
        assert(final(s)@.participants =~= a + b);
    } else {
        assert(remaining(one, now) =~= one);
        assert(final(s)@.participants =~= a + one + b);
    }
}

proof fn lemma_nobody_gone(
    events: Seq<EventView>,
    ps: Seq<ParticipantView>,
    now: u64,
    wall: WallTime,
)
    requires
        forall|i: int| 0 <= i < ps.len() ==> now - (#[trigger] ps[i]).last_heartbeat
            <= 10_000_000_000,
    ensures
        remaining(ps, now) == ps,
        departures(events, ps, now, wall) == events,
    decreases ps.len(),
{
    if ps.len() > 0 {
        let first = ps.drop_last();
        assert forall|i: int| 0 <= i < first.len() implies now - (#[trigger] first[i]).last_heartbeat
            <= 10_000_000_000 by {
            assert(first[i] == ps[i]);
        }
        lemma_nobody_gone(events, first, now, wall);
        assert(ps[ps.len() - 1] == ps.last());
        assert(remaining(ps, now) =~= ps);
    } else {
        assert(remaining(ps, now) =~= ps);
    }
}

/// A table has every participant once. Without scores it goes by address, in the
/// order of the dictionary; with scores the higher one stands above, and address
/// decides between equals.
pub proof fn law_table(
    s: &MeetingState,
    scores: Option<&Vec<i64>>,
    res: Vec<&Participant>,
)
    requires
        scores matches Some(v) ==> v@.len() == s@.participants.len(),
        call_ensures(MeetingState::sorted_participants, (s, scores), res),
    ensures
        res@.len() == s@.participants.len(),
        scores is None ==> forall|a: int, b: int|
            0 <= a < b < res@.len() ==> text::text_before(
                (#[trigger] res@[a]).email@,
                (#[trigger] res@[b]).email@,
            ),
        exists|order: Seq<usize>|
            {
                &&& #[trigger] permutation(order, s@.participants.len())
                &&& forall|a: int|
                    0 <= a < res@.len() ==> (#[trigger] res@[a])@ == s@.participants[order[a] as int]
                &&& scores matches Some(v) ==> forall|a: int, b: int|
                    0 <= a < b < res@.len() ==> v@[(#[trigger] order[a]) as int]
                        > v@[(#[trigger] order[b]) as int] || (v@[order[a] as int]
                        == v@[order[b] as int] && text::text_before(
                        res@[a].email@,
                        res@[b].email@,
                    ))
            },
{
    let ps = s@.participants;
    let rows = Seq::new(res@.len(), |i: int| res@[i]@);
    let sc = opt_scores(scores);
    let order = choose|order: Seq<usize>| #[trigger]
        permutation(order, ps.len()) && in_table_order(ps, sc, order) && rows == Seq::new(
            ps.len(),
            |i: int| ps[order[i] as int],
        );
    assert(rows.len() == ps.len());
    assert forall|a: int| 0 <= a < res@.len() implies (#[trigger] res@[a])@ == ps[order[a] as int] by {
        assert(rows[a] == ps[order[a] as int]);
    }
    assert forall|a: int, b: int| 0 <= a < b < res@.len() implies comes_first(
        ps,
        sc,
        (#[trigger] order[a]) as int,
        (#[trigger] order[b]) as int,
    ) by {}
    if scores is None {
        assert forall|a: int, b: int| 0 <= a < b < res@.len() implies text::text_before(
            (#[trigger] res@[a]).email@,
            (#[trigger] res@[b]).email@,
        ) by {
            assert(comes_first(ps, sc, order[a] as int, order[b] as int));
            assert(res@[a]@.email == ps[order[a] as int].email);
            assert(res@[b]@.email == ps[order[b] as int].email);
        }
    } else {
        assert forall|a: int, b: int| 0 <= a < b < res@.len() implies scores->0@[(
        #[trigger] order[a]) as int] > scores->0@[(#[trigger] order[b]) as int] || (
        scores->0@[order[a] as int] == scores->0@[order[b] as int] && text::text_before(
            res@[a].email@,
            res@[b].email@,
        )) by {
            assert(comes_first(ps, sc, order[a] as int, order[b] as int));
            assert(res@[a]@.email == ps[order[a] as int].email);
            assert(res@[b]@.email == ps[order[b] as int].email);
        }
    }
}

/// The time that is shown is that since the meeting was first observed, in whole
/// seconds; observations are as many whole seconds old as have passed since.
pub proof fn law_times_since(
    s: &MeetingState,
    q: &QualitySnapshot,
    now: u64,
    secs: u64,
    shown: String,
    elapsed: String,
    seconds: u64,
)
    requires
        call_ensures(MeetingState::elapsed_str, (s, now), elapsed),
        call_ensures(clock::format_elapsed, (secs,), shown),
        call_ensures(QualitySnapshot::age_secs, (q, now), seconds),
    ensures
        now >= s@.started_at && 0 <= now - s@.started_at - secs * 1_000_000_000 < 1_000_000_000
            ==> elapsed@ == shown@,
        now >= q.updated_at ==> 0 <= now - q.updated_at - seconds * 1_000_000_000 < 1_000_000_000,
        now < q.updated_at ==> seconds == 0,
{
    if now >= s@.started_at && 0 <= now - s@.started_at - secs * 1_000_000_000 < 1_000_000_000 {
        assert((now - s@.started_at) / 1_000_000_000 == secs);
    }
}

/// A media packet and a health packet are taken in as packets of their kind are.
pub proof fn law_kinds_of_packets(
    s: &mut MeetingState,
    t: &mut MeetingState,
    u: &mut MeetingState,
    m: MediaPacket,
    h: HealthPacket,
    packet: &Packet,
    now: u64,
    wall: WallTime,
)
    requires
        call_ensures(MeetingState::process_packet, (s, packet, now, wall), ()),
        old(t)@ == old(s)@,
        old(u)@ == old(s)@,
        call_ensures(MeetingState::process_media, (t, &m, now, wall), ()),
        call_ensures(MeetingState::process_health, (u, &h, now), ()),
    ensures
        *packet == Packet::Media(m) ==> final(s)@ == final(t)@,
        *packet == Packet::Health(h) ==> final(s)@ == final(u)@,
{
}

/// A meeting of which nothing is known has its name and its start, and nobody and
/// nothing in it; what is read of a meeting is what is known.
pub proof fn law_fresh_meeting(
    meeting_id: String,
    now: u64,
    email: String,
    fresh: MeetingState,
    newcomer: Participant,
    s: &MeetingState,
    name: &str,
    listed: &Vec<Participant>,
    noted: &Vec<Event>,
)
    requires
        call_ensures(MeetingState::new, (meeting_id, now), fresh),
        call_ensures(Participant::new, (email, now), newcomer),
        call_ensures(MeetingState::meeting_id, (s,), name),
        call_ensures(MeetingState::participants, (s,), listed),
        call_ensures(MeetingState::events, (s,), noted),
    ensures
        fresh@.meeting_id == meeting_id@ && fresh@.started_at == now,
        fresh@.participants.len() == 0 && fresh@.events.len() == 0,
        forall|k: Seq<char>| !#[trigger] fresh@.sessions.dom().contains(k),
        newcomer.email@ == email@ && newcomer.joined_at == now && newcomer.last_heartbeat == now,
        !newcomer.video_enabled && !newcomer.audio_enabled,
        newcomer.rtt_ms is None && newcomer.quality is None,
        name@ == s@.meeting_id,
        listed@.len() == s@.participants.len(),
        forall|i: int|
            0 <= i < listed@.len() ==> (#[trigger] listed@[i])@ == s@.participants[i],
        noted@.len() == s@.events.len(),
        forall|i: int| 0 <= i < noted@.len() ==> (#[trigger] noted@[i])@ == s@.events[i],
{
    assert(people(listed@).len() == listed@.len());
    assert(history(noted@).len() == noted@.len());
    assert forall|i: int| 0 <= i < listed@.len() implies (#[trigger] listed@[i])@
        == s@.participants[i] by {
        assert(people(listed@)[i] == listed@[i]@);
    }
    assert forall|i: int| 0 <= i < noted@.len() implies (#[trigger] noted@[i])@ == s@.events[i] by {
        assert(history(noted@)[i] == noted@[i]@);
    }
    assert(newcomer@.email == newcomer.email@);
}

/// An observation under the number of a session is about the one whose session that is.
pub proof fn law_report_by_session(
    s: &mut MeetingState,
    packet: &Packet,
    h: HealthPacket,
    stats: PeerStats,
    now: u64,
    wall: WallTime,
    i: int,
    snapshot: QualitySnapshot,
)
    requires
        call_ensures(MeetingState::process_packet, (s, packet, now, wall), ()),
        call_ensures(quality_snapshot, (&stats, now), snapshot),
        *packet == Packet::Health(h),
        h.reporting_peer@.len() > 0,
        0 <= i < old(s)@.participants.len(),
        h.peer_stats@.len() == 1,
        h.peer_stats@[0].1 == stats,
        old(s)@.sessions.dom().contains(h.peer_stats@[0].0@),
        old(s)@.sessions[h.peer_stats@[0].0@] == old(s)@.participants[i].email,
        forall|j: int|
            0 <= j < old(s)@.participants.len() ==> (#[trigger] old(s)@.participants[j]).email
                != h.peer_stats@[0].0@,
    ensures
        final(s)@.participants[i].quality == Some(snapshot),
{
    let reported = MeetingView {
        participants: with_changed(
            old(s)@.participants,
            h.reporting_peer@,
            |q: ParticipantView| ParticipantView {
                rtt_ms: Some(h.active_server_rtt_ms),
                last_heartbeat: now,
                ..q
            },
        ),
        ..old(s)@
    };
    let pair = h.peer_stats@[0];
    assert(h.peer_stats@ =~= seq![(pair.0, pair.1)]);
    law_one_observation(reported, pair.0, stats, now, snapshot);
    assert forall|j: int| 0 <= j < reported.participants.len() implies (
    #[trigger] reported.participants[j]).email != pair.0@ by {
        assert(old(s)@.participants[j].email != pair.0@);
    }
    assert(reported.participants[i].email == old(s)@.participants[i].email);
}

} // verus!
