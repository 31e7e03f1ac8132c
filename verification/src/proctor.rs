//! The proctor's screen: what the keys do, and what is shown of a meeting.
//!
//! Thresholds on measurements are the caller's: a [`Grade`] tells how good one
//! is, and a measurement that is shown comes as a whole number or as text.

use vstd::prelude::*;
use vstd::utf8::{encode_utf8, is_char_boundary};
use crate::clock;
use crate::meeting_state;
use crate::meeting_state::{Event, EventView, MeetingState, MeetingView, Packet, WallTime};
use crate::text;

verus! {

// ---------------------------------------------------------------------------
// Keys
// ---------------------------------------------------------------------------

/// A key of the keyboard.
#[derive(Debug, Clone, Copy, PartialEq, Eq, Structural)]
pub enum Key {
    Char(char),
    Esc,
    Down,
    Up,
    Home,
    End,
    Other,
}

/// What the user has chosen to see.
#[derive(Debug, Clone, Copy, PartialEq, Eq, Structural)]
pub struct Selection {
    /// The row that is selected.
    pub selected: Option<usize>,
    pub show_help: bool,
    pub sort_by_quality: bool,
}

/// Whether a key ends the program.
pub open spec fn quits(key: Key, control: bool) -> bool {
    key == Key::Char('q') || (key == Key::Char('c') && control) || key == Key::Esc
}

/// What the user has chosen after a key, with so many rows.
pub open spec fn after_key(s: Selection, key: Key, control: bool, rows: usize) -> Selection {
    if quits(key, control) {
        s
    } else if key == Key::Char('h') || key == Key::Char('?') {
        Selection { show_help: !s.show_help, ..s }
    } else if key == Key::Char('s') || key == Key::Char('S') {
        Selection {
            sort_by_quality: !s.sort_by_quality,
            selected: if rows > 0 {
                Some(0)
            } else {
                s.selected
            },
            ..s
        }
    } else if key == Key::Down || key == Key::Char('j') {
        Selection {
            selected: if rows > 0 {
                match s.selected {
                    Some(i) => if i + 1 < rows {
                        Some((i + 1) as usize)
                    } else {
                        Some((rows - 1) as usize)
                    },
                    None => Some(0),
                }
            } else {
                s.selected
            },
            ..s
        }
    } else if key == Key::Up || key == Key::Char('k') {
        Selection {
            selected: match s.selected {
                Some(i) => if i > 0 {
                    Some((i - 1) as usize)
                } else {
                    Some(0)
                },
                None => Some(0),
            },
            ..s
        }
    } else if key == Key::Home {
        Selection { selected: Some(0), ..s }
    } else if key == Key::End {
        Selection {
            selected: if rows > 0 {
                Some((rows - 1) as usize)
            } else {
                s.selected
            },
            ..s
        }
    } else {
        s
    }
}

/// The selection, when there are only so many rows.
pub open spec fn clamped(selected: Option<usize>, rows: usize) -> Option<usize> {
    match selected {
        Some(i) => if rows == 0 {
            None
        } else if i >= rows {
            Some((rows - 1) as usize)
        } else {
            selected
        },
        None => None,
    }
}

impl Selection {
    pub fn new() -> (res: Selection)
        ensures
            res == (Selection { selected: None, show_help: false, sort_by_quality: false }),
    {
        Selection { selected: None, show_help: false, sort_by_quality: false }
    }

    /// The user pressed a key; there are so many rows. Tells whether the program
    /// is to end.
    pub fn handle_key(&mut self, key: Key, control: bool, rows: usize) -> (quit: bool)
        ensures
            quit == quits(key, control),
            *final(self) == after_key(*old(self), key, control, rows),
    {
        match key {
            Key::Char('q') => {
                return true;
            },
            Key::Char('c') => {
                return control;
            },
            Key::Esc => {
                return true;
            },
            Key::Char('h') | Key::Char('?') => {
                self.show_help = !self.show_help;
            },
            Key::Char('s') | Key::Char('S') => {
                self.sort_by_quality = !self.sort_by_quality;
                if rows > 0 {
                    self.selected = Some(0);
                }
            },
            Key::Down | Key::Char('j') => {
                if rows > 0 {
                    let next: usize = match self.selected {
                        Some(i) => if i < rows - 1 {
                            i + 1
                        } else {
                            rows - 1
                        },
                        None => 0,
                    };
                    self.selected = Some(next);
                }
            },
            Key::Up | Key::Char('k') => {
                let previous: usize = match self.selected {
                    Some(i) => if i > 0 {
                        i - 1
                    } else {
                        0
                    },
                    None => 0,
                };
                self.selected = Some(previous);
            },
            Key::Home => {
                self.selected = Some(0);
            },
            Key::End => {
                if rows > 0 {
                    self.selected = Some(rows - 1);
                }
            },
            _ => {},
        }
        false
    }

    /// Moves the selection to a row that there is.
    pub fn clamp_selection(&mut self, rows: usize)
        ensures
            *final(self) == (Selection { selected: clamped(old(self).selected, rows), ..*old(self) }),
    {
        if let Some(i) = self.selected {
            if rows == 0 {
                self.selected = None;
            } else if i >= rows {
                self.selected = Some(rows - 1);
            }
        }
    }
}

// ---------------------------------------------------------------------------
// The loop
// ---------------------------------------------------------------------------

/// What the proctor's screen reacts to.
#[derive(Debug)]
pub enum ProctorEvent {
    /// A packet from the meeting.
    Packet(Packet),
    /// The connection to the meeting has ended.
    Disconnected,
    Key { key: Key, control: bool },
    /// Input other than keys.
    OtherInput,
    /// There is no more input.
    InputEnded,
    /// It is time to see who is gone.
    StaleTick,
    /// It is time to draw.
    RenderTick,
}

/// What is to be done next.
#[derive(Debug, Clone, Copy, PartialEq, Eq, Structural)]
pub enum Flow {
    Continue,
    Draw,
    Quit,
}

/// What is to be done after an event.
pub open spec fn flow_of(e: ProctorEvent) -> Flow {
    match e {
        ProctorEvent::Disconnected => Flow::Quit,
        ProctorEvent::InputEnded => Flow::Quit,
        ProctorEvent::Key { key, control } => if quits(key, control) {
            Flow::Quit
        } else {
            Flow::Continue
        },
        ProctorEvent::RenderTick => Flow::Draw,
        _ => Flow::Continue,
    }
}

/// The meeting after an event.
pub open spec fn meeting_after(
    s: MeetingView,
    e: ProctorEvent,
    now: u64,
    wall: WallTime,
) -> MeetingView {
    match e {
        ProctorEvent::Packet(p) => meeting_state::after_packet(s, p, now, wall),
        ProctorEvent::StaleTick => meeting_state::after_tick(s, now, wall),
        _ => s,
    }
}

/// What the user has chosen after an event, with so many participants after it.
pub open spec fn selection_after(s: Selection, e: ProctorEvent, rows: usize) -> Selection {
    match e {
        ProctorEvent::Key { key, control } => after_key(s, key, control, rows),
        ProctorEvent::StaleTick => Selection { selected: clamped(s.selected, rows), ..s },
        _ => s,
    }
}

/// The proctor's screen.
#[derive(Debug)]
pub struct Proctor {
    pub state: MeetingState,
    pub selection: Selection,
}

impl Proctor {
    pub fn new(meeting_id: String, now: u64) -> (res: Proctor)
        ensures
            res.state@ == (MeetingView {
                meeting_id: meeting_id@,
                started_at: now,
                participants: Seq::empty(),
                events: Seq::empty(),
                sessions: Map::empty(),
            }),
            res.selection == (Selection {
                selected: None,
                show_help: false,
                sort_by_quality: false,
            }),
    {
        Proctor { state: MeetingState::new(meeting_id, now), selection: Selection::new() }
    }

    /// Reacts to an event. Tells what is to be done next.
    pub fn step(&mut self, event: ProctorEvent, now: u64, wall: WallTime) -> (flow: Flow)
        ensures
            flow == flow_of(event),
            final(self).state@ == meeting_after(old(self).state@, event, now, wall),
            final(self).selection == selection_after(
                old(self).selection,
                event,
                final(self).state@.participants.len() as usize,
            ),
    {
        match event {
            ProctorEvent::Packet(p) => {
                self.state.process_packet(&p, now, wall);
                Flow::Continue
            },
            ProctorEvent::Disconnected => Flow::Quit,
            ProctorEvent::InputEnded => Flow::Quit,
            ProctorEvent::Key { key, control } => {
                let rows: usize = self.state.participants().len();
                if self.selection.handle_key(key, control, rows) {
                    Flow::Quit
                } else {
                    Flow::Continue
                }
            },
            ProctorEvent::OtherInput => Flow::Continue,
            ProctorEvent::StaleTick => {
                self.state.tick(now, wall);
                let rows: usize = self.state.participants().len();
                self.selection.clamp_selection(rows);
                Flow::Continue
            },
            ProctorEvent::RenderTick => Flow::Draw,
        }
    }
}

// ---------------------------------------------------------------------------
// The frame
// ---------------------------------------------------------------------------

/// A rectangle on the screen, in character cells.
#[derive(Debug, Clone, Copy, PartialEq, Eq, Structural)]
pub struct Area {
    pub x: u16,
    pub y: u16,
    pub width: u16,
    pub height: u16,
}

/// The smallest screen on which anything but a notice is shown.
pub const MIN_WIDTH: u16 = 40;

pub const MIN_HEIGHT: u16 = 10;

/// How high the panel with details is.
pub const DETAIL_HEIGHT: u16 = 7;

/// How high the panel with details is in a frame, or that the screen is too
/// small. The panel is shown when a row is selected.
pub fn detail_height(area: Area, selected: Option<usize>) -> (res: Option<u16>)
    ensures
        res == if area.height < MIN_HEIGHT || area.width < MIN_WIDTH {
            None
        } else if selected is Some {
            Some(DETAIL_HEIGHT)
        } else {
            Some(0)
        },
{
    if area.height < MIN_HEIGHT || area.width < MIN_WIDTH {
        None
    } else if selected.is_some() {
        Some(DETAIL_HEIGHT)
    } else {
        Some(0)
    }
}

/// The size of the help screen, where there is room for it.
pub const HELP_WIDTH: u16 = 80;

pub const HELP_HEIGHT: u16 = 30;

pub open spec fn smaller(a: int, b: int) -> int {
    if a < b {
        a
    } else {
        b
    }
}

/// Where the help screen is: in the middle.
pub open spec fn help_place(area: Area) -> Area {
    let width = smaller(area.width as int, HELP_WIDTH as int);
    let height = smaller(area.height as int, HELP_HEIGHT as int);
    Area {
        x: (area.x + (area.width - width) / 2) as u16,
        y: (area.y + (area.height - height) / 2) as u16,
        width: width as u16,
        height: height as u16,
    }
}

/// Where the help screen is: in the middle.
pub fn help_area(area: Area) -> (res: Area)
    requires
        area.x + area.width <= u16::MAX,
        area.y + area.height <= u16::MAX,
    ensures
        res == help_place(area),
{
    let width: u16 = if area.width < HELP_WIDTH {
        area.width
    } else {
        HELP_WIDTH
    };
    let height: u16 = if area.height < HELP_HEIGHT {
        area.height
    } else {
        HELP_HEIGHT
    };
    Area {
        x: area.x + (area.width - width) / 2,
        y: area.y + (area.height - height) / 2,
        width,
        height,
    }
}

// ---------------------------------------------------------------------------
// The header
// ---------------------------------------------------------------------------

/// How many participants there are, in words.
pub open spec fn count_text(n: nat) -> Seq<char> {
    "   "@ + text::decimal(n) + " participant"@ + if n == 1 {
        ""@
    } else {
        "s"@
    } + "  ─ Sort: "@
}

/// How many participants there are, in words.
pub fn participant_count_label(n: usize) -> (res: String)
    ensures
        res@ == count_text(n as nat),
{
    let mut s = "   ".to_owned();
    text::push_decimal(&mut s, n as u64);
    s.append(" participant");
    s.append(if n == 1 {
        ""
    } else {
        "s"
    });
    s.append("  ─ Sort: ");
    s
}

/// How the table is sorted, in words.
pub fn sort_label(by_quality: bool) -> (res: &'static str)
    ensures
        res@ == if by_quality {
            "Quality ↓"@
        } else {
            "Name"@
        },
{
    if by_quality {
        "Quality ↓"
    } else {
        "Name"
    }
}

/// How long the meeting has been observed, in brackets.
pub fn elapsed_label(elapsed: &str) -> (res: String)
    ensures
        res@ == "  ("@ + elapsed@ + ")"@,
{
    text::join3("  (", elapsed, ")")
}

/// The title of the table.
pub fn table_title(n: usize) -> (res: String)
    ensures
        res@ == " Participants ("@ + text::decimal(n as nat) + ") "@,
{
    let mut s = " Participants (".to_owned();
    text::push_decimal(&mut s, n as u64);
    s.append(") ");
    s
}

// ---------------------------------------------------------------------------
// Cells
// ---------------------------------------------------------------------------

/// How good a measurement is.
#[derive(Debug, Clone, Copy, PartialEq, Eq, Structural)]
pub enum Grade {
    Good,
    Fair,
    Poor,
}

/// In which colour something is shown.
#[derive(Debug, Clone, Copy, PartialEq, Eq, Structural)]
pub enum Tone {
    Plain,
    Gray,
    Cyan,
    Green,
    Yellow,
    Red,
}

pub open spec fn grade_tone(g: Grade) -> Tone {
    match g {
        Grade::Good => Tone::Green,
        Grade::Fair => Tone::Yellow,
        Grade::Poor => Tone::Red,
    }
}

fn tone_of(g: Grade) -> (res: Tone)
    ensures
        res == grade_tone(g),
{
    match g {
        Grade::Good => Tone::Green,
        Grade::Fair => Tone::Yellow,
        Grade::Poor => Tone::Red,
    }
}

/// A piece of text in a colour.
#[derive(Debug, PartialEq, Eq)]
pub struct Segment {
    pub text: String,
    pub tone: Tone,
}

pub type SegmentView = (Seq<char>, Tone);

impl View for Segment {
    type V = SegmentView;

    open spec fn view(&self) -> SegmentView {
        (self.text@, self.tone)
    }
}

fn segment(text: &str, tone: Tone) -> (res: Segment)
    ensures
        res@ == (text@, tone),
{
    Segment { text: text.to_owned(), tone }
}

/// What a line of segments says.
pub open spec fn line_view(line: Seq<Segment>) -> Seq<SegmentView> {
    Seq::new(line.len(), |i: int| line[i]@)
}

/// Whether a text can be cut to a number of bytes: it is short enough, or a
/// character ends where it would be cut.
pub open spec fn can_be_cut(s: Seq<char>, max: nat) -> bool {
    encode_utf8(s).len() <= max || (max > 0 && is_char_boundary(encode_utf8(s), max - 1))
}

/// Whether a text is another one, cut to a number of bytes with an ellipsis in
/// place of the last: all of it, where it is short enough.
pub open spec fn is_cut(res: Seq<char>, s: Seq<char>, max: nat) -> bool {
    if encode_utf8(s).len() <= max {
        res == s
    } else {
        exists|start: Seq<char>|
            encode_utf8(start) == encode_utf8(s).subrange(0, max - 1) && res == #[trigger] (start
                + "…"@)
    }
}

/// Whether [`truncate`] can cut a text.
pub fn is_truncatable(s: &str, max: usize) -> (res: bool)
    ensures
        res == can_be_cut(s@, max as nat),
{
    s.as_bytes().len() <= max || (max > 0 && s.is_char_boundary(max - 1))
}

/// A text, cut to a number of bytes with an ellipsis in place of the last, if it
/// is longer.
pub fn truncate(s: &str, max: usize) -> (res: String)
    requires
        can_be_cut(s@, max as nat),
    ensures
        is_cut(res@, s@, max as nat),
{
    if s.as_bytes().len() <= max {
        s.to_owned()
    } else {
        let (start, _rest) = s.split_at(max - 1);
        let res = text::join(start, "…");
        assert(res@ == start@ + "…"@);
        res
    }
}

// ---------------------------------------------------------------------------
// A row
// ---------------------------------------------------------------------------

/// A measurement in milliseconds, cut to a whole number, and how good it is.
#[derive(Debug, Clone, Copy, PartialEq, Eq, Structural)]
pub struct Millis {
    pub value: u32,
    pub grade: Grade,
}

/// What a row shows of what was observed of a participant.
#[derive(Debug, PartialEq, Eq)]
pub struct RowQuality {
    pub jitter: Millis,
    /// The rate of concealment, with one decimal.
    pub conceal: String,
    pub conceal_grade: Grade,
    pub fps: u32,
    pub bitrate_kbps: u64,
}

/// A score, as a row shows it.
#[derive(Debug, Clone, Copy, PartialEq, Eq, Structural)]
pub struct RowScore {
    /// How many of ten parts of the bar are full.
    pub filled: usize,
    pub bar_grade: Grade,
    pub name_grade: Grade,
}

/// What a row shows of a participant.
#[derive(Debug, PartialEq, Eq)]
pub struct RowInput {
    pub email: String,
    pub video_enabled: bool,
    pub audio_enabled: bool,
    pub stale: bool,
    pub rtt: Option<Millis>,
    pub quality: Option<RowQuality>,
    pub score: Option<RowScore>,
}

/// A row of the table.
#[derive(Debug, PartialEq, Eq)]
pub struct ParticipantRow {
    pub name: Segment,
    /// Whether the name is dimmed.
    pub dimmed: bool,
    pub video: Segment,
    pub mic: Segment,
    pub rtt: Segment,
    pub jitter: Segment,
    pub conceal: Segment,
    pub fps: Segment,
    pub kbps: Segment,
    pub bar: Segment,
}

/// The most bytes of a name that a row shows.
pub const NAME_WIDTH: usize = 20;

/// A number of milliseconds in a column.
pub open spec fn millis_cell(value: u32) -> Seq<char> {
    text::pad_left(text::decimal(value as nat), 5) + "ms"@
}

fn millis_text(value: u32) -> (res: String)
    ensures
        res@ == millis_cell(value),
{
    let n = text::decimal_string(value as u64);
    let p = text::padded_left(n.as_str(), 5);
    text::join(p.as_str(), "ms")
}

/// A character, repeated.
pub open spec fn repeated(c: char, n: nat) -> Seq<char> {
    Seq::new(n, |i: int| c)
}

fn push_repeated(s: &mut String, c: char, n: usize)
    ensures
        final(s)@ == old(s)@ + repeated(c, n as nat),
{
    let mut i: usize = 0;
    assert(s@ =~= old(s)@ + repeated(c, 0));
    while i < n
        invariant
            i <= n,
            s@ == old(s)@ + repeated(c, i as nat),
        decreases n - i,
    {
        s.push(c);
        assert(s@ =~= old(s)@ + repeated(c, (i + 1) as nat));
        i = i + 1;
    }
}

/// The bar that shows a score: ten parts, the full ones first.
pub open spec fn bar_view(score: Option<RowScore>) -> SegmentView {
    match score {
        None => ("▒▒▒▒▒▒▒▒▒▒"@, Tone::Gray),
        Some(s) => {
            let filled = smaller(s.filled as int, 10) as nat;
            (
                repeated('█', filled) + repeated('░', (10 - filled) as nat),
                grade_tone(s.bar_grade),
            )
        },
    }
}

/// The bar that shows a score: ten parts, the full ones first.
pub fn quality_bar(score: Option<RowScore>) -> (res: Segment)
    ensures
        res@ == bar_view(score),
{
    match score {
        None => segment("▒▒▒▒▒▒▒▒▒▒", Tone::Gray),
        Some(s) => {
            let filled: usize = if s.filled < 10 {
                s.filled
            } else {
                10
            };
            let mut bar = String::new();
            push_repeated(&mut bar, '█', filled);
            push_repeated(&mut bar, '░', 10 - filled);
            assert(bar@ =~= bar_view(score).0);
            Segment { text: bar, tone: tone_of(s.bar_grade) }
        },
    }
}

/// The colour of a name.
pub open spec fn name_tone(stale: bool, score: Option<RowScore>) -> Tone {
    if stale {
        Tone::Gray
    } else {
        match score {
            Some(s) => grade_tone(s.name_grade),
            None => Tone::Gray,
        }
    }
}

/// Whether a row shows a participant.
pub open spec fn row_shows(row: ParticipantRow, p: RowInput) -> bool {
    let video_tone = if p.video_enabled {
        Tone::Plain
    } else {
        Tone::Gray
    };
    &&& is_cut(row.name.text@, p.email@, NAME_WIDTH as nat)
    &&& row.name.tone == name_tone(p.stale, p.score)
    &&& row.dimmed == p.stale
    &&& row.video@ == if p.video_enabled {
        ("[V]"@, Tone::Cyan)
    } else {
        ("[ ]"@, Tone::Gray)
    }
    &&& row.mic@ == if p.audio_enabled {
        ("[M]"@, Tone::Green)
    } else {
        ("[ ]"@, Tone::Gray)
    }
    &&& row.rtt@ == match p.rtt {
        Some(m) => (millis_cell(m.value), grade_tone(m.grade)),
        None => ("    --  "@, Tone::Gray),
    }
    &&& row.jitter@ == match p.quality {
        Some(q) => (millis_cell(q.jitter.value), grade_tone(q.jitter.grade)),
        None => ("   --  "@, Tone::Gray),
    }
    &&& row.conceal@ == match p.quality {
        Some(q) => (text::pad_left(q.conceal@, 5) + "/s"@, grade_tone(q.conceal_grade)),
        None => ("    -- "@, Tone::Gray),
    }
    &&& row.fps@ == (
        match p.quality {
            Some(q) => if p.video_enabled {
                text::pad_left(text::decimal(q.fps as nat), 3)
            } else {
                "  --"@
            },
            None => "  --"@,
        },
        video_tone,
    )
    &&& row.kbps@ == (
        match p.quality {
            Some(q) => if p.video_enabled {
                text::pad_left(text::decimal(q.bitrate_kbps as nat), 5)
            } else {
                "   --"@
            },
            None => "   --"@,
        },
        video_tone,
    )
    &&& row.bar@ == bar_view(p.score)
}

/// The row of a participant.
pub fn participant_row(p: &RowInput) -> (row: ParticipantRow)
    requires
        can_be_cut(p.email@, NAME_WIDTH as nat),
    ensures
        row_shows(row, *p),
{
    let name_color = if p.stale {
        Tone::Gray
    } else {
        match p.score {
            Some(s) => tone_of(s.name_grade),
            None => Tone::Gray,
        }
    };
    let name = Segment { text: truncate(p.email.as_str(), NAME_WIDTH), tone: name_color };
    let video = if p.video_enabled {
        segment("[V]", Tone::Cyan)
    } else {
        segment("[ ]", Tone::Gray)
    };
    let mic = if p.audio_enabled {
        segment("[M]", Tone::Green)
    } else {
        segment("[ ]", Tone::Gray)
    };
    let rtt = match p.rtt {
        Some(m) => Segment { text: millis_text(m.value), tone: tone_of(m.grade) },
        None => segment("    --  ", Tone::Gray),
    };
    let video_tone = if p.video_enabled {
        Tone::Plain
    } else {
        Tone::Gray
    };
    let bar = quality_bar(p.score);
    match &p.quality {
        Some(q) => {
            let jitter = Segment {
                text: millis_text(q.jitter.value),
                tone: tone_of(q.jitter.grade),
            };
            let rate = text::padded_left(q.conceal.as_str(), 5);
            let conceal = Segment {
                text: text::join(rate.as_str(), "/s"),
                tone: tone_of(q.conceal_grade),
            };
            let (fps, kbps) = if p.video_enabled {
                let f = text::decimal_string(q.fps as u64);
                let k = text::decimal_string(q.bitrate_kbps);
                (text::padded_left(f.as_str(), 3), text::padded_left(k.as_str(), 5))
            } else {
                ("  --".to_owned(), "   --".to_owned())
            };
            ParticipantRow {
                name,
                dimmed: p.stale,
                video,
                mic,
                rtt,
                jitter,
                conceal,
                fps: Segment { text: fps, tone: video_tone },
                kbps: Segment { text: kbps, tone: video_tone },
                bar,
            }
        },
        None => ParticipantRow {
            name,
            dimmed: p.stale,
            video,
            mic,
            rtt,
            jitter: segment("   --  ", Tone::Gray),
            conceal: segment("    -- ", Tone::Gray),
            fps: segment("  --", video_tone),
            kbps: segment("   --", video_tone),
            bar,
        },
    }
}

// ---------------------------------------------------------------------------
// The details
// ---------------------------------------------------------------------------

/// What the panel with details shows of what was observed of a participant.
#[derive(Debug, PartialEq, Eq)]
pub struct DetailQuality {
    pub jitter: Millis,
    pub high_jitter: bool,
    /// The rate of concealment, with one decimal.
    pub conceal: String,
    pub conceal_grade: Grade,
    pub high_conceal: bool,
    pub fps: u32,
    /// Whether no frames at all come in.
    pub no_frames: bool,
    pub bitrate_kbps: u64,
    pub can_see: bool,
    pub can_listen: bool,
    /// How old the observations are, in seconds.
    pub age_secs: u64,
}

/// What the panel with details shows of a participant.
#[derive(Debug, PartialEq, Eq)]
pub struct DetailInput {
    pub email: String,
    pub video_enabled: bool,
    pub audio_enabled: bool,
    pub rtt: Option<Millis>,
    pub high_rtt: bool,
    pub quality: Option<DetailQuality>,
}

/// A number of milliseconds.
pub open spec fn millis_plain(value: u32) -> Seq<char> {
    text::decimal(value as nat) + "ms"@
}

fn millis_plain_text(value: u32) -> (res: String)
    ensures
        res@ == millis_plain(value),
{
    let n = text::decimal_string(value as u64);
    text::join(n.as_str(), "ms")
}

/// What is wrong with a connection, point by point.
pub open spec fn issues_of(q: DetailQuality, rtt: Option<Millis>, high_rtt: bool) -> Seq<Seq<char>> {
    let a = if q.high_conceal {
        seq!["high audio concealment ("@ + q.conceal@ + "/s)"@]
    } else {
        Seq::empty()
    };
    let b = if q.high_jitter {
        seq!["high jitter ("@ + millis_plain(q.jitter.value) + ")"@]
    } else {
        Seq::empty()
    };
    let c = match rtt {
        Some(m) => if high_rtt {
            seq!["high RTT ("@ + millis_plain(m.value) + ")"@]
        } else {
            Seq::empty()
        },
        None => Seq::empty(),
    };
    let d = if !q.can_see && q.no_frames {
        seq!["video not rendering"@]
    } else {
        Seq::empty()
    };
    a + b + c + d
}

/// Some texts with commas between them.
pub open spec fn listed(items: Seq<Seq<char>>) -> Seq<char>
    decreases items.len(),
{
    if items.len() == 0 {
        Seq::empty()
    } else if items.len() == 1 {
        items[0]
    } else {
        listed(items.drop_last()) + ", "@ + items.last()
    }
}

/// Adds a text to a list that is being written; `first` tells whether it is the
/// first.
fn add_issue(s: &mut String, first: bool, item: &str)
    ensures
        final(s)@ == if first {
            old(s)@ + item@
        } else {
            old(s)@ + ", "@ + item@
        },
{
    if !first {
        s.append(", ");
    }
    s.append(item);
}

proof fn lemma_listed_push(items: Seq<Seq<char>>, item: Seq<char>)
    ensures
        listed(items.push(item)) == if items.len() == 0 {
            item
        } else {
            listed(items) + ", "@ + item
        },
{
    assert(items.push(item).drop_last() =~= items);
}

/// What is wrong with a connection, in words; nothing, where nothing is.
pub fn interpret_quality(q: &DetailQuality, rtt: Option<Millis>, high_rtt: bool) -> (res: String)
    ensures
        res@ == listed(issues_of(*q, rtt, high_rtt)),
{
    let mut out = String::new();
    let mut first = true;
    let ghost mut items: Seq<Seq<char>> = Seq::empty();
    if q.high_conceal {
        let item = text::join3("high audio concealment (", q.conceal.as_str(), "/s)");
        add_issue(&mut out, first, item.as_str());
        proof {
            lemma_listed_push(items, item@);
            items = items.push(item@);
        }
        first = false;
        assert(out@ =~= listed(items));
    }
    if q.high_jitter {
        let ms = millis_plain_text(q.jitter.value);
        let item = text::join3("high jitter (", ms.as_str(), ")");
        add_issue(&mut out, first, item.as_str());
        proof {
            lemma_listed_push(items, item@);
            items = items.push(item@);
        }
        first = false;
        assert(out@ =~= listed(items));
    }
    if let Some(m) = rtt {
        if high_rtt {
            let ms = millis_plain_text(m.value);
            let item = text::join3("high RTT (", ms.as_str(), ")");
            add_issue(&mut out, first, item.as_str());
            proof {
                lemma_listed_push(items, item@);
                items = items.push(item@);
            }
            first = false;
            assert(out@ =~= listed(items));
        }
    }
    if !q.can_see && q.no_frames {
        add_issue(&mut out, first, "video not rendering");
        proof {
            lemma_listed_push(items, "video not rendering"@);
            items = items.push("video not rendering"@);
        }
        assert(out@ =~= listed(items));
    }
    assert(items =~= issues_of(*q, rtt, high_rtt));
    out
}

/// The sign for yes or no.
pub open spec fn flag_view(on: bool) -> SegmentView {
    if on {
        ("✓"@, Tone::Green)
    } else {
        ("✗"@, Tone::Gray)
    }
}

/// The sign for yes or no.
pub fn flag(on: bool) -> (res: Segment)
    ensures
        res@ == flag_view(on),
{
    if on {
        segment("✓", Tone::Green)
    } else {
        segment("✗", Tone::Gray)
    }
}

/// How old observations are, where that is worth a remark.
pub open spec fn age_note(secs: u64) -> Seq<char> {
    if secs > 5 {
        "   (data "@ + text::decimal(secs as nat) + "s old)"@
    } else {
        "   "@
    }
}

fn age_note_text(secs: u64) -> (res: String)
    ensures
        res@ == age_note(secs),
{
    if secs > 5 {
        let n = text::decimal_string(secs);
        text::join3("   (data ", n.as_str(), "s old)")
    } else {
        "   ".to_owned()
    }
}

/// The line on what a participant has turned on, and on the way to the server.
pub open spec fn overview_view(p: DetailInput) -> Seq<SegmentView> {
    seq![
        ("Video: "@, Tone::Gray),
        flag_view(p.video_enabled),
        ("   "@, Tone::Plain),
        ("Audio: "@, Tone::Gray),
        flag_view(p.audio_enabled),
        ("   "@, Tone::Plain),
        ("RTT: "@, Tone::Gray),
        match p.rtt {
            Some(m) => (millis_plain(m.value), grade_tone(m.grade)),
            None => ("--"@, Tone::Gray),
        },
    ]
}

fn overview_line(p: &DetailInput) -> (line: Vec<Segment>)
    ensures
        line_view(line@) == overview_view(*p),
{
    let mut line: Vec<Segment> = Vec::new();
    line.push(segment("Video: ", Tone::Gray));
    line.push(flag(p.video_enabled));
    line.push(segment("   ", Tone::Plain));
    line.push(segment("Audio: ", Tone::Gray));
    line.push(flag(p.audio_enabled));
    line.push(segment("   ", Tone::Plain));
    line.push(segment("RTT: ", Tone::Gray));
    line.push(
        match p.rtt {
            Some(m) => Segment { text: millis_plain_text(m.value), tone: tone_of(m.grade) },
            None => segment("--", Tone::Gray),
        },
    );
    assert(line_view(line@) =~= overview_view(*p));
    line
}

/// The line with the measurements.
pub open spec fn measures_view(q: DetailQuality) -> Seq<SegmentView> {
    seq![
        ("Jitter: "@, Tone::Gray),
        (millis_plain(q.jitter.value), grade_tone(q.jitter.grade)),
        ("   "@, Tone::Plain),
        ("Conceal: "@, Tone::Gray),
        (q.conceal@ + "/s"@, grade_tone(q.conceal_grade)),
        ("   "@, Tone::Plain),
        ("FPS: "@, Tone::Gray),
        (text::decimal(q.fps as nat), Tone::Plain),
        ("   "@, Tone::Plain),
        ("Bitrate: "@, Tone::Gray),
        (text::decimal(q.bitrate_kbps as nat) + " kbps"@, Tone::Plain),
    ]
}

fn measures_line(q: &DetailQuality) -> (line: Vec<Segment>)
    ensures
        line_view(line@) == measures_view(*q),
{
    let mut line: Vec<Segment> = Vec::new();
    line.push(segment("Jitter: ", Tone::Gray));
    line.push(
        Segment { text: millis_plain_text(q.jitter.value), tone: tone_of(q.jitter.grade) },
    );
    line.push(segment("   ", Tone::Plain));
    line.push(segment("Conceal: ", Tone::Gray));
    line.push(
        Segment { text: text::join(q.conceal.as_str(), "/s"), tone: tone_of(q.conceal_grade) },
    );
    line.push(segment("   ", Tone::Plain));
    line.push(segment("FPS: ", Tone::Gray));
    line.push(Segment { text: text::decimal_string(q.fps as u64), tone: Tone::Plain });
    line.push(segment("   ", Tone::Plain));
    line.push(segment("Bitrate: ", Tone::Gray));
    let rate = text::decimal_string(q.bitrate_kbps);
    line.push(Segment { text: text::join(rate.as_str(), " kbps"), tone: Tone::Plain });
    assert(line_view(line@) =~= measures_view(*q));
    line
}

/// The line on what gets through.
pub open spec fn reception_view(q: DetailQuality) -> Seq<SegmentView> {
    seq![
        ("Can see: "@, Tone::Gray),
        flag_view(q.can_see),
        ("   "@, Tone::Plain),
        ("Can hear: "@, Tone::Gray),
        flag_view(q.can_listen),
        (age_note(q.age_secs), Tone::Plain),
    ]
}

fn reception_line(q: &DetailQuality) -> (line: Vec<Segment>)
    ensures
        line_view(line@) == reception_view(*q),
{
    let mut line: Vec<Segment> = Vec::new();
    line.push(segment("Can see: ", Tone::Gray));
    line.push(flag(q.can_see));
    line.push(segment("   ", Tone::Plain));
    line.push(segment("Can hear: ", Tone::Gray));
    line.push(flag(q.can_listen));
    line.push(Segment { text: age_note_text(q.age_secs), tone: Tone::Plain });
    assert(line_view(line@) =~= reception_view(*q));
    line
}

/// What some lines say.
pub open spec fn lines_view(lines: Seq<Vec<Segment>>) -> Seq<Seq<SegmentView>> {
    Seq::new(lines.len(), |i: int| line_view(lines[i]@))
}

/// The lines of the panel with details. What is wrong stands in a line of its
/// own, if anything is.
pub open spec fn detail_view(p: DetailInput) -> Seq<Seq<SegmentView>> {
    match p.quality {
        None => seq![
            overview_view(p),
            seq![
                (
                    "  No quality data received yet (waiting for HEALTH packets)"@,
                    Tone::Gray,
                ),
            ],
        ],
        Some(q) => {
            let shown = seq![overview_view(p), measures_view(q), reception_view(q)];
            let issues = listed(issues_of(q, p.rtt, p.high_rtt));
            if issues.len() == 0 {
                shown
            } else {
                shown.push(seq![("  ⚠ "@, Tone::Yellow), (issues, Tone::Yellow)])
            }
        },
    }
}

/// The panel with details.
#[derive(Debug, PartialEq, Eq)]
pub struct DetailPanel {
    pub title: String,
    pub lines: Vec<Vec<Segment>>,
}

/// The panel with the details of a participant.
pub fn render_detail(p: &DetailInput) -> (panel: DetailPanel)
    ensures
        panel.title@ == " Detail: "@ + p.email@ + " "@,
        lines_view(panel.lines@) == detail_view(*p),
{
    let title = text::join3(" Detail: ", p.email.as_str(), " ");
    let mut lines: Vec<Vec<Segment>> = Vec::new();
    lines.push(overview_line(p));
    match &p.quality {
        None => {
            let mut line: Vec<Segment> = Vec::new();
            line.push(
                segment(
                    "  No quality data received yet (waiting for HEALTH packets)",
                    Tone::Gray,
                ),
            );
            assert(line_view(line@) =~= detail_view(*p)[1]);
            lines.push(line);
        },
        Some(q) => {
            lines.push(measures_line(q));
            lines.push(reception_line(q));
            let issues = interpret_quality(q, p.rtt, p.high_rtt);
            if !issues.as_str().is_empty() {
                let mut line: Vec<Segment> = Vec::new();
                line.push(segment("  ⚠ ", Tone::Yellow));
                line.push(Segment { text: issues, tone: Tone::Yellow });
                assert(line_view(line@) =~= seq![("  ⚠ "@, Tone::Yellow), (issues@, Tone::Yellow)]);
                lines.push(line);
            }
        },
    }
    assert(lines_view(lines@) =~= detail_view(*p));
    DetailPanel { title, lines }
}

// ---------------------------------------------------------------------------
// The events
// ---------------------------------------------------------------------------

/// An event, as a line of the panel with events.
#[derive(Debug, PartialEq, Eq)]
pub struct EventLine {
    pub time: String,
    pub msg: String,
}

pub open spec fn event_line_view(e: EventView, use_utc: bool) -> (Seq<char>, Seq<char>) {
    (
        if use_utc {
            clock::utc_time(e.when.instant)
        } else {
            clock::local_time(e.when.instant, e.when.offset)
        },
        e.msg,
    )
}

/// The newest events, as many as there is room for, oldest first.
pub open spec fn newest(events: Seq<EventView>, room: nat) -> Seq<EventView> {
    if events.len() > room {
        events.skip(events.len() - room)
    } else {
        events
    }
}

/// The newest events, as many as there is room for, oldest first.
pub fn event_lines(events: &Vec<Event>, room: usize, use_utc: bool) -> (res: Vec<EventLine>)
    ensures
        ({
            let shown = newest(meeting_state::history(events@), room as nat);
            res@.len() == shown.len() && forall|i: int|
                0 <= i < shown.len() ==> (
                    (#[trigger] res@[i]).time@,
                    res@[i].msg@,
                ) == event_line_view(shown[i], use_utc)
        }),
{
    let skip: usize = if events.len() > room {
        events.len() - room
    } else {
        0
    };
    let mut lines: Vec<EventLine> = Vec::new();
    let mut i: usize = skip;
    while i < events.len()
        invariant
            skip <= i <= events@.len(),
            lines@.len() == i - skip,
            forall|k: int|
                0 <= k < i - skip ==> ((#[trigger] lines@[k]).time@, lines@[k].msg@)
                    == event_line_view(events@[skip + k]@, use_utc),
        decreases events@.len() - i,
    {
        let when = events[i].when;
        lines.push(
            EventLine {
                time: clock::event_time(when.instant, when.offset, use_utc),
                msg: events[i].msg.clone(),
            },
        );
        i = i + 1;
    }
    lines
}

// ---------------------------------------------------------------------------
// Laws
// ---------------------------------------------------------------------------

/// After a look at who is gone, the selection is a row of the table or there is
/// none.
pub proof fn law_selection_stays_in_the_table(selected: Option<usize>, rows: usize)
    ensures
        clamped(selected, rows) matches Some(i) ==> i < rows,
{
}

/// Moving down and up never leaves a table that has rows, once the selection is in
/// it; and it goes by one row at a time.
pub proof fn law_moves_stay_in_the_table(s: Selection, rows: usize)
    requires
        s.selected matches Some(i) ==> i < rows,
        rows > 0,
    ensures
        after_key(s, Key::Down, false, rows).selected matches Some(i) && i < rows,
        after_key(s, Key::Up, false, rows).selected matches Some(i) && i < rows,
        s.selected matches Some(i) && i + 1 < rows ==> after_key(
            after_key(s, Key::Down, false, rows),
            Key::Up,
            false,
            rows,
        ) == s,
{
}

/// The help key and the sort key undo themselves.
pub proof fn law_toggles_undo_themselves(s: Selection, rows: usize)
    ensures
        after_key(after_key(s, Key::Char('h'), false, rows), Key::Char('h'), false, rows) == s,
        after_key(
            after_key(s, Key::Char('s'), false, rows),
            Key::Char('s'),
            false,
            rows,
        ).sort_by_quality == s.sort_by_quality,
{
}

/// The help screen lies within the screen.
pub proof fn law_help_fits(area: Area)
    requires
        area.x + area.width <= u16::MAX,
        area.y + area.height <= u16::MAX,
    ensures
        ({
            let h = help_place(area);
            area.x <= h.x && h.x + h.width <= area.x + area.width && area.y <= h.y && h.y + h.height
                <= area.y + area.height
        }),
{
}

/// A bar always has ten parts.
pub proof fn law_bar_has_ten_parts(score: RowScore)
    ensures
        bar_view(Some(score)).0.len() == 10,
{
}

/// The program ends with `q`, with Escape, and with `c` and the control key, and with
/// no other key.
pub proof fn law_keys_that_quit(
    s: &mut Selection,
    key: Key,
    control: bool,
    rows: usize,
    quit: bool,
)
    requires
        call_ensures(Selection::handle_key, (s, key, control, rows), quit),
    ensures
        quit <==> key == Key::Char('q') || key == Key::Esc || (key == Key::Char('c') && control),
        quit ==> *final(s) == *old(s),
        key == Key::Char('c') || key == Key::Other ==> *final(s) == *old(s),
{
}

/// The keys for help and for sorting each turn one thing round and leave the other;
/// sorting goes back to the first row, if there is one.
pub proof fn law_keys_that_turn(
    s: &mut Selection,
    key: Key,
    control: bool,
    rows: usize,
    quit: bool,
)
    requires
        call_ensures(Selection::handle_key, (s, key, control, rows), quit),
    ensures
        key == Key::Char('h') || key == Key::Char('?') ==> final(s).show_help != old(s).show_help
            && final(s).sort_by_quality == old(s).sort_by_quality && final(s).selected
            == old(s).selected,
        key == Key::Char('s') || key == Key::Char('S') ==> final(s).sort_by_quality
            != old(s).sort_by_quality && final(s).show_help == old(s).show_help && (rows > 0
            ==> final(s).selected == Some(0usize)) && (rows == 0 ==> final(s).selected
            == old(s).selected),
        !(key is Char) ==> final(s).show_help == old(s).show_help && final(s).sort_by_quality
            == old(s).sort_by_quality,
{
}

/// The keys that move do so by one row, and not beyond the first and the last; the
/// first of them selects the first row. Two keys lead to the ends.
pub proof fn law_keys_that_move(
    s: &mut Selection,
    key: Key,
    control: bool,
    rows: usize,
    quit: bool,
    i: usize,
)
    requires
        call_ensures(Selection::handle_key, (s, key, control, rows), quit),
        i < rows,
    ensures
        key == Key::Down || key == Key::Char('j') ==> {
            &&& old(s).selected == Some(i) && i + 1 < rows ==> final(s).selected == Some(
                (i + 1) as usize,
            )
            &&& old(s).selected == Some(i) && i + 1 == rows ==> final(s).selected == Some(i)
            &&& old(s).selected is None ==> final(s).selected == Some(0usize)
            &&& final(s).show_help == old(s).show_help
            &&& final(s).sort_by_quality == old(s).sort_by_quality
        },
        key == Key::Up || key == Key::Char('k') ==> {
            &&& old(s).selected == Some(i) && i > 0 ==> final(s).selected == Some((i - 1) as usize)
            &&& old(s).selected == Some(0usize) ==> final(s).selected == Some(0usize)
            &&& old(s).selected is None ==> final(s).selected == Some(0usize)
            &&& final(s).show_help == old(s).show_help
            &&& final(s).sort_by_quality == old(s).sort_by_quality
        },
        key == Key::Home ==> final(s).selected == Some(0usize),
        key == Key::End ==> final(s).selected == Some((rows - 1) as usize),
{
}

/// From a row that is no longer there the keys go on all the same: down to the last row,
/// up by one. Where there are no rows, those that go down leave the selection, and those
/// that go up lead to the first.
pub proof fn law_keys_beyond_the_table(
    s: &mut Selection,
    key: Key,
    control: bool,
    rows: usize,
    quit: bool,
    i: usize,
)
    requires
        call_ensures(Selection::handle_key, (s, key, control, rows), quit),
        old(s).selected == Some(i),
        i >= rows,
    ensures
        key == Key::Down || key == Key::Char('j') ==> final(s).selected == if rows > 0 {
            Some((rows - 1) as usize)
        } else {
            Some(i)
        },
        key == Key::Up || key == Key::Char('k') ==> final(s).selected == if i > 0 {
            Some((i - 1) as usize)
        } else {
            Some(0usize)
        },
        key == Key::Home ==> final(s).selected == Some(0usize),
        key == Key::End ==> final(s).selected == if rows > 0 {
            Some((rows - 1) as usize)
        } else {
            Some(i)
        },
{
}

/// A selection that is in the table stays; one beyond its end goes to the last row,
/// and to none when there are no rows. Nothing else changes.
pub proof fn law_selection_follows_the_table(s: &mut Selection, rows: usize)
    requires
        call_ensures(Selection::clamp_selection, (s, rows), ()),
    ensures
        final(s).show_help == old(s).show_help,
        final(s).sort_by_quality == old(s).sort_by_quality,
        old(s).selected is None ==> final(s).selected is None,
        old(s).selected matches Some(i) ==> {
            &&& i < rows ==> final(s).selected == Some(i)
            &&& i >= rows && rows > 0 ==> final(s).selected == Some((rows - 1) as usize)
            &&& rows == 0 ==> final(s).selected is None
        },
{
}

/// What is to be done after an event: the program ends with the connection, with the
/// input and with the keys for it; a picture is drawn when it is time.
pub proof fn law_flow(
    p: &mut Proctor,
    event: ProctorEvent,
    now: u64,
    wall: WallTime,
    s: &mut Selection,
    rows: usize,
    quit: bool,
    flow: Flow,
)
    requires
        call_ensures(Proctor::step, (p, event, now, wall), flow),
        event matches ProctorEvent::Key { key, control } ==> call_ensures(
            Selection::handle_key,
            (s, key, control, rows),
            quit,
        ),
    ensures
        event is Disconnected || event is InputEnded ==> flow is Quit,
        event is Packet || event is StaleTick || event is OtherInput ==> flow is Continue,
        flow is Draw <==> event is RenderTick,
        event is Key ==> (flow is Quit <==> quit),
{
}

/// A packet is taken in as the meeting takes it in, and the selection stays. Keys and
/// drawing change nothing of the meeting.
pub proof fn law_packets_reach_the_meeting(
    p: &mut Proctor,
    event: ProctorEvent,
    packet: &Packet,
    m: &mut MeetingState,
    now: u64,
    wall: WallTime,
    flow: Flow,
)
    requires
        call_ensures(Proctor::step, (p, event, now, wall), flow),
        event == ProctorEvent::Packet(*packet) ==> old(m)@ == old(p).state@ && call_ensures(
            MeetingState::process_packet,
            (m, packet, now, wall),
            (),
        ),
    ensures
        event == ProctorEvent::Packet(*packet) ==> final(p).state@ == final(m)@
            && final(p).selection == old(p).selection,
        event is Key || event is RenderTick || event is OtherInput || event is Disconnected
            || event is InputEnded ==> final(p).state@ == old(p).state@,
        event is RenderTick || event is OtherInput || event is Disconnected || event is InputEnded
            ==> final(p).selection == old(p).selection,
{
}

/// When it is time to see who is gone, the meeting does so, and the selection follows
/// the rows that are left; a key works on the rows that there are.
pub proof fn law_ticks_and_keys(
    p: &mut Proctor,
    event: ProctorEvent,
    m: &mut MeetingState,
    s: &mut Selection,
    now: u64,
    wall: WallTime,
    quit: bool,
    flow: Flow,
)
    requires
        call_ensures(Proctor::step, (p, event, now, wall), flow),
        old(m)@ == old(p).state@,
        *old(s) == old(p).selection,
        call_ensures(MeetingState::tick, (m, now, wall), ()),
        event is StaleTick ==> call_ensures(
            Selection::clamp_selection,
            (s, final(m)@.participants.len() as usize),
            (),
        ),
        event matches ProctorEvent::Key { key, control } ==> call_ensures(
            Selection::handle_key,
            (s, key, control, old(p).state@.participants.len() as usize),
            quit,
        ),
    ensures
        event is StaleTick ==> final(p).state@ == final(m)@,
        event is StaleTick || event is Key ==> final(p).selection == *final(s),
{
}

/// The screen needs forty columns and ten lines; the details take seven lines, while
/// a row is selected.
pub proof fn law_room_for_details(area: Area, selected: Option<usize>, res: Option<u16>)
    requires
        call_ensures(detail_height, (area, selected), res),
    ensures
        res is None <==> area.width < 40 || area.height < 10,
        res is Some && selected is Some ==> res == Some(7u16),
        res is Some && selected is None ==> res == Some(0u16),
{
}

/// The help is eighty columns by thirty lines, or as large as the screen where that
/// is smaller, with as much room before it as behind it, up to one cell.
pub proof fn law_help_is_in_the_middle(area: Area, res: Area)
    requires
        area.x + area.width <= u16::MAX,
        area.y + area.height <= u16::MAX,
        call_ensures(help_area, (area,), res),
    ensures
        area.width >= 80 ==> res.width == 80,
        area.width < 80 ==> res.width == area.width,
        area.height >= 30 ==> res.height == 30,
        area.height < 30 ==> res.height == area.height,
        ({
            let left = res.x - area.x;
            let right = area.width - res.width - left;
            let above = res.y - area.y;
            let below = area.height - res.height - above;
            &&& 0 <= left <= right <= left + 1
            &&& 0 <= above <= below <= above + 1
        }),
{
}

/// The labels: how many there are, with one participant in the singular; how they are
/// sorted; and for how long.
pub proof fn law_labels(
    n: usize,
    by_quality: bool,
    elapsed: &str,
    number: String,
    count: String,
    title: String,
    sort: &'static str,
    time: String,
)
    requires
        call_ensures(text::decimal_string, (n as u64,), number),
        call_ensures(participant_count_label, (n,), count),
        call_ensures(table_title, (n,), title),
        call_ensures(sort_label, (by_quality,), sort),
        call_ensures(elapsed_label, (elapsed,), time),
    ensures
        n != 1 ==> count@ == "   "@ + number@ + " participants  ─ Sort: "@,
        n == 1 ==> count@ == "   "@ + number@ + " participant  ─ Sort: "@,
        title@ == " Participants ("@ + number@ + ") "@,
        sort@ == if by_quality {
            "Quality ↓"@
        } else {
            "Name"@
        },
        time@ == "  ("@ + elapsed@ + ")"@,
{
    reveal_strlit("s");
    reveal_strlit("");
    reveal_strlit(" participant");
    reveal_strlit("  ─ Sort: ");
    reveal_strlit(" participants  ─ Sort: ");
    reveal_strlit(" participant  ─ Sort: ");
    assert(" participants  ─ Sort: "@ =~= " participant"@ + "s"@ + "  ─ Sort: "@);
    assert(" participant  ─ Sort: "@ =~= " participant"@ + ""@ + "  ─ Sort: "@);
    assert(n as nat == n as u64);
    if n == 1 {
        assert(count@ =~= "   "@ + number@ + " participant  ─ Sort: "@);
    } else {
        assert(count@ =~= "   "@ + number@ + " participants  ─ Sort: "@);
    }
}

/// A text that fits is left as it is; of a longer one the first bytes are kept, one
/// less than fit, and an ellipsis follows.
pub proof fn law_cut(s: &str, max: usize, res: String)
    requires
        can_be_cut(s@, max as nat),
        call_ensures(truncate, (s, max), res),
    ensures
        encode_utf8(s@).len() <= max ==> res@ == s@,
        encode_utf8(s@).len() > max ==> res@.len() > 0 && res@.last() == '…' && encode_utf8(
            res@.drop_last(),
        ) == encode_utf8(s@).subrange(0, max - 1),
{
    reveal_strlit("…");
    if encode_utf8(s@).len() > max {
        let start = choose|start: Seq<char>|
            encode_utf8(start) == encode_utf8(s@).subrange(0, max - 1) && res@ == #[trigger] (
            start + "…"@);
        assert(res@.drop_last() =~= start);
    }
}

/// The colours of grades.
pub proof fn law_grades(g: Grade)
    ensures
        grade_tone(g) is Green <==> g is Good,
        grade_tone(g) is Yellow <==> g is Fair,
        grade_tone(g) is Red <==> g is Poor,
{
}

/// The bar of a score has ten parts: first as many full ones as the score says, ten at
/// the most, and then empty ones, in the colour of its grade. Without a score there is
/// a gray one.
pub proof fn law_bar(score: RowScore, res: Segment, none: Segment)
    requires
        call_ensures(quality_bar, (Some(score),), res),
        call_ensures(quality_bar, (None::<RowScore>,), none),
    ensures
        res.text@.len() == 10,
        forall|i: int|
            0 <= i < 10 ==> #[trigger] res.text@[i] == if i < score.filled {
                '█'
            } else {
                '░'
            },
        res.tone is Green <==> score.bar_grade is Good,
        res.tone is Yellow <==> score.bar_grade is Fair,
        res.tone is Red <==> score.bar_grade is Poor,
        none.text@ == "▒▒▒▒▒▒▒▒▒▒"@,
        none.tone is Gray,
{
    assert(none@ == ("▒▒▒▒▒▒▒▒▒▒"@, Tone::Gray));
    assert(res@ == bar_view(Some(score)));
}

/// What a row shows of who it is and what is on: the name, cut to twenty bytes, gray
/// and dimmed while nothing is heard of the participant, and else in the colour of the
/// score; and signs for video and audio.
pub proof fn law_row_of_a_participant(p: &RowInput, row: ParticipantRow)
    requires
        can_be_cut(p.email@, 20),
        call_ensures(participant_row, (p,), row),
    ensures
        encode_utf8(p.email@).len() <= 20 ==> row.name.text@ == p.email@,
        encode_utf8(p.email@).len() > 20 ==> row.name.text@.len() > 0 && row.name.text@.last()
            == '…' && encode_utf8(row.name.text@.drop_last()) == encode_utf8(p.email@).subrange(
            0,
            19,
        ),
        row.dimmed <==> p.stale,
        p.stale || p.score is None ==> row.name.tone is Gray,
        !p.stale && p.score is Some ==> (row.name.tone is Green <==> p.score->0.name_grade is Good)
            && (row.name.tone is Yellow <==> p.score->0.name_grade is Fair) && (row.name.tone is Red
            <==> p.score->0.name_grade is Poor),
        row.video.text@ == if p.video_enabled {
            "[V]"@
        } else {
            "[ ]"@
        },
        row.video.tone == if p.video_enabled {
            Tone::Cyan
        } else {
            Tone::Gray
        },
        row.mic.text@ == if p.audio_enabled {
            "[M]"@
        } else {
            "[ ]"@
        },
        row.mic.tone == if p.audio_enabled {
            Tone::Green
        } else {
            Tone::Gray
        },
{
    assert(row.video@ == (row.video.text@, row.video.tone));
    assert(row.mic@ == (row.mic.text@, row.mic.tone));
    reveal_strlit("…");
    if encode_utf8(p.email@).len() > 20 {
        let start = choose|start: Seq<char>|
            encode_utf8(start) == encode_utf8(p.email@).subrange(0, 19) && row.name.text@
                == #[trigger] (start + "…"@);
        assert(row.name.text@.drop_last() =~= start);
    }
}

/// Whether a text is another one with spaces before it, up to a width.
pub open spec fn is_filled(res: Seq<char>, s: Seq<char>, width: int) -> bool {
    &&& res.len() == if s.len() < width {
        width
    } else {
        s.len() as int
    }
    &&& res.skip(res.len() - s.len()) == s
    &&& forall|i: int| 0 <= i < res.len() - s.len() ==> #[trigger] res[i] == ' '
}

proof fn lemma_filled(s: Seq<char>, width: nat)
    ensures
        is_filled(text::pad_left(s, width), s, width as int),
{
    let res = text::pad_left(s, width);
    assert(res.skip(res.len() - s.len()) =~= s);
}

/// What a row shows of what was measured: each value in its column, filled to its
/// width and with its unit, in the colour of its grade; the video only while it is on.
pub proof fn law_row_of_measurements(
    p: &RowInput,
    q: RowQuality,
    rtt: Millis,
    rtt_text: String,
    jitter_text: String,
    fps_text: String,
    kbps_text: String,
    row: ParticipantRow,
)
    requires
        can_be_cut(p.email@, 20),
        call_ensures(participant_row, (p,), row),
        p.quality == Some(q),
        p.rtt == Some(rtt),
        call_ensures(text::decimal_string, (rtt.value as u64,), rtt_text),
        call_ensures(text::decimal_string, (q.jitter.value as u64,), jitter_text),
        call_ensures(text::decimal_string, (q.fps as u64,), fps_text),
        call_ensures(text::decimal_string, (q.bitrate_kbps,), kbps_text),
    ensures
        exists|t: Seq<char>| is_filled(t, rtt_text@, 5) && row.rtt.text@ == #[trigger] (t + "ms"@),
        exists|t: Seq<char>|
            is_filled(t, jitter_text@, 5) && row.jitter.text@ == #[trigger] (t + "ms"@),
        exists|t: Seq<char>|
            is_filled(t, q.conceal@, 5) && row.conceal.text@ == #[trigger] (t + "/s"@),
        row.rtt.tone == grade_tone(rtt.grade),
        row.jitter.tone == grade_tone(q.jitter.grade),
        row.conceal.tone == grade_tone(q.conceal_grade),
        p.video_enabled ==> is_filled(row.fps.text@, fps_text@, 3) && is_filled(
            row.kbps.text@,
            kbps_text@,
            5,
        ) && row.fps.tone is Plain && row.kbps.tone is Plain,
        !p.video_enabled ==> row.fps.text@ == "  --"@ && row.kbps.text@ == "   --"@
            && row.fps.tone is Gray && row.kbps.tone is Gray,
        row.bar@ == bar_view(p.score),
{
    lemma_filled(rtt_text@, 5);
    lemma_filled(jitter_text@, 5);
    lemma_filled(q.conceal@, 5);
    lemma_filled(fps_text@, 3);
    lemma_filled(kbps_text@, 5);
    assert(row.rtt@ == (row.rtt.text@, row.rtt.tone));
    assert(row.jitter@ == (row.jitter.text@, row.jitter.tone));
    assert(row.conceal@ == (row.conceal.text@, row.conceal.tone));
    assert(row.fps@ == (row.fps.text@, row.fps.tone));
    assert(row.kbps@ == (row.kbps.text@, row.kbps.tone));
    assert(row.rtt.text@ == text::pad_left(rtt_text@, 5) + "ms"@);
    assert(row.jitter.text@ == text::pad_left(jitter_text@, 5) + "ms"@);
    assert(row.conceal.text@ == text::pad_left(q.conceal@, 5) + "/s"@);
}

/// What was not measured is shown as dashes, in gray.
pub proof fn law_row_without_measurements(p: &RowInput, row: ParticipantRow)
    requires
        can_be_cut(p.email@, 20),
        call_ensures(participant_row, (p,), row),
    ensures
        p.rtt is None ==> row.rtt.text@ == "    --  "@ && row.rtt.tone is Gray,
        p.quality is None ==> row.jitter.text@ == "   --  "@ && row.jitter.tone is Gray
            && row.conceal.text@ == "    -- "@ && row.conceal.tone is Gray && row.fps.text@
            == "  --"@ && row.kbps.text@ == "   --"@ && (row.fps.tone is Plain <==> p.video_enabled)
            && (row.kbps.tone is Plain <==> p.video_enabled),
{
    assert(row.rtt@ == (row.rtt.text@, row.rtt.tone));
    assert(row.jitter@ == (row.jitter.text@, row.jitter.tone));
    assert(row.conceal@ == (row.conceal.text@, row.conceal.tone));
    assert(row.fps@ == (row.fps.text@, row.fps.tone));
    assert(row.kbps@ == (row.kbps.text@, row.kbps.tone));
}

/// What is wrong with a connection is listed in a fixed order: concealment, jitter,
/// the way to the server, the picture; each only where it is wrong, with its value.
pub proof fn law_what_is_wrong(
    q: &DetailQuality,
    rtt: Millis,
    high_rtt: bool,
    jitter_text: String,
    rtt_text: String,
    res: String,
    without: String,
)
    requires
        call_ensures(text::decimal_string, (q.jitter.value as u64,), jitter_text),
        call_ensures(text::decimal_string, (rtt.value as u64,), rtt_text),
        call_ensures(interpret_quality, (q, Some(rtt), high_rtt), res),
        call_ensures(interpret_quality, (q, None::<Millis>, high_rtt), without),
    ensures
        ({
            let conceal = "high audio concealment ("@ + q.conceal@ + "/s)"@;
            let jitter = "high jitter ("@ + jitter_text@ + "ms)"@;
            let way = "high RTT ("@ + rtt_text@ + "ms)"@;
            let picture = "video not rendering"@;
            let blind = !q.can_see && q.no_frames;
            &&& q.high_conceal && !q.high_jitter && !high_rtt && !blind ==> res@ == conceal
            &&& !q.high_conceal && q.high_jitter && !high_rtt && !blind ==> res@ == jitter
            &&& !q.high_conceal && !q.high_jitter && high_rtt && !blind ==> res@ == way
            &&& !q.high_conceal && !q.high_jitter && !high_rtt && blind ==> res@ == picture
            &&& !q.high_conceal && !q.high_jitter && !high_rtt && !blind ==> res@.len() == 0
            &&& q.high_conceal && q.high_jitter && high_rtt && blind ==> res@ == conceal + ", "@
                + jitter + ", "@ + way + ", "@ + picture
            &&& q.high_conceal && q.high_jitter && !high_rtt && !blind ==> res@ == conceal + ", "@
                + jitter
            &&& q.high_conceal && !q.high_jitter && high_rtt && !blind ==> res@ == conceal + ", "@
                + way
            &&& !q.high_conceal && q.high_jitter && high_rtt && !blind ==> res@ == jitter + ", "@
                + way
            &&& q.high_conceal && !q.high_jitter && !high_rtt && blind ==> res@ == conceal + ", "@
                + picture
            &&& !q.high_conceal && q.high_jitter && !high_rtt && blind ==> res@ == jitter + ", "@
                + picture
            &&& !q.high_conceal && !q.high_jitter && high_rtt && blind ==> res@ == way + ", "@
                + picture
            &&& q.high_conceal && q.high_jitter && high_rtt && !blind ==> res@ == conceal + ", "@
                + jitter + ", "@ + way
            &&& q.high_conceal && q.high_jitter && !high_rtt && blind ==> res@ == conceal + ", "@
                + jitter + ", "@ + picture
            &&& q.high_conceal && !q.high_jitter && high_rtt && blind ==> res@ == conceal + ", "@
                + way + ", "@ + picture
            &&& !q.high_conceal && q.high_jitter && high_rtt && blind ==> res@ == jitter + ", "@
                + way + ", "@ + picture
            &&& !high_rtt ==> without@ == res@
        }),
        !q.high_conceal && !q.high_jitter && (q.can_see || !q.no_frames) ==> without@.len() == 0,
{
    reveal_with_fuel(listed, 5);
    reveal_strlit("ms");
    reveal_strlit(")");
    reveal_strlit("ms)");
    assert("ms)"@ =~= "ms"@ + ")"@);
    let conceal = "high audio concealment ("@ + q.conceal@ + "/s)"@;
    let jitter = "high jitter ("@ + jitter_text@ + "ms)"@;
    let way = "high RTT ("@ + rtt_text@ + "ms)"@;
    let picture = "video not rendering"@;
    assert("high jitter ("@ + millis_plain(q.jitter.value) + ")"@ =~= jitter);
    assert("high RTT ("@ + millis_plain(rtt.value) + ")"@ =~= way);
    let items = issues_of(*q, Some(rtt), high_rtt);
    let blind = !q.can_see && q.no_frames;
    let a = if q.high_conceal {
        seq![conceal]
    } else {
        Seq::empty()
    };
    let b = if q.high_jitter {
        seq![jitter]
    } else {
        Seq::empty()
    };
    let c = if high_rtt {
        seq![way]
    } else {
        Seq::empty()
    };
    let d = if blind {
        seq![picture]
    } else {
        Seq::empty()
    };
    assert(items =~= a + b + c + d);
    if !high_rtt {
        assert(issues_of(*q, None, high_rtt) =~= items);
    }
    lemma_listed_two(conceal, jitter);
    lemma_listed_two(conceal, way);
    lemma_listed_two(conceal, picture);
    lemma_listed_two(jitter, way);
    lemma_listed_two(jitter, picture);
    lemma_listed_two(way, picture);
    let three = seq![conceal, jitter, way];
    assert(three =~= seq![conceal, jitter].push(way));
    lemma_listed_push(seq![conceal, jitter], way);
    assert(seq![conceal, jitter, way, picture] =~= three.push(picture));
    lemma_listed_push(three, picture);
    assert(seq![conceal, jitter, picture] =~= seq![conceal, jitter].push(picture));
    lemma_listed_push(seq![conceal, jitter], picture);
    assert(seq![conceal, way, picture] =~= seq![conceal, way].push(picture));
    lemma_listed_push(seq![conceal, way], picture);
    assert(seq![jitter, way, picture] =~= seq![jitter, way].push(picture));
    lemma_listed_push(seq![jitter, way], picture);
    if q.high_conceal && q.high_jitter && high_rtt && !blind {
        assert(items =~= three);
    } else if q.high_conceal && q.high_jitter && !high_rtt && blind {
        assert(items =~= seq![conceal, jitter, picture]);
    } else if q.high_conceal && !q.high_jitter && high_rtt && blind {
        assert(items =~= seq![conceal, way, picture]);
    } else if !q.high_conceal && q.high_jitter && high_rtt && blind {
        assert(items =~= seq![jitter, way, picture]);
    }
    if q.high_conceal && q.high_jitter && high_rtt && blind {
        assert(items =~= seq![conceal, jitter, way, picture]);
    } else if q.high_conceal && q.high_jitter && !high_rtt && !blind {
        assert(items =~= seq![conceal, jitter]);
    } else if q.high_conceal && !q.high_jitter && high_rtt && !blind {
        assert(items =~= seq![conceal, way]);
    } else if !q.high_conceal && q.high_jitter && high_rtt && !blind {
        assert(items =~= seq![jitter, way]);
    } else if q.high_conceal && !q.high_jitter && !high_rtt && blind {
        assert(items =~= seq![conceal, picture]);
    } else if !q.high_conceal && q.high_jitter && !high_rtt && blind {
        assert(items =~= seq![jitter, picture]);
    } else if !q.high_conceal && !q.high_jitter && high_rtt && blind {
        assert(items =~= seq![way, picture]);
    }
    if !q.high_conceal && !q.high_jitter && !blind {
        assert(issues_of(*q, None, high_rtt) =~= Seq::empty());
    }
}

proof fn lemma_listed_two(a: Seq<char>, b: Seq<char>)
    ensures
        listed(seq![a, b]) == a + ", "@ + b,
{
    assert(seq![a, b] =~= seq![a].push(b));
    lemma_listed_push(seq![a], b);
    assert(listed(seq![a]) == a);
}

/// Whether a piece of a line is a sign for yes or no.
pub open spec fn is_sign(s: SegmentView, on: bool) -> bool {
    s == if on {
        ("✓"@, Tone::Green)
    } else {
        ("✗"@, Tone::Gray)
    }
}

/// The panel with details: its title names the participant; its first line says
/// whether video and audio are on, and how long the way to the server is.
pub proof fn law_details(p: &DetailInput, number: String, rtt: Millis, panel: DetailPanel)
    requires
        call_ensures(render_detail, (p,), panel),
        call_ensures(text::decimal_string, (rtt.value as u64,), number),
    ensures
        panel.title@ == " Detail: "@ + p.email@ + " "@,
        ({
            let lines = lines_view(panel.lines@);
            &&& lines.len() >= 2
            &&& lines[0].len() == 8
            &&& lines[0][0].0 == "Video: "@ && is_sign(lines[0][1], p.video_enabled)
            &&& lines[0][3].0 == "Audio: "@ && is_sign(lines[0][4], p.audio_enabled)
            &&& lines[0][6].0 == "RTT: "@
            &&& p.rtt == Some(rtt) ==> lines[0][7] == (number@ + "ms"@, grade_tone(rtt.grade))
            &&& p.rtt is None ==> lines[0][7] == ("--"@, Tone::Gray)
            &&& p.quality is None ==> lines.len() == 2 && lines[1].len() == 1 && lines[1][0].0
                == "  No quality data received yet (waiting for HEALTH packets)"@
        }),
{
}

/// The panel with details shows what was observed: the measurements with their units,
/// what gets through, how old that is when it is older than five seconds, and in a
/// line of its own what is wrong, if anything is.
pub proof fn law_details_of_quality(
    p: &DetailInput,
    q: DetailQuality,
    jitter: String,
    fps: String,
    rate: String,
    age: String,
    wrong: String,
    panel: DetailPanel,
)
    requires
        call_ensures(render_detail, (p,), panel),
        p.quality == Some(q),
        call_ensures(text::decimal_string, (q.jitter.value as u64,), jitter),
        call_ensures(text::decimal_string, (q.fps as u64,), fps),
        call_ensures(text::decimal_string, (q.bitrate_kbps,), rate),
        call_ensures(text::decimal_string, (q.age_secs,), age),
        call_ensures(interpret_quality, (&q, p.rtt, p.high_rtt), wrong),
    ensures
        ({
            let lines = lines_view(panel.lines@);
            &&& lines.len() == if wrong@.len() > 0 {
                4nat
            } else {
                3nat
            }
            &&& lines[1].len() == 11
            &&& lines[1][0].0 == "Jitter: "@
            &&& lines[1][1] == (jitter@ + "ms"@, grade_tone(q.jitter.grade))
            &&& lines[1][3].0 == "Conceal: "@
            &&& lines[1][4] == (q.conceal@ + "/s"@, grade_tone(q.conceal_grade))
            &&& lines[1][6].0 == "FPS: "@ && lines[1][7].0 == fps@
            &&& lines[1][9].0 == "Bitrate: "@ && lines[1][10].0 == rate@ + " kbps"@
            &&& lines[2].len() == 6
            &&& lines[2][0].0 == "Can see: "@ && is_sign(lines[2][1], q.can_see)
            &&& lines[2][3].0 == "Can hear: "@ && is_sign(lines[2][4], q.can_listen)
            &&& q.age_secs > 5 ==> lines[2][5].0 == "   (data "@ + age@ + "s old)"@
            &&& q.age_secs <= 5 ==> lines[2][5].0 == "   "@
            &&& wrong@.len() > 0 ==> lines[3].len() == 2 && lines[3][0].0 == "  ⚠ "@
                && lines[3][1] == (wrong@, Tone::Yellow)
        }),
{
}

/// The panel with events has as many lines as there are events, or as there is room for.
pub proof fn law_number_of_event_lines(
    events: &Vec<Event>,
    room: usize,
    use_utc: bool,
    res: Vec<EventLine>,
)
    requires
        call_ensures(event_lines, (events, room, use_utc), res),
    ensures
        res@.len() == if events@.len() < room {
            events@.len() as int
        } else {
            room as int
        },
{
    assert(meeting_state::history(events@).len() == events@.len());
}

/// The panel with events shows the newest that there is room for, in their order, each
/// with what happened and at the time that a log shows.
pub proof fn law_event_lines(
    events: &Vec<Event>,
    room: usize,
    use_utc: bool,
    k: int,
    time: String,
    res: Vec<EventLine>,
)
    requires
        call_ensures(event_lines, (events, room, use_utc), res),
        0 <= k < events@.len(),
        events@.len() - k <= room,
        call_ensures(
            clock::event_time,
            (events@[k].when.instant, events@[k].when.offset, use_utc),
            time,
        ),
    ensures
        res@.len() == if events@.len() < room {
            events@.len() as int
        } else {
            room as int
        },
        ({
            let line = res@[res@.len() - (events@.len() - k)];
            line.msg@ == events@[k].msg@ && line.time@ == time@
        }),
{
    let all = meeting_state::history(events@);
    let shown = newest(all, room as nat);
    let i = res@.len() - (events@.len() - k);
    assert(0 <= i < shown.len());
    assert(shown[i] == all[k]);
    assert(all[k] == events@[k]@);
    assert((res@[i].time@, res@[i].msg@) == event_line_view(shown[i], use_utc));
}

/// The signs, and which texts can be cut: those that fit, and those in which no
/// character lies across the place of the cut.
pub proof fn law_signs_and_cuts(on: bool, s: &str, max: usize, sign: Segment, res: bool)
    requires
        call_ensures(flag, (on,), sign),
        call_ensures(is_truncatable, (s, max), res),
    ensures
        is_sign(sign@, on),
        encode_utf8(s@).len() <= max ==> res,
        encode_utf8(s@).len() > max && max == 0 ==> !res,
        encode_utf8(s@).len() > max && max > 0 ==> (res <==> is_char_boundary(
            encode_utf8(s@),
            max - 1,
        )),
{
}

} // verus!
