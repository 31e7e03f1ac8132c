//! Points in time, and the calls into `chrono` that read and show them.

use vstd::prelude::*;
use crate::text;

verus! {

/// The first and the last second since 1970 that `chrono` holds: from the start of
/// the year -262143 to the end of the year 262142.
pub const FIRST_SECOND: i64 = -8_334_601_228_800;

pub const LAST_SECOND: i64 = 8_210_266_876_799;

/// Whether seconds and nanoseconds name a point in time. Nanoseconds beyond one
/// second name a leap second, which only the last second of a minute can have.
pub open spec fn valid_instant(secs: i64, nanos: u32) -> bool {
    &&& FIRST_SECOND <= secs <= LAST_SECOND
    &&& nanos < 1_000_000_000 || (nanos < 2_000_000_000 && secs % 60 == 59)
}

/// Whether a number of seconds is an offset from UTC: less than a day.
pub open spec fn valid_offset(offset: i32) -> bool {
    -86_400 < offset < 86_400
}

/// How the chat shows when a message was sent: `Wednesday, Jan 15 - 1:30 PM`.
pub const TIMESTAMP_FORMAT: &'static str = "%A, %b %-d - %-I:%M %p";

/// A time of day.
pub const TIME_FORMAT: &'static str = "%H:%M:%S";

/// A time of day in UTC.
pub const UTC_TIME_FORMAT: &'static str = "%H:%M:%S UTC";

/// A time of day with its offset from UTC.
pub const ZONED_TIME_FORMAT: &'static str = "%H:%M:%S %Z";

/// The patterns in which points in time are shown.
pub open spec fn known_format(f: Seq<char>) -> bool {
    f == TIMESTAMP_FORMAT@ || f == TIME_FORMAT@ || f == UTC_TIME_FORMAT@ || f == ZONED_TIME_FORMAT@
}

// ---------------------------------------------------------------------------
// chrono
// ---------------------------------------------------------------------------

/// The point in time that `chrono` reads in an RFC 3339 text: seconds since 1970
/// and nanoseconds.
pub uninterp spec fn rfc3339_instant(text: Seq<char>) -> Option<(i64, u32)>;

/// The time of day at an offset, as `hh:mm:ss`. A leap second counts as one second
/// more.
pub open spec fn time_of_day(secs: i64, nanos: u32, offset: i32) -> Seq<char> {
    let s = (secs + offset) % 86_400;
    text::two_digits((s / 3600) as nat) + seq![':'] + text::two_digits((s % 3600 / 60) as nat)
        + seq![':'] + text::two_digits((s % 60 + nanos as int / 1_000_000_000) as nat)
}

/// An offset from UTC, as `+hh:mm`, with the seconds where there are any.
pub open spec fn offset_text(offset: i32) -> Seq<char> {
    let n = if offset < 0 {
        -offset
    } else {
        offset as int
    };
    let sign = if offset < 0 {
        '-'
    } else {
        '+'
    };
    let minutes = seq![sign] + text::two_digits((n / 3600) as nat) + seq![':'] + text::two_digits(
        (n % 3600 / 60) as nat,
    );
    if n % 60 == 0 {
        minutes
    } else {
        minutes + seq![':'] + text::two_digits((n % 60) as nat)
    }
}

/// The text in which `chrono` shows a point in time at an offset, in a pattern.
pub uninterp spec fn shown_time(secs: i64, nanos: u32, offset: i32, format: Seq<char>) -> Seq<char>;

/// `chrono::DateTime::parse_from_rfc3339`, as seconds since 1970 and nanoseconds
/// (`timestamp`, `timestamp_subsec_nanos`). The result is a function of the text.
/// The offset in the text is whole minutes, so that a leap second stays the last
/// of its minute.
#[verifier::external_body]
pub(crate) fn parse_rfc3339(text: &str) -> (res: Option<(i64, u32)>)
    ensures
        res == rfc3339_instant(text@),
        res matches Some(t) ==> valid_instant(t.0, t.1),
{
    let t = chrono::DateTime::parse_from_rfc3339(text).ok()?;
    Some((t.timestamp(), t.timestamp_subsec_nanos()))
}

/// `chrono::DateTime::format`, after `with_timezone` at a fixed offset. The text
/// is a function of the point in time, the offset and the pattern. In the patterns
/// for a time of day it is that time, followed by what stands after it in the
/// pattern, where `%Z` is the offset.
#[verifier::external_body]
pub(crate) fn format_at(secs: i64, nanos: u32, offset: i32, format: &str) -> (res: String)
    requires
        valid_instant(secs, nanos),
        valid_offset(offset),
        known_format(format@),
    ensures
        res@ == shown_time(secs, nanos, offset, format@),
        format@ == TIME_FORMAT@ ==> res@ == time_of_day(secs, nanos, offset),
        format@ == UTC_TIME_FORMAT@ ==> res@ == time_of_day(secs, nanos, offset) + " UTC"@,
        format@ == ZONED_TIME_FORMAT@ ==> res@ == time_of_day(secs, nanos, offset) + " "@
            + offset_text(offset),
{
    let zone = chrono::FixedOffset::east_opt(offset).unwrap();
    let instant = chrono::DateTime::<chrono::Utc>::from_timestamp(secs, nanos).unwrap();
    instant.with_timezone(&zone).format(format).to_string()
}

/// `chrono::Local`, asked for the offset of the local time zone at a point in
/// time (`offset_from_utc_datetime`). Which offset it is depends on the machine;
/// it is less than a day.
#[verifier::external_body]
pub(crate) fn local_offset(secs: i64, nanos: u32) -> (offset: i32)
    requires
        valid_instant(secs, nanos),
    ensures
        valid_offset(offset),
{
    let instant = chrono::DateTime::<chrono::Utc>::from_timestamp(secs, nanos).unwrap();
    let zone = chrono::TimeZone::offset_from_utc_datetime(&chrono::Local, &instant.naive_utc());
    chrono::Offset::fix(&zone).local_minus_utc()
}

// ---------------------------------------------------------------------------
// Points in time
// ---------------------------------------------------------------------------

/// A point in time.
#[derive(Debug, Clone, Copy, PartialEq, Eq)]
pub struct UtcInstant {
    secs: i64,
    nanos: u32,
}

impl UtcInstant {
    #[verifier::type_invariant]
    spec fn valid(self) -> bool {
        valid_instant(self.secs, self.nanos)
    }

    /// Seconds since 1970 and nanoseconds.
    pub closed spec fn parts(self) -> (i64, u32) {
        (self.secs, self.nanos)
    }

    /// The point in time of these seconds since 1970 and nanoseconds, if there is
    /// one.
    pub fn new(secs: i64, nanos: u32) -> (res: Option<UtcInstant>)
        ensures
            match res {
                Some(t) => valid_instant(secs, nanos) && t.parts() == (secs, nanos),
                None => !valid_instant(secs, nanos),
            },
    {
        if secs < FIRST_SECOND || secs > LAST_SECOND {
            return None;
        }
        let m: i64 = (secs - FIRST_SECOND) % 60;
        assert(FIRST_SECOND % 60 == 0) by (nonlinear_arith);
        assert(m == secs % 60);
        if nanos < 1_000_000_000 || (nanos < 2_000_000_000 && m == 59) {
            Some(UtcInstant { secs, nanos })
        } else {
            None
        }
    }

    /// The point in time in an RFC 3339 text.
    pub fn from_rfc3339(text: &str) -> (res: Option<UtcInstant>)
        ensures
            match res {
                Some(t) => rfc3339_instant(text@) == Some(t.parts()),
                None => rfc3339_instant(text@) is None,
            },
    {
        let (secs, nanos): (i64, u32) = parse_rfc3339(text)?;
        Some(UtcInstant { secs, nanos })
    }
}

/// An offset from UTC.
#[derive(Debug, Clone, Copy, PartialEq, Eq)]
pub struct UtcOffset {
    secs: i32,
}

impl UtcOffset {
    #[verifier::type_invariant]
    spec fn valid(self) -> bool {
        valid_offset(self.secs)
    }

    /// How many seconds the local time is ahead of UTC.
    pub closed spec fn seconds(self) -> i32 {
        self.secs
    }

    pub fn new(secs: i32) -> (res: Option<UtcOffset>)
        ensures
            match res {
                Some(o) => valid_offset(secs) && o.seconds() == secs,
                None => !valid_offset(secs),
            },
    {
        if -86_400 < secs && secs < 86_400 {
            Some(UtcOffset { secs })
        } else {
            None
        }
    }

    pub fn utc() -> (res: UtcOffset)
        ensures
            res.seconds() == 0,
    {
        UtcOffset { secs: 0 }
    }
}

/// The text in which a point in time is shown at an offset.
pub open spec fn shown(t: UtcInstant, o: UtcOffset, format: Seq<char>) -> Seq<char> {
    shown_time(t.parts().0, t.parts().1, o.seconds(), format)
}

/// The time of day of a point in time at an offset.
pub open spec fn local_time(t: UtcInstant, o: UtcOffset) -> Seq<char> {
    time_of_day(t.parts().0, t.parts().1, o.seconds())
}

/// The time of day of a point in time in UTC, marked as such.
pub open spec fn utc_time(t: UtcInstant) -> Seq<char> {
    time_of_day(t.parts().0, t.parts().1, 0) + " UTC"@
}

/// The text in which a point in time is shown at an offset.
fn show(t: UtcInstant, o: UtcOffset, format: &str) -> (res: String)
    requires
        known_format(format@),
    ensures
        res@ == shown(t, o, format@),
        format@ == TIME_FORMAT@ ==> res@ == local_time(t, o),
        format@ == UTC_TIME_FORMAT@ ==> res@ == local_time(t, o) + " UTC"@,
        format@ == ZONED_TIME_FORMAT@ ==> res@ == local_time(t, o) + " "@ + offset_text(
            o.seconds(),
        ),
{
    proof {
        use_type_invariant(&t);
        use_type_invariant(&o);
    }
    format_at(t.secs, t.nanos, o.secs, format)
}

// ---------------------------------------------------------------------------
// Showing
// ---------------------------------------------------------------------------

/// How the chat shows a point in time at an offset.
pub fn format_instant_at_offset(instant: UtcInstant, local_offset: UtcOffset) -> (res: String)
    ensures
        res@ == shown(instant, local_offset, TIMESTAMP_FORMAT@),
{
    show(instant, local_offset, TIMESTAMP_FORMAT)
}

/// Whether the local time zone, asked for its offset at a point in time, may answer
/// with this one. Which it is depends on the machine.
pub closed spec fn zone_gives(secs: i64, nanos: u32, offset: i32) -> bool {
    call_ensures(local_offset, (secs, nanos), offset)
}

/// What may be shown for the time in an RFC 3339 text: the time at the offset that
/// the local time zone gives for it, or the text itself where it is none.
pub open spec fn timestamp_shows(raw: Seq<char>, res: Seq<char>) -> bool {
    match rfc3339_instant(raw) {
        Some(t) => exists|o: i32|
            zone_gives(t.0, t.1, o) && valid_offset(o) && res == #[trigger] shown_time(
                t.0,
                t.1,
                o,
                TIMESTAMP_FORMAT@,
            ),
        None => res == raw,
    }
}

/// How the chat shows the time in an RFC 3339 text, in the local time zone. A
/// text in another form, the empty one too, is shown as it is.
pub fn format_timestamp(raw: &str) -> (res: String)
    ensures
        timestamp_shows(raw@, res@),
{
    match UtcInstant::from_rfc3339(raw) {
        Some(t) => {
            proof {
                use_type_invariant(&t);
            }
            let ahead: i32 = local_offset(t.secs, t.nanos);
            let res = format_instant_at_offset(t, UtcOffset { secs: ahead });
            proof {
                let p = rfc3339_instant(raw@)->0;
                assert(zone_gives(p.0, p.1, ahead) && valid_offset(ahead));
                assert(res@ == shown_time(p.0, p.1, ahead, TIMESTAMP_FORMAT@));
            }
            res
        },
        None => raw.to_owned(),
    }
}

/// How a log shows when an entry was made: in UTC with a mark, or at the offset
/// at which it was made.
pub fn event_time(t: UtcInstant, offset: UtcOffset, use_utc: bool) -> (res: String)
    ensures
        res@ == if use_utc {
            utc_time(t)
        } else {
            local_time(t, offset)
        },
{
    if use_utc {
        show(t, UtcOffset::utc(), UTC_TIME_FORMAT)
    } else {
        show(t, offset, TIME_FORMAT)
    }
}

/// How a clock shows the present: in UTC with a mark, or with its offset.
pub fn clock_time(t: UtcInstant, offset: UtcOffset, use_utc: bool) -> (res: String)
    ensures
        res@ == if use_utc {
            utc_time(t)
        } else {
            local_time(t, offset) + " "@ + offset_text(offset.seconds())
        },
{
    if use_utc {
        show(t, UtcOffset::utc(), UTC_TIME_FORMAT)
    } else {
        show(t, offset, ZONED_TIME_FORMAT)
    }
}

// ---------------------------------------------------------------------------
// Elapsed time
// ---------------------------------------------------------------------------

/// A duration as `h:mm:ss`, or as `mm:ss` when it is less than an hour.
pub open spec fn elapsed_text(secs: nat) -> Seq<char> {
    let h = secs / 3600;
    let m = secs % 3600 / 60;
    let s = secs % 60;
    if h > 0 {
        text::decimal(h) + seq![':'] + text::two_digits(m) + seq![':'] + text::two_digits(s)
    } else {
        text::two_digits(m) + seq![':'] + text::two_digits(s)
    }
}

/// A duration as `h:mm:ss`, or as `mm:ss` when it is less than an hour.
pub fn format_elapsed(secs: u64) -> (res: String)
    ensures
        res@ == elapsed_text(secs as nat),
{
    let h: u64 = secs / 3600;
    let m: u64 = secs % 3600 / 60;
    let s: u64 = secs % 60;
    let mut out = String::new();
    if h > 0 {
        text::push_decimal(&mut out, h);
        out.push(':');
    }
    text::push_two_digits(&mut out, m);
    out.push(':');
    text::push_two_digits(&mut out, s);
    assert(out@ =~= elapsed_text(secs as nat));
    out
}

// ---------------------------------------------------------------------------
// Laws
// ---------------------------------------------------------------------------

/// Seconds and nanoseconds make a point in time exactly when `chrono` holds those
/// seconds and the nanoseconds are less than one second, or less than two in the
/// last second of a minute. The point in time has the parts that it was made of.
pub proof fn law_points_in_time(secs: i64, nanos: u32, res: Option<UtcInstant>)
    requires
        call_ensures(UtcInstant::new, (secs, nanos), res),
    ensures
        secs < -8_334_601_228_800 || secs > 8_210_266_876_799 ==> res is None,
        -8_334_601_228_800 <= secs <= 8_210_266_876_799 && nanos < 1_000_000_000 ==> res is Some,
        nanos >= 1_000_000_000 && res is Some ==> secs % 60 == 59 && nanos < 2_000_000_000,
        -8_334_601_228_800 <= secs <= 8_210_266_876_799 && nanos < 2_000_000_000 && secs % 60 == 59
            ==> res is Some,
        res matches Some(t) ==> t.parts() == (secs, nanos),
{
}

/// A number of seconds is an offset exactly when it is less than a day, either way.
pub proof fn law_offsets(secs: i32, res: Option<UtcOffset>)
    requires
        call_ensures(UtcOffset::new, (secs,), res),
    ensures
        res is Some <==> -(24 * 60 * 60) < secs < 24 * 60 * 60,
        res matches Some(o) ==> o.seconds() == secs,
{
}

/// The offset that the local time zone gives for a point in time is the one with which
/// `chrono` answers for it, neither turned round nor moved.
pub(crate) proof fn law_zone(secs: i64, nanos: u32, offset: i32)
    ensures
        zone_gives(secs, nanos, offset) <==> call_ensures(local_offset, (secs, nanos), offset),
{
}

/// A message is shown at the offset that the local time zone gives for the moment
/// at which the message was sent, as the chat shows that moment at that offset; a
/// text that is no time is shown as it is.
pub proof fn law_timestamp_is_local(raw: &str, res: String)
    requires
        call_ensures(format_timestamp, (raw,), res),
    ensures
        match rfc3339_instant(raw@) {
            Some(t) => exists|o: i32|
                zone_gives(t.0, t.1, o) && -86_400 < o < 86_400 && res@ == #[trigger] shown_time(
                    t.0,
                    t.1,
                    o,
                    "%A, %b %-d - %-I:%M %p"@,
                ),
            None => res@ == raw@,
        },
{
}

/// What is shown of a moment in the chat is its form at the offset given.
pub proof fn law_moment_at_offset(t: UtcInstant, o: UtcOffset, res: String)
    requires
        call_ensures(format_instant_at_offset, (t, o), res),
    ensures
        res@ == shown_time(t.parts().0, t.parts().1, o.seconds(), "%A, %b %-d - %-I:%M %p"@),
{
}

/// Whether a text is `hh:mm:ss`.
pub open spec fn clock_form(s: Seq<char>) -> bool {
    &&& s.len() == 8
    &&& s[2] == ':' && s[5] == ':'
    &&& text::all_digits(s.subrange(0, 2))
    &&& text::all_digits(s.subrange(3, 5))
    &&& text::all_digits(s.subrange(6, 8))
    &&& s[0] <= '2' && s[3] <= '5'
}

/// The seconds since midnight at which a clock stands that shows `hh:mm:ss`.
pub open spec fn clock_seconds(s: Seq<char>) -> int {
    text::number_in(s.subrange(0, 2)) * 3600 + text::number_in(s.subrange(3, 5)) * 60
        + text::number_in(s.subrange(6, 8))
}

proof fn lemma_pair(s: Seq<char>)
    requires
        s.len() == 2,
    ensures
        text::number_in(s) == (s[0] as int - '0' as int) * 10 + (s[1] as int - '0' as int),
{
    reveal_with_fuel(text::number_in, 3);
    assert(s.drop_last() =~= seq![s[0]]);
    assert(s.drop_last().drop_last() =~= Seq::empty());
}

proof fn lemma_time_of_day(secs: i64, nanos: u32, offset: i32)
    requires
        nanos < 2_000_000_000,
    ensures
        clock_form(time_of_day(secs, nanos, offset)),
        clock_seconds(time_of_day(secs, nanos, offset)) == (secs + offset) % 86_400 + (nanos as int
            / 1_000_000_000),
{
    let s = (secs + offset) % 86_400;
    let h = s / 3600;
    let m = s % 3600 / 60;
    let z = s % 60 + nanos as int / 1_000_000_000;
    assert(0 <= h < 24 && 0 <= m < 60 && 0 <= z < 61);
    assert(s == h * 3600 + m * 60 + s % 60);
    text::law_two_digits(h as nat);
    text::law_two_digits(m as nat);
    text::law_two_digits(z as nat);
    let t = time_of_day(secs, nanos, offset);
    assert(t.subrange(0, 2) =~= text::two_digits(h as nat));
    assert(t.subrange(3, 5) =~= text::two_digits(m as nat));
    assert(t.subrange(6, 8) =~= text::two_digits(z as nat));
    lemma_pair(t.subrange(0, 2));
    lemma_pair(t.subrange(3, 5));
    lemma_pair(t.subrange(6, 8));
    assert(t[0] == t.subrange(0, 2)[0]);
    assert(t[3] == t.subrange(3, 5)[0]);
}

/// One, in a leap second, and else zero.
pub open spec fn leap(nanos: u32) -> int {
    if nanos >= 1_000_000_000 {
        1
    } else {
        0
    }
}

/// An entry of a log shows a clock that stands at the seconds since 1970, moved by
/// the offset and counted from midnight, and one further in a leap second; the one in
/// UTC is not moved, whatever the offset, and is marked.
pub proof fn law_event_clock(t: UtcInstant, o: UtcOffset, use_utc: bool, res: String)
    requires
        call_ensures(event_time, (t, o, use_utc), res),
        t.parts().1 < 2_000_000_000,
    ensures
        !use_utc ==> clock_form(res@) && clock_seconds(res@) == (t.parts().0 + o.seconds())
            % 86_400 + leap(t.parts().1),
        use_utc ==> res@.len() == 12 && res@.skip(8) == " UTC"@ && clock_form(res@.take(8))
            && clock_seconds(res@.take(8)) == t.parts().0 % 86_400 + leap(t.parts().1),
{
    let (secs, nanos) = t.parts();
    reveal_strlit(" UTC");
    lemma_time_of_day(secs, nanos, 0);
    lemma_time_of_day(secs, nanos, o.seconds());
    if use_utc {
        assert(res@.take(8) =~= time_of_day(secs, nanos, 0));
        assert(res@.skip(8) =~= " UTC"@);
    }
}

/// The clock shows the same times, and with a local one the offset: its sign, and
/// its hours and minutes.
pub proof fn law_clock(t: UtcInstant, o: UtcOffset, use_utc: bool, res: String)
    requires
        call_ensures(clock_time, (t, o, use_utc), res),
        t.parts().1 < 2_000_000_000,
        valid_offset(o.seconds()),
    ensures
        use_utc ==> res@.len() == 12 && res@.skip(8) == " UTC"@ && clock_form(res@.take(8))
            && clock_seconds(res@.take(8)) == t.parts().0 % 86_400 + leap(t.parts().1),
        !use_utc ==> {
            &&& clock_form(res@.take(8))
            &&& clock_seconds(res@.take(8)) == (t.parts().0 + o.seconds()) % 86_400 + leap(
                t.parts().1,
            )
            &&& res@.len() == if o.seconds() % 60 == 0 {
                15nat
            } else {
                18nat
            }
            &&& res@[8] == ' ' && res@[12] == ':'
            &&& res@[9] == if o.seconds() < 0 {
                '-'
            } else {
                '+'
            }
            &&& text::number_in(res@.subrange(10, 12)) * 60 + text::number_in(
                res@.subrange(13, 15),
            ) == if o.seconds() < 0 {
                (-o.seconds()) / 60
            } else {
                o.seconds() / 60
            }
        },
{
    let (secs, nanos) = t.parts();
    reveal_strlit(" UTC");
    reveal_strlit(" ");
    lemma_time_of_day(secs, nanos, 0);
    lemma_time_of_day(secs, nanos, o.seconds());
    if use_utc {
        assert(res@.take(8) =~= time_of_day(secs, nanos, 0));
        assert(res@.skip(8) =~= " UTC"@);
    } else {
        let offset = o.seconds();
        let n = if offset < 0 {
            -offset
        } else {
            offset as int
        };
        assert(0 <= n < 86_400);
        let h = n / 3600;
        let m = n % 3600 / 60;
        assert(0 <= h < 24 && 0 <= m < 60 && 0 <= n % 60 < 60);
        assert(h * 60 + m == n / 60);
        text::law_two_digits(h as nat);
        text::law_two_digits(m as nat);
        text::law_two_digits((n % 60) as nat);
        assert(offset % 60 == 0 <==> n % 60 == 0);
        assert(res@.take(8) =~= time_of_day(secs, nanos, offset));
        assert(res@.subrange(10, 12) =~= text::two_digits(h as nat));
        assert(res@.subrange(13, 15) =~= text::two_digits(m as nat));
        lemma_pair(res@.subrange(10, 12));
        lemma_pair(res@.subrange(13, 15));
    }
}

/// A duration below an hour is shown as minutes and seconds, in two digits each.
pub proof fn law_short_durations(secs: u64, res: String)
    requires
        call_ensures(format_elapsed, (secs,), res),
        secs < 3600,
    ensures
        res@.len() == 5,
        res@[2] == ':',
        res@[3] <= '5',
        text::all_digits(res@.subrange(0, 2)) && text::all_digits(res@.subrange(3, 5)),
        text::number_in(res@.subrange(0, 2)) * 60 + text::number_in(res@.subrange(3, 5)) == secs,
{
    let m = secs as int % 3600 / 60;
    let s = secs as int % 60;
    text::law_two_digits(m as nat);
    text::law_two_digits(s as nat);
    assert(res@.subrange(0, 2) =~= text::two_digits(m as nat));
    assert(res@.subrange(3, 5) =~= text::two_digits(s as nat));
    lemma_pair(res@.subrange(0, 2));
    lemma_pair(res@.subrange(3, 5));
}

/// A duration of an hour or more is shown as hours, without leading zeros, and
/// then minutes and seconds in two digits each.
pub proof fn law_long_durations(secs: u64, res: String)
    requires
        call_ensures(format_elapsed, (secs,), res),
        secs >= 3600,
    ensures
        ({
            let n = res@.len() - 6;
            &&& n > 0
            &&& res@[0] != '0'
            &&& text::all_digits(res@.take(n))
            &&& res@[n] == ':' && res@[n + 3] == ':'
            &&& res@[n + 1] <= '5' && res@[n + 4] <= '5'
            &&& text::number_in(res@.take(n)) * 3600 + text::number_in(
                res@.subrange(n + 1, n + 3),
            ) * 60 + text::number_in(res@.subrange(n + 4, n + 6)) == secs
        }),
{
    let h = secs as int / 3600;
    let m = secs as int % 3600 / 60;
    let s = secs as int % 60;
    text::law_decimal(h as nat);
    text::law_two_digits(m as nat);
    text::law_two_digits(s as nat);
    let n = res@.len() - 6;
    assert(res@.take(n) =~= text::decimal(h as nat));
    assert(res@.subrange(n + 1, n + 3) =~= text::two_digits(m as nat));
    assert(res@.subrange(n + 4, n + 6) =~= text::two_digits(s as nat));
    lemma_pair(res@.subrange(n + 1, n + 3));
    lemma_pair(res@.subrange(n + 4, n + 6));
    if n == 1 {
        assert(res@.take(n).drop_last() =~= Seq::empty());
        assert(text::number_in(res@.take(n).drop_last()) == 0);
    }
    assert(res@[0] == res@.take(n)[0]);
}

/// A point in time is read from a text as `chrono` reads it, and not at all from a text
/// that `chrono` does not take.
pub proof fn law_time_in_a_text(text: &str, res: Option<UtcInstant>)
    requires
        call_ensures(UtcInstant::from_rfc3339, (text,), res),
    ensures
        res is Some <==> rfc3339_instant(text@) is Some,
        res matches Some(t) ==> rfc3339_instant(text@) == Some(t.parts()),
{
}

} // verus!
