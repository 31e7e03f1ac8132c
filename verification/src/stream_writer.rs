//! The writer of the one long-lived stream from server to client.
//!
//! The writer takes packets off a channel and writes each as one frame. A write
//! that fails, or that is not done within its deadline, sheds the packet: the
//! stream is reset, a fresh one is opened, and the next packet goes there. The
//! types here decide; the caller performs one [`WriterAction`] at a time and
//! reports with a [`WriterEvent`] what came of it.

use vstd::prelude::*;
use crate::framing;

verus! {

/// The code with which a stream is reset when its packet is shed; not zero, so
/// that it differs on the wire from a clean finish.
pub const UNISTREAM_SHED_RESET_CODE: u32 = 1;

/// The transport, as the metrics name it.
pub const TRANSPORT_LABEL: &'static str = "webtransport";

/// Why a stream was reset.
#[derive(Debug, Clone, Copy, PartialEq, Eq, Structural)]
pub enum ShedReason {
    /// The stream is broken.
    WriteError,
    /// The receiver takes no more bytes: the deadline passed.
    WriteTimeout,
}

/// Where an inbound packet came from.
#[derive(Debug, Clone, Copy, PartialEq, Eq, Structural)]
pub enum InboundSource {
    UniStream,
    Datagram,
}

pub open spec fn shed_label(r: ShedReason) -> Seq<char> {
    match r {
        ShedReason::WriteError => "write_error"@,
        ShedReason::WriteTimeout => "write_timeout"@,
    }
}

pub open spec fn source_label(s: InboundSource) -> Seq<char> {
    match s {
        InboundSource::UniStream => "unistream"@,
        InboundSource::Datagram => "datagram"@,
    }
}

impl ShedReason {
    /// The reason, as the metrics name it.
    pub fn label(&self) -> (res: &'static str)
        ensures
            res@ == shed_label(*self),
    {
        match *self {
            ShedReason::WriteError => "write_error",
            ShedReason::WriteTimeout => "write_timeout",
        }
    }
}

impl InboundSource {
    /// The source, as the metrics name it.
    pub fn label(&self) -> (res: &'static str)
        ensures
            res@ == source_label(*self),
    {
        match *self {
            InboundSource::UniStream => "unistream",
            InboundSource::Datagram => "datagram",
        }
    }
}

/// What the writer waits for.
#[derive(Debug, PartialEq, Eq)]
pub enum UniStreamWriter {
    /// The next packet; `open` tells whether there is a stream to write it to.
    Idle { open: bool },
    /// The stream on which `packet` is to be written.
    Opening { packet: Vec<u8> },
    /// The end of a write.
    Writing,
    /// The stream that replaces a reset one.
    Reopening,
    /// Nothing any more.
    Ended,
}

/// What came of the last action.
#[derive(Debug, PartialEq, Eq)]
pub enum WriterEvent {
    Packet(Vec<u8>),
    ChannelClosed,
    Opened,
    OpenFailed,
    Written,
    WriteFailed,
    WriteTimedOut,
}

/// What is to be done next.
#[derive(Debug, PartialEq, Eq)]
pub enum WriterAction {
    /// Take the next packet off the channel.
    Receive,
    /// Open the stream.
    Open,
    /// Write these bytes to the stream, all within one deadline.
    Write(Vec<u8>),
    /// Count the reset, reset the stream with `code`, and open a fresh one.
    ShedAndReopen { reason: ShedReason, code: u32 },
    /// Report that a packet was sent, and take the next one off the channel.
    ReportSentAndReceive,
    /// End the task.
    Stop,
}

pub enum WriterView {
    Idle { open: bool },
    Opening { packet: Seq<u8> },
    Writing,
    Reopening,
    Ended,
}

pub enum WriterEventView {
    Packet(Seq<u8>),
    ChannelClosed,
    Opened,
    OpenFailed,
    Written,
    WriteFailed,
    WriteTimedOut,
}

pub enum WriterActionView {
    Receive,
    Open,
    Write(Seq<u8>),
    ShedAndReopen { reason: ShedReason, code: u32 },
    ReportSentAndReceive,
    Stop,
}

impl View for UniStreamWriter {
    type V = WriterView;

    open spec fn view(&self) -> WriterView {
        match self {
            UniStreamWriter::Idle { open } => WriterView::Idle { open: *open },
            UniStreamWriter::Opening { packet } => WriterView::Opening { packet: packet@ },
            UniStreamWriter::Writing => WriterView::Writing,
            UniStreamWriter::Reopening => WriterView::Reopening,
            UniStreamWriter::Ended => WriterView::Ended,
        }
    }
}

impl View for WriterEvent {
    type V = WriterEventView;

    open spec fn view(&self) -> WriterEventView {
        match self {
            WriterEvent::Packet(p) => WriterEventView::Packet(p@),
            WriterEvent::ChannelClosed => WriterEventView::ChannelClosed,
            WriterEvent::Opened => WriterEventView::Opened,
            WriterEvent::OpenFailed => WriterEventView::OpenFailed,
            WriterEvent::Written => WriterEventView::Written,
            WriterEvent::WriteFailed => WriterEventView::WriteFailed,
            WriterEvent::WriteTimedOut => WriterEventView::WriteTimedOut,
        }
    }
}

impl View for WriterAction {
    type V = WriterActionView;

    open spec fn view(&self) -> WriterActionView {
        match self {
            WriterAction::Receive => WriterActionView::Receive,
            WriterAction::Open => WriterActionView::Open,
            WriterAction::Write(b) => WriterActionView::Write(b@),
            WriterAction::ShedAndReopen { reason, code } => WriterActionView::ShedAndReopen {
                reason: *reason,
                code: *code,
            },
            WriterAction::ReportSentAndReceive => WriterActionView::ReportSentAndReceive,
            WriterAction::Stop => WriterActionView::Stop,
        }
    }
}

/// Whether an event can come of what the writer waits for. A packet has a
/// length of 32 bits: there is no frame for a longer one.
pub open spec fn possible(s: WriterView, e: WriterEventView) -> bool {
    match s {
        WriterView::Idle { .. } => match e {
            WriterEventView::Packet(p) => p.len() <= u32::MAX,
            WriterEventView::ChannelClosed => true,
            _ => false,
        },
        WriterView::Opening { packet } => packet.len() <= u32::MAX && (e is Opened
            || e is OpenFailed),
        WriterView::Reopening => e is Opened || e is OpenFailed,
        WriterView::Writing => e is Written || e is WriteFailed || e is WriteTimedOut,
        WriterView::Ended => false,
    }
}

/// The reset after a write that failed or took too long.
pub open spec fn shed(reason: ShedReason) -> WriterActionView {
    WriterActionView::ShedAndReopen { reason, code: UNISTREAM_SHED_RESET_CODE }
}

/// What the writer waits for after an event, and what is to be done.
pub open spec fn writer_step(s: WriterView, e: WriterEventView) -> (WriterView, WriterActionView) {
    match (s, e) {
        (WriterView::Idle { open: true }, WriterEventView::Packet(p)) => (
            WriterView::Writing,
            WriterActionView::Write(framing::frame(p)),
        ),
        (WriterView::Idle { open: false }, WriterEventView::Packet(p)) => (
            WriterView::Opening { packet: p },
            WriterActionView::Open,
        ),
        (WriterView::Opening { packet }, WriterEventView::Opened) => (
            WriterView::Writing,
            WriterActionView::Write(framing::frame(packet)),
        ),
        (WriterView::Writing, WriterEventView::Written) => (
            WriterView::Idle { open: true },
            WriterActionView::ReportSentAndReceive,
        ),
        (WriterView::Writing, WriterEventView::WriteFailed) => (
            WriterView::Reopening,
            shed(ShedReason::WriteError),
        ),
        (WriterView::Writing, WriterEventView::WriteTimedOut) => (
            WriterView::Reopening,
            shed(ShedReason::WriteTimeout),
        ),
        (WriterView::Reopening, WriterEventView::Opened) => (
            WriterView::Idle { open: true },
            WriterActionView::Receive,
        ),
        _ => (WriterView::Ended, WriterActionView::Stop),
    }
}

impl UniStreamWriter {
    /// A writer that waits for its first packet: the stream is opened when that
    /// packet comes.
    pub fn new() -> (res: UniStreamWriter)
        ensures
            res@ == (WriterView::Idle { open: false }),
    {
        UniStreamWriter::Idle { open: false }
    }

    /// What the writer waits for after an event, and what is to be done.
    pub fn step(self, event: WriterEvent) -> (res: (UniStreamWriter, WriterAction))
        requires
            possible(self@, event@),
        ensures
            (res.0@, res.1@) == writer_step(self@, event@),
    {
        match (self, event) {
            (UniStreamWriter::Idle { open }, WriterEvent::Packet(p)) => if open {
                (UniStreamWriter::Writing, WriterAction::Write(framing::frame_packet(&p)))
            } else {
                (UniStreamWriter::Opening { packet: p }, WriterAction::Open)
            },
            (UniStreamWriter::Opening { packet }, WriterEvent::Opened) => (
                UniStreamWriter::Writing,
                WriterAction::Write(framing::frame_packet(&packet)),
            ),
            (UniStreamWriter::Writing, WriterEvent::Written) => (
                UniStreamWriter::Idle { open: true },
                WriterAction::ReportSentAndReceive,
            ),
            (UniStreamWriter::Writing, WriterEvent::WriteFailed) => (
                UniStreamWriter::Reopening,
                WriterAction::ShedAndReopen {
                    reason: ShedReason::WriteError,
                    code: UNISTREAM_SHED_RESET_CODE,
                },
            ),
            (UniStreamWriter::Writing, WriterEvent::WriteTimedOut) => (
                UniStreamWriter::Reopening,
                WriterAction::ShedAndReopen {
                    reason: ShedReason::WriteTimeout,
                    code: UNISTREAM_SHED_RESET_CODE,
                },
            ),
            (UniStreamWriter::Reopening, WriterEvent::Opened) => (
                UniStreamWriter::Idle { open: true },
                WriterAction::Receive,
            ),
            _ => (UniStreamWriter::Ended, WriterAction::Stop),
        }
    }
}

// ---------------------------------------------------------------------------
// Laws
// ---------------------------------------------------------------------------

/// What the writer waits for after some events, from its start.
pub open spec fn writer_after(events: Seq<WriterEventView>) -> WriterView
    decreases events.len(),
{
    if events.len() == 0 {
        WriterView::Idle { open: false }
    } else {
        writer_step(writer_after(events.drop_last()), events.last()).0
    }
}

/// Whether each event can come of what the writer waited for.
pub open spec fn possible_run(events: Seq<WriterEventView>) -> bool
    decreases events.len(),
{
    events.len() > 0 ==> possible_run(events.drop_last()) && possible(
        writer_after(events.drop_last()),
        events.last(),
    )
}

/// The packets that were taken off the channel.
pub open spec fn taken(events: Seq<WriterEventView>) -> Seq<Seq<u8>>
    decreases events.len(),
{
    if events.len() == 0 {
        Seq::empty()
    } else {
        match events.last() {
            WriterEventView::Packet(p) => taken(events.drop_last()).push(p),
            _ => taken(events.drop_last()),
        }
    }
}

/// The writes that were ordered, on whichever stream.
pub open spec fn writes(events: Seq<WriterEventView>) -> Seq<Seq<u8>>
    decreases events.len(),
{
    if events.len() == 0 {
        Seq::empty()
    } else {
        match writer_step(writer_after(events.drop_last()), events.last()).1 {
            WriterActionView::Write(b) => writes(events.drop_last()).push(b),
            _ => writes(events.drop_last()),
        }
    }
}

/// How many packets were reported as sent.
pub open spec fn reported(events: Seq<WriterEventView>) -> nat
    decreases events.len(),
{
    if events.len() == 0 {
        0
    } else {
        reported(events.drop_last()) + if writer_step(
            writer_after(events.drop_last()),
            events.last(),
        ).1 is ReportSentAndReceive {
            1nat
        } else {
            0nat
        }
    }
}

/// How many streams were reset.
pub open spec fn resets(events: Seq<WriterEventView>) -> nat
    decreases events.len(),
{
    if events.len() == 0 {
        0
    } else {
        resets(events.drop_last()) + if writer_step(
            writer_after(events.drop_last()),
            events.last(),
        ).1 is ShedAndReopen {
            1nat
        } else {
            0nat
        }
    }
}

/// The frame of each packet.
pub open spec fn framed(packets: Seq<Seq<u8>>) -> Seq<Seq<u8>> {
    Seq::new(packets.len(), |i: int| framing::frame(packets[i]))
}

/// Every write is the whole frame of a packet, and the packets are written in
/// the order in which they came, each once. Only the last one may be missing:
/// when the stream for it is not open yet, or could not be opened.
pub proof fn law_writes_are_the_packets_in_order(events: Seq<WriterEventView>)
    requires
        possible_run(events),
    ensures
        writes(events) == framed(taken(events)) || (taken(events).len() > 0 && writes(events)
            == framed(taken(events).drop_last()) && (writer_after(events) is Opening
            || writer_after(events) is Ended)),
        writer_after(events) matches WriterView::Opening { packet } ==> taken(events).len() > 0
            && packet == taken(events).last() && writes(events) == framed(
            taken(events).drop_last(),
        ),
    decreases events.len(),
{
    if events.len() > 0 {
        let before = events.drop_last();
        law_writes_are_the_packets_in_order(before);
        match events.last() {
            WriterEventView::Packet(p) => {
                let t = taken(before);
                assert(taken(events).drop_last() =~= t);
                assert(framed(t.push(p)) =~= framed(t).push(framing::frame(p)));
            },
            _ => {
                let t = taken(before);
                if t.len() > 0 {
                    assert(t.drop_last().push(t.last()) =~= t);
                    assert(framed(t) =~= framed(t.drop_last()).push(framing::frame(t.last())));
                }
            },
        }
    }
}

/// Every write has one of three fates: its packet was reported as sent, it was
/// shed with the stream that it was written to, or it is under way.
pub proof fn law_packets_are_sent_or_shed(events: Seq<WriterEventView>)
    requires
        possible_run(events),
    ensures
        writes(events).len() == reported(events) + resets(events) + if writer_after(
            events,
        ) is Writing {
            1nat
        } else {
            0nat
        },
    decreases events.len(),
{
    if events.len() > 0 {
        law_packets_are_sent_or_shed(events.drop_last());
    }
}

/// A broken stream and a stalled one are treated alike: the stream is reset, the
/// packet is not written again, and the fresh stream begins with the whole frame
/// of the next packet.
pub proof fn law_fresh_stream_starts_with_next_packet(failure: WriterEventView, next: Seq<u8>)
    requires
        failure is WriteFailed || failure is WriteTimedOut,
    ensures
        ({
            let (s1, a1) = writer_step(WriterView::Writing, failure);
            let (s2, a2) = writer_step(s1, WriterEventView::Opened);
            let (s3, a3) = writer_step(s2, WriterEventView::Packet(next));
            a1 is ShedAndReopen && a1->code != 0 && a2 is Receive && a3
                == WriterActionView::Write(framing::frame(next))
        }),
{
}

/// What arrives on a stream of whole frames, cut off by a reset anywhere, is the
/// beginning of what was written: the receiver never takes the middle of a frame
/// for the start of one.
pub proof fn law_reset_never_desynchronises(payloads: Seq<Seq<u8>>, n: int)
    requires
        forall|i: int| 0 <= i < payloads.len() ==> framing::framable(#[trigger] payloads[i]),
        0 <= n <= framing::frames(payloads).len(),
    ensures
        framing::decoded(framing::frames(payloads).take(n)).0.is_prefix_of(payloads),
{
    framing::law_frames_round_trip(payloads);
    framing::law_cut_stream_keeps_earlier_packets(framing::frames(payloads), n);
}

/// A packet is written as its frame, on the stream that is open, or on one that is
/// opened for it first. A channel that is closed, and a stream that cannot be opened,
/// end the writer.
pub proof fn law_packets_are_written(
    s: UniStreamWriter,
    event: WriterEvent,
    packet: &Vec<u8>,
    bytes: Vec<u8>,
    res: (UniStreamWriter, WriterAction),
)
    requires
        possible(s@, event@),
        packet@.len() <= u32::MAX,
        call_ensures(UniStreamWriter::step, (s, event), res),
        call_ensures(framing::frame_packet, (packet,), bytes),
    ensures
        s@ == (WriterView::Idle { open: true }) && event@ == WriterEventView::Packet(packet@)
            ==> res.0@ is Writing && res.1@ == WriterActionView::Write(bytes@),
        s@ == (WriterView::Idle { open: false }) && event@ == WriterEventView::Packet(packet@)
            ==> res.0@ == (WriterView::Opening { packet: packet@ }) && res.1@ is Open,
        s@ == (WriterView::Opening { packet: packet@ }) && event@ is Opened ==> res.0@ is Writing
            && res.1@ == WriterActionView::Write(bytes@),
        event@ is ChannelClosed || event@ is OpenFailed ==> res.0@ is Ended && res.1@ is Stop,
{
}

/// What becomes of a write: once it is done it is reported, and the stream stays open
/// for the next packet. One that failed or timed out is counted as such, the stream is
/// reset with code one, and the next packet is awaited on a fresh one.
pub proof fn law_what_becomes_of_a_write(
    s: UniStreamWriter,
    event: WriterEvent,
    res: (UniStreamWriter, WriterAction),
)
    requires
        possible(s@, event@),
        call_ensures(UniStreamWriter::step, (s, event), res),
    ensures
        event@ is Written ==> res.0@ == (WriterView::Idle { open: true })
            && res.1@ is ReportSentAndReceive,
        event@ is WriteFailed ==> res.0@ is Reopening && res.1@ == (
        WriterActionView::ShedAndReopen { reason: ShedReason::WriteError, code: 1u32 }),
        event@ is WriteTimedOut ==> res.0@ is Reopening && res.1@ == (
        WriterActionView::ShedAndReopen { reason: ShedReason::WriteTimeout, code: 1u32 }),
        s@ is Reopening && event@ is Opened ==> res.0@ == (WriterView::Idle { open: true })
            && res.1@ is Receive,
        res.1@ is Stop <==> res.0@ is Ended,
{
}

/// A fresh writer opens no stream before there is a packet.
pub proof fn law_fresh_writer(res: UniStreamWriter)
    requires
        call_ensures(UniStreamWriter::new, (), res),
    ensures
        res@ == (WriterView::Idle { open: false }),
{
}

/// The names in the metrics tell the reasons and the sources apart.
pub proof fn law_names_in_the_metrics(
    r: ShedReason,
    s: InboundSource,
    reason: &'static str,
    source: &'static str,
)
    requires
        call_ensures(ShedReason::label, (&r,), reason),
        call_ensures(InboundSource::label, (&s,), source),
    ensures
        reason@ == "write_error"@ <==> r is WriteError,
        reason@ == "write_timeout"@ <==> r is WriteTimeout,
        source@ == "unistream"@ <==> s is UniStream,
        source@ == "datagram"@ <==> s is Datagram,
{
    reveal_strlit("write_error");
    reveal_strlit("write_timeout");
    reveal_strlit("unistream");
    reveal_strlit("datagram");
    assert("write_error"@.len() != "write_timeout"@.len());
    assert("unistream"@.len() != "datagram"@.len());
}

} // verus!
