//! The packet pipe on a WebTransport stream: each packet travels as a frame of
//! a 4-byte big-endian length and that many bytes of payload.

use vstd::prelude::*;

verus! {

/// The longest payload that a frame may announce.
pub const MAX_FRAME_SIZE: usize = 4_000_000;

/// Why no frame could be read.
#[derive(Debug, Clone, Copy, PartialEq, Eq, Structural)]
pub enum FramedReadError {
    /// The announced length is zero or above [`MAX_FRAME_SIZE`].
    Malformed { len: usize },
    /// The stream ended inside a length.
    TruncatedHeader,
    /// The stream ended before the announced number of bytes arrived.
    TruncatedPayload { expected: usize },
}

/// Why the reading of a stream came to its end.
#[derive(Debug, Clone, Copy, PartialEq, Eq, Structural)]
pub enum TerminalStatus {
    CleanEof,
    TruncatedHeader,
    TruncatedPayload { expected: usize },
    Malformed { len: usize },
}

// ---------------------------------------------------------------------------
// The format
// ---------------------------------------------------------------------------

/// A length as four bytes, the most significant first.
pub open spec fn header(n: nat) -> Seq<u8> {
    seq![
        (n / 0x1000000 % 0x100) as u8,
        (n / 0x10000 % 0x100) as u8,
        (n / 0x100 % 0x100) as u8,
        (n % 0x100) as u8,
    ]
}

/// The length that four bytes announce.
pub open spec fn announced(b0: u8, b1: u8, b2: u8, b3: u8) -> nat {
    (b0 * 0x1000000 + b1 * 0x10000 + b2 * 0x100 + b3) as nat
}

/// The frame of one packet.
pub open spec fn frame(payload: Seq<u8>) -> Seq<u8> {
    header(payload.len()) + payload
}

/// The frames of some packets, one after the other.
pub open spec fn frames(payloads: Seq<Seq<u8>>) -> Seq<u8>
    decreases payloads.len(),
{
    if payloads.len() == 0 {
        Seq::empty()
    } else {
        frame(payloads[0]) + frames(payloads.skip(1))
    }
}

/// Whether a payload may travel in a frame.
pub open spec fn framable(payload: Seq<u8>) -> bool {
    0 < payload.len() <= MAX_FRAME_SIZE
}

/// What stands at the start of a stream with these bytes, to its end.
pub enum FrameAt {
    Frame(Seq<u8>),
    End,
    Fault(FramedReadError),
}

pub open spec fn frame_at(bytes: Seq<u8>) -> FrameAt {
    if bytes.len() == 0 {
        FrameAt::End
    } else if bytes.len() < 4 {
        FrameAt::Fault(FramedReadError::TruncatedHeader)
    } else {
        let len = announced(bytes[0], bytes[1], bytes[2], bytes[3]);
        if len == 0 || len > MAX_FRAME_SIZE {
            FrameAt::Fault(FramedReadError::Malformed { len: len as usize })
        } else if bytes.len() < 4 + len {
            FrameAt::Fault(FramedReadError::TruncatedPayload { expected: len as usize })
        } else {
            FrameAt::Frame(bytes.subrange(4, 4 + len as int))
        }
    }
}

/// The end that an error puts to a stream.
pub open spec fn status_of(e: FramedReadError) -> TerminalStatus {
    match e {
        FramedReadError::Malformed { len } => TerminalStatus::Malformed { len },
        FramedReadError::TruncatedHeader => TerminalStatus::TruncatedHeader,
        FramedReadError::TruncatedPayload { expected } => TerminalStatus::TruncatedPayload {
            expected,
        },
    }
}

/// The payloads on a stream with these bytes, up to its end or the first frame
/// that cannot be read, and why the reading ended.
pub open spec fn decoded(bytes: Seq<u8>) -> (Seq<Seq<u8>>, TerminalStatus)
    decreases bytes.len(),
{
    match frame_at(bytes) {
        FrameAt::Frame(p) => {
            let rest = decoded(bytes.skip(4 + p.len() as int));
            (seq![p] + rest.0, rest.1)
        },
        FrameAt::End => (Seq::empty(), TerminalStatus::CleanEof),
        FrameAt::Fault(e) => (Seq::empty(), status_of(e)),
    }
}

/// The length that four bytes announce.
fn announced_len(b0: u8, b1: u8, b2: u8, b3: u8) -> (len: u32)
    ensures
        len == announced(b0, b1, b2, b3),
{
    (b0 as u32) * 0x1000000 + (b1 as u32) * 0x10000 + (b2 as u32) * 0x100 + (b3 as u32)
}

/// The frame of one packet.
pub fn frame_packet(payload: &Vec<u8>) -> (res: Vec<u8>)
    requires
        payload@.len() <= u32::MAX,
    ensures
        res@ == frame(payload@),
{
    let n: usize = payload.len();
    let mut out: Vec<u8> = Vec::with_capacity(4);
    out.push((n / 0x1000000 % 0x100) as u8);
    out.push((n / 0x10000 % 0x100) as u8);
    out.push((n / 0x100 % 0x100) as u8);
    out.push((n % 0x100) as u8);
    assert(out@ =~= header(payload@.len()));
    let mut i: usize = 0;
    while i < n
        invariant
            i <= n,
            n == payload@.len(),
            out@ == header(payload@.len()) + payload@.take(i as int),
        decreases n - i,
    {
        out.push(payload[i]);
        assert(out@ =~= header(payload@.len()) + payload@.take(i + 1));
        i = i + 1;
    }
    assert(payload@.take(n as int) == payload@);
    out
}

// ---------------------------------------------------------------------------
// Reading one frame, step by step
// ---------------------------------------------------------------------------

/// How far the reading of a frame has come.
#[derive(Debug, Clone, Copy, PartialEq, Eq, Structural)]
pub enum FrameProgress {
    /// Nothing is read yet: an end of the stream here is a clean one.
    Start,
    /// The first byte of the length is read.
    Header { first: u8 },
    /// The length is read, and found to be in range.
    Payload { len: usize },
}

/// What is to be done after a read.
#[derive(Debug, PartialEq, Eq)]
pub enum FrameStep {
    /// Read as many bytes as [`FrameProgress::wanted`] says next.
    ReadMore(FrameProgress),
    /// A packet is complete; the next frame starts.
    Deliver(Vec<u8>),
    /// The peer closed the stream between two frames.
    Closed,
    /// The stream is to be abandoned.
    Abandon(FramedReadError),
}

/// The next step, as far as a contract speaks of it.
pub enum FrameStepView {
    ReadMore(FrameProgress),
    Deliver(Seq<u8>),
    Closed,
    Abandon(FramedReadError),
}

impl View for FrameStep {
    type V = FrameStepView;

    open spec fn view(&self) -> FrameStepView {
        match self {
            FrameStep::ReadMore(p) => FrameStepView::ReadMore(*p),
            FrameStep::Deliver(v) => FrameStepView::Deliver(v@),
            FrameStep::Closed => FrameStepView::Closed,
            FrameStep::Abandon(e) => FrameStepView::Abandon(*e),
        }
    }
}

/// How many bytes are to be read next.
pub open spec fn wanted_bytes(p: FrameProgress) -> nat {
    match p {
        FrameProgress::Start => 1,
        FrameProgress::Header { .. } => 3,
        FrameProgress::Payload { len } => len as nat,
    }
}

/// The step after a read of the wanted bytes, or after the stream ended first.
pub open spec fn next_step(p: FrameProgress, read: Option<Seq<u8>>) -> FrameStepView {
    match (p, read) {
        (FrameProgress::Start, None) => FrameStepView::Closed,
        (FrameProgress::Header { .. }, None) => FrameStepView::Abandon(
            FramedReadError::TruncatedHeader,
        ),
        (FrameProgress::Payload { len }, None) => FrameStepView::Abandon(
            FramedReadError::TruncatedPayload { expected: len },
        ),
        (FrameProgress::Start, Some(b)) => FrameStepView::ReadMore(
            FrameProgress::Header { first: b[0] },
        ),
        (FrameProgress::Header { first }, Some(b)) => {
            let len = announced(first, b[0], b[1], b[2]);
            if len == 0 || len > MAX_FRAME_SIZE {
                FrameStepView::Abandon(FramedReadError::Malformed { len: len as usize })
            } else {
                FrameStepView::ReadMore(FrameProgress::Payload { len: len as usize })
            }
        },
        (FrameProgress::Payload { .. }, Some(b)) => FrameStepView::Deliver(b),
    }
}

impl FrameProgress {
    /// How many bytes are to be read next.
    pub fn wanted(&self) -> (n: usize)
        ensures
            n == wanted_bytes(*self),
    {
        match *self {
            FrameProgress::Start => 1,
            FrameProgress::Header { .. } => 3,
            FrameProgress::Payload { len } => len,
        }
    }

    /// The step after a read: `read` holds the wanted bytes, or nothing when the
    /// stream ended before all of them arrived.
    pub fn advance(self, read: Option<Vec<u8>>) -> (step: FrameStep)
        requires
            read matches Some(b) ==> b@.len() == wanted_bytes(self),
        ensures
            match read {
                Some(b) => step@ == next_step(self, Some(b@)),
                None => step@ == next_step(self, None),
            },
    {
        match read {
            None => match self {
                FrameProgress::Start => FrameStep::Closed,
                FrameProgress::Header { .. } => FrameStep::Abandon(
                    FramedReadError::TruncatedHeader,
                ),
                FrameProgress::Payload { len } => FrameStep::Abandon(
                    FramedReadError::TruncatedPayload { expected: len },
                ),
            },
            Some(b) => match self {
                FrameProgress::Start => FrameStep::ReadMore(FrameProgress::Header { first: b[0] }),
                FrameProgress::Header { first } => {
                    let len: usize = announced_len(first, b[0], b[1], b[2]) as usize;
                    if len == 0 || len > MAX_FRAME_SIZE {
                        FrameStep::Abandon(FramedReadError::Malformed { len })
                    } else {
                        FrameStep::ReadMore(FrameProgress::Payload { len })
                    }
                },
                FrameProgress::Payload { .. } => FrameStep::Deliver(b),
            },
        }
    }
}

// ---------------------------------------------------------------------------
// Reading from bytes at hand
// ---------------------------------------------------------------------------

/// A stream whose bytes are all at hand.
pub struct BytesCursor {
    buf: Vec<u8>,
    pos: usize,
}

impl View for BytesCursor {
    type V = Seq<u8>;

    /// The bytes that are still to be read.
    closed spec fn view(&self) -> Seq<u8> {
        self.buf@.skip(self.pos as int)
    }
}

impl BytesCursor {
    #[verifier::type_invariant]
    spec fn in_range(self) -> bool {
        self.pos <= self.buf@.len()
    }

    pub fn new(buf: Vec<u8>) -> (res: BytesCursor)
        ensures
            res@ == buf@,
    {
        assert(buf@.skip(0) == buf@);
        BytesCursor { buf, pos: 0 }
    }

    /// The next `n` bytes; where fewer are left, nothing, and none is taken.
    pub fn read_exact(&mut self, n: usize) -> (res: Option<Vec<u8>>)
        ensures
            match res {
                Some(b) => n <= old(self)@.len() && b@ == old(self)@.take(n as int)
                    && final(self)@ == old(self)@.skip(n as int),
                None => n > old(self)@.len() && final(self)@ == old(self)@,
            },
    {
        proof {
            use_type_invariant(&*self);
        }
        if self.buf.len() - self.pos < n {
            return None;
        }
        let mut out: Vec<u8> = Vec::new();
        let mut i: usize = 0;
        let total: usize = self.buf.len();
        let ghost all = self.buf@;
        let ghost start = self.pos as int;
        while i < n
            invariant
                i <= n,
                self.buf@ == all,
                self.pos == start,
                start + n <= all.len(),
                total == all.len(),
                out@ == all.skip(start).take(i as int),
            decreases n - i,
        {
            out.push(self.buf[self.pos + i]);
            assert(out@ =~= all.skip(start).take(i + 1));
            i = i + 1;
        }
        self.pos = self.pos + n;
        assert(all.skip(start).skip(n as int) =~= all.skip(start + n));
        Some(out)
    }
}

/// What is left of a stream after one frame was read off its start.
pub open spec fn after_frame(bytes: Seq<u8>) -> Seq<u8> {
    match frame_at(bytes) {
        FrameAt::Frame(p) => bytes.skip(4 + p.len() as int),
        FrameAt::End => bytes,
        FrameAt::Fault(FramedReadError::TruncatedHeader) => bytes.skip(1),
        FrameAt::Fault(_) => bytes.skip(4),
    }
}

/// Reads one frame: its payload, nothing at a clean end of the stream, or why
/// the stream is to be abandoned.
pub fn read_length_prefixed_frame(stream: &mut BytesCursor) -> (res: Result<
    Option<Vec<u8>>,
    FramedReadError,
>)
    ensures
        match res {
            Ok(Some(p)) => frame_at(old(stream)@) == FrameAt::Frame(p@),
            Ok(None) => frame_at(old(stream)@) == FrameAt::End,
            Err(e) => frame_at(old(stream)@) == FrameAt::Fault(e),
        },
        final(stream)@ == after_frame(old(stream)@),
{
    let ghost bytes = stream@;
    let mut progress = FrameProgress::Start;
    loop
        invariant
            bytes == old(stream)@,
            reading(bytes, progress, stream@),
        decreases steps_left(progress),
    {
        let ghost now = progress;
        let read = stream.read_exact(progress.wanted());
        proof {
            if now is Header && bytes.len() >= 4 {
                assert(bytes.skip(1).skip(3) =~= bytes.skip(4));
            }
            if let FrameProgress::Payload { len } = now {
                if len <= bytes.len() - 4 {
                    assert(bytes.skip(4).skip(len as int) =~= bytes.skip(4 + len));
                    assert(bytes.skip(4).take(len as int) =~= bytes.subrange(4, 4 + len));
                }
            }
        }
        match progress.advance(read) {
            FrameStep::ReadMore(next) => {
                progress = next;
            },
            FrameStep::Deliver(p) => {
                return Ok(Some(p));
            },
            FrameStep::Closed => {
                return Ok(None);
            },
            FrameStep::Abandon(e) => {
                return Err(e);
            },
        }
    }
}

/// Where the reading of the frame at the start of `bytes` stands, with `left`
/// still to be read.
spec fn reading(bytes: Seq<u8>, p: FrameProgress, left: Seq<u8>) -> bool {
    match p {
        FrameProgress::Start => left == bytes,
        FrameProgress::Header { first } => bytes.len() >= 1 && first == bytes[0] && left
            == bytes.skip(1),
        FrameProgress::Payload { len } => bytes.len() >= 4 && left == bytes.skip(4) && 0 < len
            <= MAX_FRAME_SIZE && len == announced(bytes[0], bytes[1], bytes[2], bytes[3]),
    }
}

spec fn steps_left(p: FrameProgress) -> nat {
    match p {
        FrameProgress::Start => 2,
        FrameProgress::Header { .. } => 1,
        FrameProgress::Payload { .. } => 0,
    }
}

/// The bytes of each packet.
pub open spec fn contents(packets: Seq<Vec<u8>>) -> Seq<Seq<u8>> {
    Seq::new(packets.len(), |i: int| packets[i]@)
}

/// Reads frames until the stream ends or a frame cannot be read. The payloads
/// that came before are kept.
pub fn decode_frames(buf: Vec<u8>) -> (res: (Vec<Vec<u8>>, TerminalStatus))
    ensures
        contents(res.0@) == decoded(buf@).0,
        res.1 == decoded(buf@).1,
{
    let ghost bytes = buf@;
    let mut stream = BytesCursor::new(buf);
    let mut payloads: Vec<Vec<u8>> = Vec::new();
    assert(contents(payloads@) =~= Seq::<Seq<u8>>::empty());
    assert(Seq::<Seq<u8>>::empty() + decoded(bytes).0 =~= decoded(bytes).0);
    loop
        invariant
            contents(payloads@) + decoded(stream@).0 == decoded(bytes).0,
            decoded(stream@).1 == decoded(bytes).1,
            bytes == buf@,
        decreases stream@.len(),
    {
        let ghost before = stream@;
        let ghost had = contents(payloads@);
        match read_length_prefixed_frame(&mut stream) {
            Ok(Some(p)) => {
                let ghost view = p@;
                payloads.push(p);
                proof {
                    assert(contents(payloads@) =~= had.push(view));
                    assert(contents(payloads@) + decoded(stream@).0 =~= had + (seq![view]
                        + decoded(stream@).0));
                }
            },
            Ok(None) => {
                assert(contents(payloads@) + Seq::<Seq<u8>>::empty() =~= contents(payloads@));
                return (payloads, TerminalStatus::CleanEof);
            },
            Err(e) => {
                assert(contents(payloads@) + Seq::<Seq<u8>>::empty() =~= contents(payloads@));
                let status = match e {
                    FramedReadError::Malformed { len } => TerminalStatus::Malformed { len },
                    FramedReadError::TruncatedHeader => TerminalStatus::TruncatedHeader,
                    FramedReadError::TruncatedPayload {
                        expected,
                    } => TerminalStatus::TruncatedPayload { expected },
                };
                return (payloads, status);
            },
        }
    }
}

// ---------------------------------------------------------------------------
// Laws
// ---------------------------------------------------------------------------

proof fn lemma_header(n: nat)
    requires
        n <= u32::MAX,
    ensures
        header(n).len() == 4,
        announced(header(n)[0], header(n)[1], header(n)[2], header(n)[3]) == n,
{
    let a = n / 0x1000000;
    let b = n / 0x10000;
    let c = n / 0x100;
    assert(a < 0x100);
    assert(b == a * 0x100 + b % 0x100);
    assert(c == b * 0x100 + c % 0x100);
    assert(n == c * 0x100 + n % 0x100);
}

/// A frame that is followed by anything is read as its payload, and leaves what
/// follows.
pub proof fn law_frame_is_read_back(payload: Seq<u8>, tail: Seq<u8>)
    requires
        framable(payload),
    ensures
        frame_at(frame(payload) + tail) == FrameAt::Frame(payload),
        after_frame(frame(payload) + tail) == tail,
{
    lemma_header(payload.len());
    let bytes = frame(payload) + tail;
    assert(bytes[0] == header(payload.len())[0]);
    assert(bytes[1] == header(payload.len())[1]);
    assert(bytes[2] == header(payload.len())[2]);
    assert(bytes[3] == header(payload.len())[3]);
    assert(bytes.subrange(4, 4 + payload.len() as int) =~= payload);
    assert(bytes.skip(4 + payload.len() as int) =~= tail);
}

/// Whatever follows them on the stream, well or badly formed: packets that were
/// framed are read back in their order, and the rest is read as if it stood alone.
pub proof fn law_good_frames_survive(payloads: Seq<Seq<u8>>, tail: Seq<u8>)
    requires
        forall|i: int| 0 <= i < payloads.len() ==> framable(#[trigger] payloads[i]),
    ensures
        decoded(frames(payloads) + tail) == (payloads + decoded(tail).0, decoded(tail).1),
    decreases payloads.len(),
{
    if payloads.len() == 0 {
        assert(frames(payloads) + tail =~= tail);
        assert(payloads + decoded(tail).0 =~= decoded(tail).0);
    } else {
        let first = payloads[0];
        let rest = payloads.skip(1);
        let bytes = frames(payloads) + tail;
        assert(bytes =~= frame(first) + (frames(rest) + tail));
        law_frame_is_read_back(first, frames(rest) + tail);
        assert forall|i: int| 0 <= i < rest.len() implies framable(#[trigger] rest[i]) by {
            assert(rest[i] == payloads[i + 1]);
        }
        law_good_frames_survive(rest, tail);
        assert(payloads =~= seq![first] + rest);
        assert(seq![first] + (rest + decoded(tail).0) =~= payloads + decoded(tail).0);
    }
}

/// Packets that were framed one after the other are read back in their order,
/// and the stream ends cleanly.
pub proof fn law_frames_round_trip(payloads: Seq<Seq<u8>>)
    requires
        forall|i: int| 0 <= i < payloads.len() ==> framable(#[trigger] payloads[i]),
    ensures
        decoded(frames(payloads)) == (payloads, TerminalStatus::CleanEof),
{
    law_good_frames_survive(payloads, Seq::empty());
    assert(frames(payloads) + Seq::<u8>::empty() =~= frames(payloads));
    assert(payloads + Seq::<Seq<u8>>::empty() =~= payloads);
}

/// Every payload that is read off a stream has between one and
/// [`MAX_FRAME_SIZE`] bytes.
pub proof fn law_decoded_payloads_are_framable(bytes: Seq<u8>)
    ensures
        forall|i: int| 0 <= i < decoded(bytes).0.len() ==> framable(#[trigger] decoded(bytes).0[i]),
    decreases bytes.len(),
{
    if let FrameAt::Frame(p) = frame_at(bytes) {
        let rest = decoded(bytes.skip(4 + p.len() as int)).0;
        law_decoded_payloads_are_framable(bytes.skip(4 + p.len() as int));
        assert forall|i: int| 0 <= i < decoded(bytes).0.len() implies framable(
            #[trigger] decoded(bytes).0[i],
        ) by {
            if i > 0 {
                assert(decoded(bytes).0[i] == rest[i - 1]);
            }
        }
    }
}

/// Nothing is lost or made up in reading: the frames of the payloads stand at
/// the start of the stream, and reading stopped at what follows them.
pub proof fn law_decoding_is_faithful(bytes: Seq<u8>) -> (tail: Seq<u8>)
    ensures
        bytes == frames(decoded(bytes).0) + tail,
        decoded(tail) == (Seq::<Seq<u8>>::empty(), decoded(bytes).1),
    decreases bytes.len(),
{
    match frame_at(bytes) {
        FrameAt::Frame(p) => {
            let left = bytes.skip(4 + p.len() as int);
            let tail = law_decoding_is_faithful(left);
            lemma_header_of_announced(bytes[0], bytes[1], bytes[2], bytes[3]);
            assert(bytes =~= frame(p) + left);
            let all = decoded(bytes).0;
            assert(all.skip(1) =~= decoded(left).0);
            assert(bytes =~= frames(all) + tail);
            tail
        },
        _ => {
            assert(bytes =~= frames(Seq::empty()) + bytes);
            bytes
        },
    }
}

proof fn lemma_header_of_announced(b0: u8, b1: u8, b2: u8, b3: u8)
    ensures
        header(announced(b0, b1, b2, b3)) == seq![b0, b1, b2, b3],
{
    let n = announced(b0, b1, b2, b3);
    assert(n / 0x100 == b0 * 0x10000 + b1 * 0x100 + b2);
    assert(n / 0x10000 == b0 * 0x100 + b1);
    assert(n / 0x1000000 == b0);
    assert(header(n) =~= seq![b0, b1, b2, b3]);
}

/// A stream that is cut off anywhere loses only packets at its end: what is read
/// of the part that arrived is the beginning of what was sent.
pub proof fn law_cut_stream_keeps_earlier_packets(bytes: Seq<u8>, n: int)
    requires
        0 <= n <= bytes.len(),
    ensures
        decoded(bytes.take(n)).0.is_prefix_of(decoded(bytes).0),
    decreases bytes.len(),
{
    let part = bytes.take(n);
    if let FrameAt::Frame(p) = frame_at(part) {
        let used = 4 + p.len() as int;
        assert(bytes[0] == part[0] && bytes[1] == part[1] && bytes[2] == part[2] && bytes[3]
            == part[3]);
        assert(part.subrange(4, used) =~= bytes.subrange(4, used));
        assert(frame_at(bytes) == FrameAt::Frame(p));
        assert(part.skip(used) =~= bytes.skip(used).take(n - used));
        law_cut_stream_keeps_earlier_packets(bytes.skip(used), n - used);
        let a = decoded(part.skip(used)).0;
        let b = decoded(bytes.skip(used)).0;
        assert(decoded(part).0 == seq![p] + a);
        assert(decoded(bytes).0 == seq![p] + b);
        assert((seq![p] + a).is_prefix_of(seq![p] + b)) by {
            assert(a == b.subrange(0, a.len() as int));
            assert((seq![p] + b).subrange(0, (seq![p] + a).len() as int) =~= seq![p] + a);
        }
    } else {
        assert(decoded(part).0 =~= decoded(bytes).0.subrange(0, 0));
    }
}

/// Whether four bytes are a number, the most significant byte first.
pub open spec fn big_endian(b: Seq<u8>, n: int) -> bool {
    b.len() == 4 && n == b[0] * 16777216 + b[1] * 65536 + b[2] * 256 + b[3]
}

/// A frame is the length of its payload in four bytes, the most significant first, and
/// then the payload.
pub proof fn law_frame_on_the_wire(payload: &Vec<u8>, res: Vec<u8>)
    requires
        payload@.len() <= u32::MAX,
        call_ensures(frame_packet, (payload,), res),
    ensures
        res@.len() == 4 + payload@.len(),
        big_endian(res@.take(4), payload@.len() as int),
        res@.skip(4) == payload@,
{
    lemma_header(payload@.len());
    assert(res@.take(4) =~= header(payload@.len()));
    assert(res@.skip(4) =~= payload@);
}

/// What is read at the start of a stream: the payload that is announced, if between one
/// and four million bytes are and they are there, and nothing beyond it is taken. Any
/// other announcement, and a stream that ends within a frame, is a fault that tells
/// what was announced; one that ends between two frames has ended.
pub proof fn law_one_frame_is_read(
    stream: &mut BytesCursor,
    head: Seq<u8>,
    n: int,
    rest: Seq<u8>,
    res: Result<Option<Vec<u8>>, FramedReadError>,
)
    requires
        call_ensures(read_length_prefixed_frame, (stream,), res),
        big_endian(head, n),
    ensures
        old(stream)@.len() == 0 <==> res is Ok && res->Ok_0 is None,
        0 < old(stream)@.len() < 4 <==> res == Err::<Option<Vec<u8>>, FramedReadError>(
            FramedReadError::TruncatedHeader,
        ),
        old(stream)@ == head + rest ==> {
            &&& n == 0 || n > 4_000_000 ==> res == Err::<Option<Vec<u8>>, FramedReadError>(
                FramedReadError::Malformed { len: n as usize },
            )
            &&& 0 < n <= 4_000_000 && rest.len() < n ==> res == Err::<
                Option<Vec<u8>>,
                FramedReadError,
            >(FramedReadError::TruncatedPayload { expected: n as usize })
            &&& 0 < n <= 4_000_000 && rest.len() >= n ==> res is Ok && res->Ok_0 is Some
                && res->Ok_0->0@ == rest.take(n) && final(stream)@ == rest.skip(n)
        },
{
    let bytes = old(stream)@;
    if bytes == head + rest {
        assert(bytes[0] == head[0] && bytes[1] == head[1] && bytes[2] == head[2] && bytes[3]
            == head[3]);
        assert(announced(head[0], head[1], head[2], head[3]) == n);
        if 0 < n <= 4_000_000 && rest.len() >= n {
            assert(bytes.subrange(4, 4 + n) =~= rest.take(n));
            assert(bytes.skip(4 + n) =~= rest.skip(n));
        }
    }
}

/// The payloads of a stream are the first, and then those of what follows it, with the
/// end of that. A stream whose first frame cannot be read has none, and ends as that
/// frame does.
pub proof fn law_frames_are_read_in_turn(
    buf: Vec<u8>,
    stream: &mut BytesCursor,
    first: Result<Option<Vec<u8>>, FramedReadError>,
    later: Vec<u8>,
    others: (Vec<Vec<u8>>, TerminalStatus),
    res: (Vec<Vec<u8>>, TerminalStatus),
)
    requires
        call_ensures(decode_frames, (buf,), res),
        old(stream)@ == buf@,
        call_ensures(read_length_prefixed_frame, (stream,), first),
        later@ == final(stream)@,
        call_ensures(decode_frames, (later,), others),
    ensures
        match first {
            Ok(Some(p)) => {
                &&& res.0@.len() == others.0@.len() + 1
                &&& res.0@[0]@ == p@
                &&& forall|i: int|
                    0 <= i < others.0@.len() ==> (#[trigger] others.0@[i])@ == res.0@[i + 1]@
                &&& res.1 == others.1
            },
            Ok(None) => res.0@.len() == 0 && res.1 is CleanEof,
            Err(FramedReadError::TruncatedHeader) => res.0@.len() == 0 && res.1 is TruncatedHeader,
            Err(FramedReadError::TruncatedPayload { expected }) => res.0@.len() == 0 && res.1 == (
            TerminalStatus::TruncatedPayload { expected }),
            Err(FramedReadError::Malformed { len }) => res.0@.len() == 0 && res.1 == (
            TerminalStatus::Malformed { len }),
        },
{
    let all = contents(res.0@);
    assert(all.len() == res.0@.len());
    if let Ok(Some(p)) = first {
        let rest = contents(others.0@);
        assert(rest.len() == others.0@.len());
        assert(all == seq![p@] + rest);
        assert(all[0] == res.0@[0]@);
        assert forall|i: int| 0 <= i < others.0@.len() implies (#[trigger] others.0@[i])@ == res.0@[
            i + 1]@ by {
            assert(rest[i] == others.0@[i]@);
            assert(all[i + 1] == rest[i]);
            assert(all[i + 1] == res.0@[i + 1]@);
        }
    }
}

/// Bytes at hand are read from their start: as many as are asked for, or none where
/// there are fewer; what was not read stays.
pub proof fn law_bytes_at_hand(s: &mut BytesCursor, n: usize, res: Option<Vec<u8>>)
    requires
        call_ensures(BytesCursor::read_exact, (s, n), res),
    ensures
        res is Some <==> old(s)@.len() >= n,
        res matches Some(b) ==> b@.len() == n && b@ + final(s)@ == old(s)@,
        res is None ==> final(s)@ == old(s)@,
{
    if let Some(b) = res {
        assert(b@ + final(s)@ =~= old(s)@);
    }
}

/// One byte is read first, then the other three of the length, then the payload. A
/// stream that ends before the first byte is closed; one that ends later is abandoned.
pub proof fn law_reading_step_by_step(
    p: FrameProgress,
    read: Option<Vec<u8>>,
    wanted: usize,
    n: int,
    step: FrameStep,
)
    requires
        call_ensures(FrameProgress::wanted, (&p,), wanted),
        read matches Some(b) ==> b@.len() == wanted,
        call_ensures(FrameProgress::advance, (p, read), step),
    ensures
        p is Start ==> wanted == 1,
        p is Header ==> wanted == 3,
        p matches FrameProgress::Payload { len } ==> wanted == len,
        p is Start && read is None ==> step@ is Closed,
        p is Header && read is None ==> step@ == FrameStepView::Abandon(
            FramedReadError::TruncatedHeader,
        ),
        p is Payload && read is None ==> step@ == FrameStepView::Abandon(
            FramedReadError::TruncatedPayload { expected: wanted },
        ),
        p is Start && read is Some ==> step@ == FrameStepView::ReadMore(
            FrameProgress::Header { first: read->0@[0] },
        ),
        p is Payload && read is Some ==> step@ == FrameStepView::Deliver(read->0@),
        p matches FrameProgress::Header { first } ==> (read is Some && big_endian(
            seq![first] + read->0@,
            n,
        ) ==> step@ == if 0 < n <= 4_000_000 {
            FrameStepView::ReadMore(FrameProgress::Payload { len: n as usize })
        } else {
            FrameStepView::Abandon(FramedReadError::Malformed { len: n as usize })
        }),
{
    if let FrameProgress::Header { first } = p {
        if read is Some {
            let all = seq![first] + read->0@;
            assert(all[0] == first && all[1] == read->0@[0] && all[2] == read->0@[1] && all[3]
                == read->0@[2]);
        }
    }
}

} // verus!
