use videocall::framing::{
    decode_frames, frame_packet, read_length_prefixed_frame, BytesCursor, FrameProgress, FrameStep,
    FramedReadError, TerminalStatus, MAX_FRAME_SIZE,
};
use videocall::stream_writer::{
    InboundSource, ShedReason, UniStreamWriter, WriterAction, WriterEvent, TRANSPORT_LABEL,
    UNISTREAM_SHED_RESET_CODE,
};

fn decode_frames_from_bytes(buf: &[u8]) -> (Vec<Vec<u8>>, TerminalStatus) {
    decode_frames(buf.to_vec())
}

fn build_framed(payloads: &[&[u8]]) -> Vec<u8> {
    let mut out = Vec::new();
    for p in payloads {
        let len = (p.len() as u32).to_be_bytes();
        out.extend_from_slice(&len);
        out.extend_from_slice(p);
    }
    out
}

#[test]
fn decodes_single_frame() {
    let payload = b"hello".as_slice();
    let bytes = build_framed(&[payload]);
    let (frames, status) = decode_frames_from_bytes(&bytes);
    assert_eq!(frames, vec![payload.to_vec()]);
    assert_eq!(status, TerminalStatus::CleanEof);
}

#[test]
fn decodes_multiple_frames_in_order() {
    let p1 = b"audio-frame-1".as_slice();
    let p2 = b"x".as_slice();
    let p3 = vec![0xAB; 1024];
    let p4 = b"final".as_slice();
    let bytes = build_framed(&[p1, p2, &p3, p4]);
    let (frames, status) = decode_frames_from_bytes(&bytes);
    assert_eq!(
        frames,
        vec![p1.to_vec(), p2.to_vec(), p3.clone(), p4.to_vec()]
    );
    assert_eq!(status, TerminalStatus::CleanEof);
}

#[test]
fn decodes_varied_payload_sizes() {
    let mut buf = Vec::new();
    let mut expected = Vec::new();
    for i in 0..16 {
        let size = match i % 4 {
            0 => 80,
            1 => 1500,
            2 => 50_000,
            _ => 1,
        };
        let payload: Vec<u8> = (0..size).map(|j| ((i * 31 + j) % 251) as u8).collect();
        let len = (payload.len() as u32).to_be_bytes();
        buf.extend_from_slice(&len);
        buf.extend_from_slice(&payload);
        expected.push(payload);
    }
    let (frames, status) = decode_frames_from_bytes(&buf);
    assert_eq!(
        frames,
        expected,
        "all {} frames must decode in order",
        expected.len()
    );
    assert_eq!(status, TerminalStatus::CleanEof);
}

#[test]
fn decodes_empty_byte_stream_as_clean_eof() {
    let (frames, status) = decode_frames_from_bytes(&[]);
    assert!(frames.is_empty());
    assert_eq!(status, TerminalStatus::CleanEof);
}

#[test]
fn rejects_payload_length_above_max_frame_size() {
    let too_large: u32 = 5_000_000;
    let bytes = too_large.to_be_bytes().to_vec();
    let (frames, status) = decode_frames_from_bytes(&bytes);
    assert!(
        frames.is_empty(),
        "no frames should be returned before the malformed header"
    );
    assert_eq!(
        status,
        TerminalStatus::Malformed {
            len: too_large as usize
        }
    );
}

#[test]
fn rejects_max_frame_size_plus_one() {
    let oversize: u32 = (MAX_FRAME_SIZE + 1) as u32;
    let bytes = oversize.to_be_bytes().to_vec();
    let (frames, status) = decode_frames_from_bytes(&bytes);
    assert!(frames.is_empty());
    assert_eq!(
        status,
        TerminalStatus::Malformed {
            len: oversize as usize
        }
    );
}

#[test]
fn rejects_zero_length_payload() {
    let bytes = 0u32.to_be_bytes().to_vec();
    let (frames, status) = decode_frames_from_bytes(&bytes);
    assert!(frames.is_empty());
    assert_eq!(status, TerminalStatus::Malformed { len: 0 });
}

#[test]
fn rejects_truncated_header() {
    let bytes = vec![0u8, 0u8, 0u8];
    let (frames, status) = decode_frames_from_bytes(&bytes);
    assert!(frames.is_empty());
    assert_eq!(status, TerminalStatus::TruncatedHeader);
}

#[test]
fn rejects_truncated_payload() {
    let mut bytes = 10u32.to_be_bytes().to_vec();
    bytes.extend_from_slice(b"hello");
    let (frames, status) = decode_frames_from_bytes(&bytes);
    assert!(frames.is_empty());
    assert_eq!(status, TerminalStatus::TruncatedPayload { expected: 10 });
}

#[test]
fn good_frame_then_malformed_returns_good_frame_and_stops() {
    let mut bytes = build_framed(&[b"good-frame".as_slice()]);
    bytes.extend_from_slice(&(MAX_FRAME_SIZE as u32 + 1).to_be_bytes());
    let (frames, status) = decode_frames_from_bytes(&bytes);
    assert_eq!(frames, vec![b"good-frame".to_vec()]);
    assert!(matches!(status, TerminalStatus::Malformed { .. }));
}

#[test]
fn good_frame_then_truncated_returns_good_frame_and_stops() {
    let mut bytes = build_framed(&[b"frame-a".as_slice()]);
    bytes.extend_from_slice(&100u32.to_be_bytes());
    let (frames, status) = decode_frames_from_bytes(&bytes);
    assert_eq!(frames, vec![b"frame-a".to_vec()]);
    assert_eq!(status, TerminalStatus::TruncatedPayload { expected: 100 });
}

#[test]
fn at_max_frame_size_payload_is_accepted() {
    let len = MAX_FRAME_SIZE;
    let payload = vec![0xAAu8; len];
    let mut bytes = (len as u32).to_be_bytes().to_vec();
    bytes.extend_from_slice(&payload);
    let (frames, status) = decode_frames_from_bytes(&bytes);
    assert_eq!(frames.len(), 1);
    assert_eq!(frames[0].len(), len);
    assert_eq!(status, TerminalStatus::CleanEof);
}

#[test]
fn a_frame_is_a_big_endian_length_and_the_payload() {
    assert_eq!(frame_packet(&b"abc".to_vec()), vec![0, 0, 0, 3, b'a', b'b', b'c']);
    let long = vec![7u8; 0x01_02_03];
    let framed = frame_packet(&long);
    assert_eq!(&framed[..4], &[0, 1, 2, 3]);
    assert_eq!(&framed[4..], &long[..]);
    assert_eq!(frame_packet(&Vec::new()), vec![0, 0, 0, 0]);
}

#[test]
fn frames_of_packets_are_read_back() {
    let packets = vec![vec![1u8], vec![2u8; 300], b"third".to_vec()];
    let mut stream = Vec::new();
    for p in &packets {
        stream.extend_from_slice(&frame_packet(p));
    }
    assert_eq!(decode_frames(stream), (packets, TerminalStatus::CleanEof));
}

#[test]
fn a_cut_stream_loses_only_the_packets_at_its_end() {
    let stream = build_framed(&[b"one".as_slice(), b"two".as_slice(), b"three".as_slice()]);
    let all = decode_frames(stream.clone()).0;
    for n in 0..stream.len() {
        let part = decode_frames(stream[..n].to_vec()).0;
        assert!(part.len() <= all.len());
        assert_eq!(part[..], all[..part.len()]);
    }
}

#[test]
fn reading_goes_step_by_step() {
    let start = FrameProgress::Start;
    assert_eq!(start.wanted(), 1);
    assert_eq!(start.advance(None), FrameStep::Closed);
    let header = match start.advance(Some(vec![0])) {
        FrameStep::ReadMore(p) => p,
        other => panic!("unexpected {:?}", other),
    };
    assert_eq!(header.wanted(), 3);
    assert_eq!(
        header.advance(None),
        FrameStep::Abandon(FramedReadError::TruncatedHeader)
    );
    assert_eq!(
        header.advance(Some(vec![0, 0, 0])),
        FrameStep::Abandon(FramedReadError::Malformed { len: 0 })
    );
    let payload = match header.advance(Some(vec![0, 0, 2])) {
        FrameStep::ReadMore(p) => p,
        other => panic!("unexpected {:?}", other),
    };
    assert_eq!(payload.wanted(), 2);
    assert_eq!(
        payload.advance(None),
        FrameStep::Abandon(FramedReadError::TruncatedPayload { expected: 2 })
    );
    assert_eq!(
        payload.advance(Some(vec![8, 9])),
        FrameStep::Deliver(vec![8, 9])
    );
}

#[test]
fn one_frame_at_a_time_is_read_from_bytes() {
    let mut cursor = BytesCursor::new(build_framed(&[b"a".as_slice(), b"bc".as_slice()]));
    assert_eq!(read_length_prefixed_frame(&mut cursor), Ok(Some(b"a".to_vec())));
    assert_eq!(read_length_prefixed_frame(&mut cursor), Ok(Some(b"bc".to_vec())));
    assert_eq!(read_length_prefixed_frame(&mut cursor), Ok(None));
}

#[test]
fn the_stream_is_opened_for_the_first_packet() {
    let writer = UniStreamWriter::new();
    let (writer, action) = writer.step(WriterEvent::Packet(b"p1".to_vec()));
    assert_eq!(action, WriterAction::Open);
    let (writer, action) = writer.step(WriterEvent::Opened);
    assert_eq!(action, WriterAction::Write(frame_packet(&b"p1".to_vec())));
    let (writer, action) = writer.step(WriterEvent::Written);
    assert_eq!(action, WriterAction::ReportSentAndReceive);
    let (writer, action) = writer.step(WriterEvent::Packet(b"p2".to_vec()));
    assert_eq!(action, WriterAction::Write(frame_packet(&b"p2".to_vec())));
    let (writer, _) = writer.step(WriterEvent::Written);
    let (writer, action) = writer.step(WriterEvent::ChannelClosed);
    assert_eq!(action, WriterAction::Stop);
    assert_eq!(writer, UniStreamWriter::Ended);
}

#[test]
fn a_stream_that_cannot_be_opened_ends_the_writer() {
    let (writer, _) = UniStreamWriter::new().step(WriterEvent::Packet(vec![1]));
    let (writer, action) = writer.step(WriterEvent::OpenFailed);
    assert_eq!(action, WriterAction::Stop);
    assert_eq!(writer, UniStreamWriter::Ended);
}

#[test]
fn failures_shed_the_packet_and_reopen() {
    for (event, reason, label) in [
        (WriterEvent::WriteFailed, ShedReason::WriteError, "write_error"),
        (WriterEvent::WriteTimedOut, ShedReason::WriteTimeout, "write_timeout"),
    ] {
        let (writer, _) = UniStreamWriter::new().step(WriterEvent::Packet(b"shed".to_vec()));
        let (writer, _) = writer.step(WriterEvent::Opened);
        let (writer, action) = writer.step(event);
        assert_eq!(
            action,
            WriterAction::ShedAndReopen {
                reason,
                code: UNISTREAM_SHED_RESET_CODE
            }
        );
        assert_eq!(reason.label(), label);
        let (writer, action) = writer.step(WriterEvent::Opened);
        assert_eq!(action, WriterAction::Receive);
        let (_, action) = writer.step(WriterEvent::Packet(b"next".to_vec()));
        assert_eq!(action, WriterAction::Write(frame_packet(&b"next".to_vec())));
    }
    assert_eq!(UNISTREAM_SHED_RESET_CODE, 1);
}

#[test]
fn metric_labels() {
    assert_eq!(TRANSPORT_LABEL, "webtransport");
    assert_eq!(InboundSource::UniStream.label(), "unistream");
    assert_eq!(InboundSource::Datagram.label(), "datagram");
}
