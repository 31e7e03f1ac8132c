use videocall::clock::{UtcInstant, UtcOffset};
use videocall::meeting_state::{
    HealthPacket, HeartbeatMetadata, Measure, MediaPacket, MeetingState, NeteqStats, NetworkStats,
    OperationCounters, Packet, PeerStats, QualitySnapshot, VideoStats, WallTime, MAX_EVENTS,
    PRUNE_THRESHOLD, STALE_THRESHOLD,
};
use videocall::proctor::{
    detail_height, elapsed_label, event_lines, flag, help_area, interpret_quality, is_truncatable,
    participant_count_label, participant_row, quality_bar, render_detail, sort_label, table_title,
    truncate, Area, DetailInput, DetailQuality, Flow, Grade, Key, Millis, Proctor, ProctorEvent,
    RowInput, RowQuality, RowScore, Selection, Tone,
};

fn wall() -> WallTime {
    WallTime {
        instant: UtcInstant::from_rfc3339("2025-01-15T13:30:05Z").unwrap(),
        offset: UtcOffset::new(3600).unwrap(),
    }
}

fn measure(x: f64) -> Measure {
    Measure { bits: x.to_bits() }
}

fn media(email: &str, envelope: &str, session_id: u64, heartbeat: Option<(bool, bool)>) -> Packet {
    Packet::Media(MediaPacket {
        email: email.to_string(),
        envelope_email: envelope.to_string(),
        session_id,
        is_heartbeat: heartbeat.is_some(),
        heartbeat_metadata: heartbeat.map(|(video_enabled, audio_enabled)| HeartbeatMetadata {
            video_enabled,
            audio_enabled,
        }),
    })
}

fn stats(x: f64) -> PeerStats {
    PeerStats {
        neteq_stats: Some(NeteqStats {
            current_buffer_size_ms: measure(x),
            network: Some(NetworkStats {
                operation_counters: Some(OperationCounters {
                    expand_per_sec: measure(x + 1.0),
                }),
            }),
        }),
        video_stats: Some(VideoStats {
            fps_received: measure(x + 2.0),
            bitrate_kbps: 700,
        }),
        can_see: true,
        can_listen: false,
    }
}

fn health(peer: &str, rtt: f64, peers: Vec<(&str, PeerStats)>) -> Packet {
    Packet::Health(HealthPacket {
        reporting_peer: peer.to_string(),
        active_server_rtt_ms: measure(rtt),
        peer_stats: peers.into_iter().map(|(p, s)| (p.to_string(), s)).collect(),
    })
}

fn emails(state: &MeetingState) -> Vec<&str> {
    state.participants().iter().map(|p| p.email.as_str()).collect()
}

fn messages(state: &MeetingState) -> Vec<&str> {
    state.events().iter().map(|e| e.msg.as_str()).collect()
}

#[test]
fn heartbeats_bring_participants_in() {
    let mut state = MeetingState::new("room".to_string(), 0);
    assert_eq!(state.meeting_id(), "room");
    state.process_packet(&media("a@x", "", 0, Some((true, false))), 5, wall());
    state.process_packet(&media("a@x", "", 0, Some((false, true))), 6, wall());
    assert_eq!(emails(&state), ["a@x"]);
    assert_eq!(messages(&state), ["a@x joined"]);
    let p = &state.participants()[0];
    assert_eq!((p.video_enabled, p.audio_enabled), (false, true));
    assert_eq!((p.joined_at, p.last_heartbeat), (5, 6));
}

#[test]
fn other_media_shows_presence_without_an_event() {
    let mut state = MeetingState::new("room".to_string(), 0);
    state.process_packet(&media("a@x", "", 0, None), 5, wall());
    assert_eq!(emails(&state), ["a@x"]);
    assert!(messages(&state).is_empty());
    state.process_packet(&media("a@x", "", 0, Some((true, true))), 6, wall());
    assert!(messages(&state).is_empty());
    state.process_packet(&media("", "b@x", 0, None), 7, wall());
    assert_eq!(emails(&state), ["a@x", "b@x"]);
    state.process_packet(&media("", "", 9, Some((true, true))), 8, wall());
    state.process_packet(&Packet::Other, 8, wall());
    assert_eq!(emails(&state), ["a@x", "b@x"]);
}

#[test]
fn health_packets_tell_of_quality() {
    let mut state = MeetingState::new("room".to_string(), 0);
    state.process_packet(&media("a@x", "", 12, None), 1, wall());
    state.process_packet(&media("b@x", "", 13, None), 1, wall());
    state.process_packet(
        &health(
            "a@x",
            40.0,
            vec![("13", stats(1.0)), ("99", stats(5.0)), ("a@x", stats(3.0))],
        ),
        10,
        wall(),
    );
    let a = &state.participants()[0];
    let b = &state.participants()[1];
    assert_eq!(a.rtt_ms, Some(measure(40.0)));
    assert_eq!(a.last_heartbeat, 10);
    assert_eq!(b.rtt_ms, None);
    assert_eq!(b.last_heartbeat, 1);
    let q = b.quality.unwrap();
    assert_eq!(q.jitter_ms, measure(1.0));
    assert_eq!(q.conceal_per_sec, measure(2.0));
    assert_eq!(q.fps, measure(3.0));
    assert_eq!(q.bitrate_kbps, 700);
    assert_eq!((q.can_see, q.can_listen, q.updated_at), (true, false, 10));
    assert_eq!(a.quality.unwrap().jitter_ms, measure(3.0));
    state.process_packet(&health("", 1.0, vec![("a@x", stats(9.0))]), 11, wall());
    assert_eq!(state.participants()[0].quality.unwrap().jitter_ms, measure(3.0));
    state.process_packet(&health("nobody", 1.0, vec![("13", stats(9.0))]), 12, wall());
    assert_eq!(state.participants()[1].quality.unwrap().jitter_ms, measure(9.0));
    assert_eq!(state.participants().len(), 2);
}

#[test]
fn missing_statistics_count_as_zero() {
    let mut state = MeetingState::new("room".to_string(), 0);
    state.process_packet(&media("a@x", "", 0, None), 1, wall());
    let none = PeerStats {
        neteq_stats: None,
        video_stats: None,
        can_see: false,
        can_listen: true,
    };
    state.process_packet(&health("b", 1.0, vec![("a@x", none)]), 2, wall());
    let q = state.participants()[0].quality.unwrap();
    assert_eq!(q.jitter_ms, measure(0.0));
    assert_eq!(q.conceal_per_sec, measure(0.0));
    assert_eq!(q.fps, measure(0.0));
    assert_eq!(q.bitrate_kbps, 0);
}

#[test]
fn a_session_can_change_hands() {
    let mut state = MeetingState::new("room".to_string(), 0);
    state.process_packet(&media("a@x", "", 7, None), 1, wall());
    state.process_packet(&media("b@x", "", 7, None), 2, wall());
    state.process_packet(&health("r", 1.0, vec![("7", stats(4.0))]), 3, wall());
    assert!(state.participants()[0].quality.is_none());
    assert!(state.participants()[1].quality.is_some());
}

#[test]
fn silent_participants_become_stale_and_then_leave() {
    let mut state = MeetingState::new("room".to_string(), 0);
    state.process_packet(&media("a@x", "", 0, None), 100, wall());
    state.process_packet(&media("b@x", "", 0, None), 200, wall());
    assert!(!state.participants()[0].is_stale(100 + STALE_THRESHOLD));
    assert!(state.participants()[0].is_stale(101 + STALE_THRESHOLD));
    assert!(!state.participants()[0].is_stale(0));
    state.tick(100 + PRUNE_THRESHOLD, wall());
    assert_eq!(emails(&state), ["a@x", "b@x"]);
    state.tick(101 + PRUNE_THRESHOLD, wall());
    assert_eq!(emails(&state), ["b@x"]);
    assert_eq!(messages(&state), ["a@x left"]);
}

#[test]
fn old_events_go() {
    let mut state = MeetingState::new("room".to_string(), 0);
    for i in 0..MAX_EVENTS + 3 {
        let email = format!("p{}", i);
        state.process_packet(&media(&email, "", 0, Some((true, true))), 1, wall());
    }
    assert_eq!(state.events().len(), MAX_EVENTS);
    assert_eq!(state.events()[0].msg, "p3 joined");
}

#[test]
fn tables_are_sorted() {
    let mut state = MeetingState::new("room".to_string(), 0);
    for email in ["carol", "alice", "bob", "Zed", "älba"] {
        state.process_packet(&media(email, "", 0, None), 1, wall());
    }
    let names = |rows: Vec<&videocall::meeting_state::Participant>| -> Vec<String> {
        rows.iter().map(|p| p.email.clone()).collect()
    };
    let by_name = names(state.sorted_participants(None));
    assert_eq!(by_name, ["Zed", "alice", "bob", "carol", "älba"]);
    let mut expected = by_name.clone();
    expected.sort();
    assert_eq!(by_name, expected);
    let scores: Vec<i64> = vec![1, 5, 1, -2, 5];
    assert_eq!(
        names(state.sorted_participants(Some(&scores))),
        ["alice", "älba", "bob", "carol", "Zed"]
    );
}

#[test]
fn elapsed_time() {
    let state = MeetingState::new("room".to_string(), 1_000_000_000);
    assert_eq!(state.elapsed_str(62_500_000_000), "01:01");
    assert_eq!(state.elapsed_str(0), "00:00");
}

fn press(s: &mut Selection, key: Key, rows: usize) -> bool {
    s.handle_key(key, false, rows)
}

#[test]
fn keys_that_quit() {
    let mut s = Selection::new();
    assert!(press(&mut s, Key::Char('q'), 3));
    assert!(press(&mut s, Key::Esc, 3));
    assert!(s.handle_key(Key::Char('c'), true, 3));
    assert!(!press(&mut s, Key::Char('c'), 3));
    assert!(!press(&mut s, Key::Char('x'), 3));
    assert_eq!(s, Selection::new());
}

#[test]
fn keys_that_move() {
    let mut s = Selection::new();
    press(&mut s, Key::Down, 3);
    assert_eq!(s.selected, Some(0));
    press(&mut s, Key::Char('j'), 3);
    press(&mut s, Key::Down, 3);
    press(&mut s, Key::Down, 3);
    assert_eq!(s.selected, Some(2));
    press(&mut s, Key::Up, 3);
    press(&mut s, Key::Char('k'), 3);
    press(&mut s, Key::Up, 3);
    assert_eq!(s.selected, Some(0));
    press(&mut s, Key::End, 3);
    assert_eq!(s.selected, Some(2));
    press(&mut s, Key::Home, 3);
    assert_eq!(s.selected, Some(0));
    let mut s = Selection::new();
    press(&mut s, Key::Down, 0);
    press(&mut s, Key::End, 0);
    assert_eq!(s.selected, None);
    press(&mut s, Key::Up, 0);
    assert_eq!(s.selected, Some(0));
    s.selected = Some(usize::MAX);
    press(&mut s, Key::Down, 4);
    assert_eq!(s.selected, Some(3));
}

#[test]
fn keys_that_toggle() {
    let mut s = Selection::new();
    press(&mut s, Key::Char('h'), 2);
    assert!(s.show_help);
    press(&mut s, Key::Char('?'), 2);
    assert!(!s.show_help);
    press(&mut s, Key::End, 2);
    press(&mut s, Key::Char('s'), 2);
    assert_eq!((s.sort_by_quality, s.selected), (true, Some(0)));
    press(&mut s, Key::Char('S'), 0);
    assert_eq!((s.sort_by_quality, s.selected), (false, Some(0)));
}

#[test]
fn selections_are_clamped() {
    let mut s = Selection::new();
    s.selected = Some(5);
    s.clamp_selection(3);
    assert_eq!(s.selected, Some(2));
    s.clamp_selection(3);
    assert_eq!(s.selected, Some(2));
    s.clamp_selection(0);
    assert_eq!(s.selected, None);
    s.clamp_selection(3);
    assert_eq!(s.selected, None);
}

#[test]
fn the_screen_reacts() {
    let mut p = Proctor::new("room".to_string(), 0);
    let key = |key: Key| ProctorEvent::Key { key, control: false };
    assert_eq!(p.step(ProctorEvent::RenderTick, 1, wall()), Flow::Draw);
    assert_eq!(
        p.step(ProctorEvent::Packet(media("a", "", 0, None)), 1, wall()),
        Flow::Continue
    );
    assert_eq!(p.step(key(Key::Down), 1, wall()), Flow::Continue);
    assert_eq!(p.selection.selected, Some(0));
    assert_eq!(p.step(ProctorEvent::OtherInput, 1, wall()), Flow::Continue);
    assert_eq!(
        p.step(ProctorEvent::StaleTick, 2 + PRUNE_THRESHOLD, wall()),
        Flow::Continue
    );
    assert_eq!(p.state.participants().len(), 0);
    assert_eq!(p.selection.selected, None);
    assert_eq!(p.step(key(Key::Char('q')), 3, wall()), Flow::Quit);
    assert_eq!(p.step(ProctorEvent::Disconnected, 3, wall()), Flow::Quit);
    assert_eq!(p.step(ProctorEvent::InputEnded, 3, wall()), Flow::Quit);
}

fn area(width: u16, height: u16) -> Area {
    Area { x: 2, y: 1, width, height }
}

#[test]
fn panels() {
    assert_eq!(detail_height(area(39, 50), None), None);
    assert_eq!(detail_height(area(80, 9), Some(1)), None);
    assert_eq!(detail_height(area(40, 10), None), Some(0));
    assert_eq!(detail_height(area(40, 10), Some(0)), Some(7));
    assert_eq!(
        help_area(area(101, 40)),
        Area { x: 12, y: 6, width: 80, height: 30 }
    );
    assert_eq!(help_area(area(60, 20)), area(60, 20));
}

#[test]
fn labels() {
    assert_eq!(participant_count_label(1), "   1 participant  ─ Sort: ");
    assert_eq!(participant_count_label(0), "   0 participants  ─ Sort: ");
    assert_eq!(participant_count_label(12), "   12 participants  ─ Sort: ");
    assert_eq!(sort_label(true), "Quality ↓");
    assert_eq!(sort_label(false), "Name");
    assert_eq!(elapsed_label("01:02"), "  (01:02)");
    assert_eq!(table_title(3), " Participants (3) ");
    assert_eq!(flag(true).text, "✓");
    assert_eq!(flag(false).text, "✗");
}

#[test]
fn long_names_are_cut() {
    assert_eq!(truncate("short", 20), "short");
    assert_eq!(truncate("12345678901234567890", 20), "12345678901234567890");
    assert_eq!(truncate("123456789012345678901", 20), "1234567890123456789…");
    assert_eq!(truncate("ab", 1), "…");
    let wide = "é".repeat(11);
    assert!(!is_truncatable(&wide, 20));
    assert!(is_truncatable(&wide, 21));
    assert_eq!(truncate(&wide, 21), format!("{}…", "é".repeat(10)));
    assert!(!is_truncatable("a", 0));
    assert!(is_truncatable("", 0));
}

fn row_input(quality: bool, video: bool, stale: bool) -> RowInput {
    RowInput {
        email: "someone@example.org".to_string(),
        video_enabled: video,
        audio_enabled: !video,
        stale,
        rtt: if quality {
            Some(Millis { value: 79, grade: Grade::Good })
        } else {
            None
        },
        quality: if quality {
            Some(RowQuality {
                jitter: Millis { value: 120, grade: Grade::Fair },
                conceal: "7.3".to_string(),
                conceal_grade: Grade::Poor,
                fps: 24,
                bitrate_kbps: 900,
            })
        } else {
            None
        },
        score: if quality {
            Some(RowScore {
                filled: 7,
                bar_grade: Grade::Fair,
                name_grade: Grade::Good,
            })
        } else {
            None
        },
    }
}

#[test]
fn rows_with_measurements() {
    let row = participant_row(&row_input(true, true, false));
    assert_eq!(row.name.text, "someone@example.org");
    assert_eq!((row.name.tone, row.dimmed), (Tone::Green, false));
    assert_eq!((row.video.text.as_str(), row.video.tone), ("[V]", Tone::Cyan));
    assert_eq!((row.mic.text.as_str(), row.mic.tone), ("[ ]", Tone::Gray));
    assert_eq!((row.rtt.text.as_str(), row.rtt.tone), ("   79ms", Tone::Green));
    assert_eq!((row.jitter.text.as_str(), row.jitter.tone), ("  120ms", Tone::Yellow));
    assert_eq!((row.conceal.text.as_str(), row.conceal.tone), ("  7.3/s", Tone::Red));
    assert_eq!((row.fps.text.as_str(), row.fps.tone), (" 24", Tone::Plain));
    assert_eq!((row.kbps.text.as_str(), row.kbps.tone), ("  900", Tone::Plain));
    assert_eq!((row.bar.text.as_str(), row.bar.tone), ("███████░░░", Tone::Yellow));
}

#[test]
fn rows_without_measurements() {
    let row = participant_row(&row_input(false, false, true));
    assert_eq!((row.name.tone, row.dimmed), (Tone::Gray, true));
    assert_eq!(row.mic.text, "[M]");
    assert_eq!(row.rtt.text, "    --  ");
    assert_eq!(row.jitter.text, "   --  ");
    assert_eq!(row.conceal.text, "    -- ");
    assert_eq!((row.fps.text.as_str(), row.fps.tone), ("  --", Tone::Gray));
    assert_eq!(row.kbps.text, "   --");
    assert_eq!(row.bar.text, "▒▒▒▒▒▒▒▒▒▒");
    let row = participant_row(&row_input(true, false, true));
    assert_eq!(row.fps.text, "  --");
    assert_eq!(row.name.tone, Tone::Gray);
}

#[test]
fn bars_have_ten_parts() {
    let bar = |filled: usize| {
        quality_bar(Some(RowScore {
            filled,
            bar_grade: Grade::Poor,
            name_grade: Grade::Poor,
        }))
        .text
    };
    assert_eq!(bar(0), "░░░░░░░░░░");
    assert_eq!(bar(10), "██████████");
    assert_eq!(bar(usize::MAX), "██████████");
}

fn detail_quality() -> DetailQuality {
    DetailQuality {
        jitter: Millis { value: 200, grade: Grade::Poor },
        high_jitter: true,
        conceal: "6.0".to_string(),
        conceal_grade: Grade::Poor,
        high_conceal: true,
        fps: 0,
        no_frames: true,
        bitrate_kbps: 12,
        can_see: false,
        can_listen: true,
        age_secs: 6,
    }
}

#[test]
fn what_is_wrong_is_listed() {
    let rtt = Some(Millis { value: 180, grade: Grade::Poor });
    assert_eq!(
        interpret_quality(&detail_quality(), rtt, true),
        "high audio concealment (6.0/s), high jitter (200ms), high RTT (180ms), video not rendering"
    );
    let mut q = detail_quality();
    q.high_conceal = false;
    q.can_see = true;
    assert_eq!(interpret_quality(&q, None, false), "high jitter (200ms)");
    q.high_jitter = false;
    assert_eq!(interpret_quality(&q, rtt, false), "");
}

#[test]
fn details() {
    let text = |line: &Vec<videocall::proctor::Segment>| -> String {
        line.iter().map(|s| s.text.as_str()).collect()
    };
    let mut input = DetailInput {
        email: "a@x".to_string(),
        video_enabled: true,
        audio_enabled: false,
        rtt: Some(Millis { value: 90, grade: Grade::Fair }),
        high_rtt: false,
        quality: Some(detail_quality()),
    };
    let panel = render_detail(&input);
    assert_eq!(panel.title, " Detail: a@x ");
    let lines: Vec<String> = panel.lines.iter().map(text).collect();
    assert_eq!(
        lines,
        [
            "Video: ✓   Audio: ✗   RTT: 90ms",
            "Jitter: 200ms   Conceal: 6.0/s   FPS: 0   Bitrate: 12 kbps",
            "Can see: ✗   Can hear: ✓   (data 6s old)",
            "  ⚠ high audio concealment (6.0/s), high jitter (200ms), video not rendering",
        ]
    );
    assert_eq!(panel.lines[0][7].tone, Tone::Yellow);
    input.quality = None;
    input.rtt = None;
    let panel = render_detail(&input);
    let lines: Vec<String> = panel.lines.iter().map(text).collect();
    assert_eq!(
        lines,
        [
            "Video: ✓   Audio: ✗   RTT: --",
            "  No quality data received yet (waiting for HEALTH packets)",
        ]
    );
    let mut q = detail_quality();
    q.age_secs = 5;
    q.high_conceal = false;
    q.high_jitter = false;
    q.no_frames = false;
    input.quality = Some(q);
    let panel = render_detail(&input);
    assert_eq!(panel.lines.len(), 3);
    assert_eq!(text(&panel.lines[2]), "Can see: ✗   Can hear: ✓   ");
}

#[test]
fn the_newest_events_are_shown() {
    let mut state = MeetingState::new("room".to_string(), 0);
    for email in ["a", "b", "c"] {
        state.process_packet(&media(email, "", 0, Some((true, true))), 1, wall());
    }
    let lines = event_lines(state.events(), 2, false);
    assert_eq!(lines.len(), 2);
    assert_eq!((lines[0].time.as_str(), lines[0].msg.as_str()), ("14:30:05", "b joined"));
    assert_eq!(lines[1].msg, "c joined");
    let lines = event_lines(state.events(), 9, true);
    assert_eq!(lines.len(), 3);
    assert_eq!(lines[0].time, "13:30:05 UTC");
    assert!(event_lines(state.events(), 0, true).is_empty());
}

#[test]
fn observations_grow_old() {
    let q = QualitySnapshot {
        jitter_ms: measure(0.0),
        conceal_per_sec: measure(0.0),
        fps: measure(0.0),
        bitrate_kbps: 0,
        can_see: true,
        can_listen: true,
        updated_at: 5_000_000_000,
    };
    assert_eq!(q.age_secs(5_000_000_000), 0);
    assert_eq!(q.age_secs(7_999_999_999), 2);
    assert_eq!(q.age_secs(8_000_000_000), 3);
    assert_eq!(q.age_secs(1), 0);
}
