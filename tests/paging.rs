use polypage::codec::{profile_for, CodecFlag, PagingError};
use polypage::frames::{pad_frame, segment, FrameSegmenter};
use polypage::hex::hex_upper;
use polypage::packet::{caller_id_text, encode_caller_id, Packet, Session};
use polypage::pacing::{PaceAction, PacingScheduler};
use polypage::transmission::{plan_fits, Step, Transmission};

fn g711_session(first_sequence: u16, first_timestamp: u32) -> Session {
    Session::new(
        0xDEADBEEF,
        49,
        "CallerID",
        CodecFlag::G711u.profile(),
        first_sequence,
        first_timestamp,
    )
}

#[test]
fn profiles_match_bitrate() {
    for c in [CodecFlag::G711u, CodecFlag::G722] {
        let p = c.profile();
        let frames_per_second = 1000 / p.frame_duration_ms as usize;
        assert_eq!(p.bytes_per_frame * frames_per_second, 8000);
        assert_eq!(p.sample_clock_hz as u64 * p.frame_duration_ms / 1000, 160);
    }
}

#[test]
fn profile_for_known_selectors() {
    let g711 = profile_for(0).unwrap();
    assert_eq!(g711, CodecFlag::G711u.profile());
    assert_eq!(g711.payload_type_id, 0);
    assert_eq!(g711.bytes_per_frame, 160);
    let g722 = profile_for(9).unwrap();
    assert_eq!(g722.payload_type_id, 9);
    assert_eq!(g722.sample_clock_hz, 8000);
    assert_eq!(CodecFlag::G722.payload_type(), 9);
}

#[test]
fn profile_for_unknown_selector() {
    assert_eq!(profile_for(8), Err(PagingError::UnsupportedCodec));
    assert_eq!(profile_for(255), Err(PagingError::UnsupportedCodec));
}

#[test]
fn segment_exact_multiple() {
    let data = vec![7u8; 320];
    let frames = segment(&data, 160);
    assert_eq!(frames.len(), 2);
    assert!(frames.iter().all(|f| f.len() == 160 && f.iter().all(|b| *b == 7)));
}

#[test]
fn segment_pads_last_frame() {
    let data: Vec<u8> = (0..170u32).map(|i| (i % 251) as u8 + 1).collect();
    let frames = segment(&data, 160);
    assert_eq!(frames.len(), 2);
    assert_eq!(&frames[0][..], &data[..160]);
    assert_eq!(frames[1].len(), 160);
    assert_eq!(&frames[1][..10], &data[160..]);
    assert!(frames[1][10..].iter().all(|b| *b == 0));
}

#[test]
fn segment_empty_source() {
    assert_eq!(segment(&Vec::new(), 160).len(), 0);
    let mut seg = FrameSegmenter::new(Vec::new(), 160);
    assert_eq!(seg.next_frame(), None);
}

#[test]
fn segmenter_is_forward_only() {
    let data: Vec<u8> = (1..=5u8).collect();
    let mut seg = FrameSegmenter::new(data, 2);
    assert_eq!(seg.next_frame(), Some(vec![1, 2]));
    assert_eq!(seg.next_frame(), Some(vec![3, 4]));
    assert_eq!(seg.next_frame(), Some(vec![5, 0]));
    assert_eq!(seg.next_frame(), None);
    assert_eq!(seg.next_frame(), None);
}

#[test]
fn pad_short_chunk() {
    assert_eq!(pad_frame(&[9, 8], 4), vec![9, 8, 0, 0]);
    assert_eq!(pad_frame(&[1, 2, 3], 3), vec![1, 2, 3]);
}

#[test]
fn caller_id_is_fixed_width() {
    assert_eq!(encode_caller_id("PC"), b"PC\0\0\0\0\0\0\0\0\0\0\0".to_vec());
    assert_eq!(encode_caller_id("CallerID12345678"), b"CallerID12345".to_vec());
    assert_eq!(caller_id_text(&encode_caller_id("Lobby")), b"Lobby".to_vec());
    assert_eq!(caller_id_text(b"ABC\0D"), b"ABC".to_vec());
}

#[test]
fn packet_wire_layout() {
    let mut s = g711_session(0x0102, 0x0A0B0C0D);
    let p = s.build(&vec![0xAA, 0xBB]);
    let mut expected: Vec<u8> = vec![0x10, 49, 0xDE, 0xAD, 0xBE, 0xEF, 13];
    expected.extend_from_slice(b"CallerID\0\0\0\0\0");
    expected.extend_from_slice(&[0, 1, 0x01, 0x02, 0x0A, 0x0B, 0x0C, 0x0D, 0xAA, 0xBB]);
    assert_eq!(p.to_bytes(), expected);
    let q = s.build(&vec![0xCC]);
    let b = q.to_bytes();
    assert_eq!(b[21], 0);
    assert_eq!(&b[22..24], &[0x01, 0x03]);
    assert_eq!(&b[24..28], &[0x0A, 0x0B, 0x0C, 0xAD]);
}

#[test]
fn round_trip_recovers_fields() {
    let mut s = Session::new(7, 26, "Front Desk", CodecFlag::G722.profile(), 65535, 4294967200);
    let frame: Vec<u8> = (0..160u32).map(|i| (i * 3) as u8).collect();
    let p = s.build(&frame);
    let q = Packet::parse(&p.to_bytes()).unwrap();
    assert_eq!(q.channel, 26);
    assert_eq!(q.session_id, 7);
    assert_eq!(caller_id_text(&q.caller_id), b"Front Desk".to_vec());
    assert_eq!(q.payload_type, 9);
    assert!(q.marker);
    assert_eq!(q.sequence, 65535);
    assert_eq!(q.timestamp, 4294967200);
    assert_eq!(q.payload, frame);
}

#[test]
fn parse_rejects_malformed() {
    let mut s = g711_session(0, 0);
    let good = s.build(&vec![1, 2, 3]).to_bytes();
    assert!(Packet::parse(&good[..27]).is_none());
    let mut bad_op = good.clone();
    bad_op[0] = 0x0F;
    assert!(Packet::parse(&bad_op).is_none());
    let mut bad_len = good.clone();
    bad_len[6] = 12;
    assert!(Packet::parse(&bad_len).is_none());
    let mut bad_flags = good.clone();
    bad_flags[21] = 2;
    assert!(Packet::parse(&bad_flags).is_none());
    assert!(Packet::parse(&good).is_some());
}

#[test]
fn counters_wrap_and_marker_once() {
    let mut s = g711_session(65534, u32::MAX - 200);
    let frames: Vec<Vec<u8>> = (0..4).map(|_| vec![0u8; 160]).collect();
    let packets = s.build_all(&frames);
    let seqs: Vec<u16> = packets.iter().map(|p| p.sequence).collect();
    assert_eq!(seqs, vec![65534, 65535, 0, 1]);
    let ts: Vec<u32> = packets.iter().map(|p| p.timestamp).collect();
    assert_eq!(ts, vec![u32::MAX - 200, u32::MAX - 40, 119, 279]);
    let markers: Vec<bool> = packets.iter().map(|p| p.marker).collect();
    assert_eq!(markers, vec![true, false, false, false]);
    let more = s.build_all(&frames);
    assert!(more.iter().all(|p| !p.marker));
    assert_eq!(more[0].sequence, 2);
}

#[test]
fn two_seconds_of_g711() {
    let profile = profile_for(0).unwrap();
    let data = vec![0u8; 16000];
    let frames = segment(&data, profile.bytes_per_frame);
    let mut s = Session::new(1, 49, "PC", profile, 1000, 5000);
    let packets = s.build_all(&frames);
    assert_eq!(packets.len(), 100);
    for (i, p) in packets.iter().enumerate() {
        assert_eq!(p.sequence, 1000 + i as u16);
        assert_eq!(p.timestamp, 5000 + 160 * i as u32);
        assert_eq!(p.channel, 49);
        assert_eq!(p.caller_id, encode_caller_id("PC"));
        assert_eq!(p.payload, vec![0u8; 160]);
        assert_eq!(p.marker, i == 0);
    }
}

#[test]
fn pacing_fifty_frames() {
    let mut pacer = PacingScheduler::new(1_000, 20, 50);
    let mut now: u64 = 1_000;
    let mut sent: Vec<u64> = Vec::new();
    loop {
        match pacer.decide(now) {
            PaceAction::WaitUntil(t) => {
                assert!(t > now);
                now = t;
            }
            PaceAction::Emit => {
                sent.push(now);
                pacer.mark_emitted();
            }
            PaceAction::Finished => break,
            PaceAction::Cancelled => panic!("not cancelled"),
        }
    }
    assert_eq!(sent.len(), 50);
    assert!(now - 1_000 >= 1_000);
    assert!(sent.windows(2).all(|w| w[1] - w[0] >= 20));
}

#[test]
fn pacing_late_packet_realigns() {
    let mut pacer = PacingScheduler::new(0, 20, 3);
    assert_eq!(pacer.decide(0), PaceAction::Emit);
    pacer.mark_emitted();
    assert_eq!(pacer.decide(45), PaceAction::Emit);
    pacer.mark_emitted();
    assert_eq!(pacer.decide(45), PaceAction::Emit);
    pacer.mark_emitted();
    assert_eq!(pacer.decide(45), PaceAction::WaitUntil(60));
    assert_eq!(pacer.decide(60), PaceAction::Finished);
    pacer.cancel();
    assert_eq!(pacer.decide(60), PaceAction::Cancelled);
}

#[test]
fn cancel_after_ten_of_hundred() {
    let profile = CodecFlag::G711u.profile();
    let session = Session::new(3, 30, "PC", profile, 0, 0);
    let mut tx = Transmission::new(vec![0u8; 16000], session, 0);
    let mut now: u64 = 0;
    let mut sink: Vec<Vec<u8>> = Vec::new();
    loop {
        match tx.step(now) {
            Step::WaitUntil(t) => now = t,
            Step::Send(bytes) => {
                sink.push(bytes);
                if sink.len() == 10 {
                    tx.cancel();
                }
            }
            Step::Finished => panic!("cancelled run cannot finish"),
            Step::Cancelled => break,
        }
    }
    assert_eq!(sink.len(), 10);
    assert_eq!(tx.emitted(), 10);
    assert!(sink.iter().all(|b| b.len() == 28 + 160));
    assert!(matches!(tx.step(now + 1000), Step::Cancelled));
}

#[test]
fn full_transmission_in_order() {
    let profile = CodecFlag::G722.profile();
    let session = Session::new(9, 50, "Ops", profile, 10, 20);
    let mut tx = Transmission::new(vec![5u8; 400], session, 100);
    let mut now: u64 = 100;
    let mut sink: Vec<Vec<u8>> = Vec::new();
    loop {
        match tx.step(now) {
            Step::WaitUntil(t) => now = t,
            Step::Send(bytes) => sink.push(bytes),
            Step::Finished => break,
            Step::Cancelled => panic!("not cancelled"),
        }
    }
    assert_eq!(sink.len(), 3);
    assert_eq!(now, 160);
    let parsed: Vec<Packet> = sink.iter().map(|b| Packet::parse(b).unwrap()).collect();
    assert_eq!(parsed.iter().map(|p| p.sequence).collect::<Vec<_>>(), vec![10, 11, 12]);
    assert_eq!(parsed.iter().map(|p| p.timestamp).collect::<Vec<_>>(), vec![20, 180, 340]);
    assert_eq!(parsed[2].payload[..80], vec![5u8; 80][..]);
    assert!(parsed[2].payload[80..].iter().all(|b| *b == 0));
}

#[test]
fn hex_trace_upper_case() {
    assert_eq!(hex_upper(&[0x0F, 0xA0, 0x00, 0xFF]), "0FA000FF");
    assert_eq!(hex_upper(&[]), "");
    let mut s = g711_session(0, 160);
    let line = hex_upper(&s.build(&vec![0xAB]).to_bytes());
    assert_eq!(line.len(), 2 * 29);
    assert!(line.starts_with("1031DEADBEEF0D"));
    assert!(line.ends_with("0000000000A0AB"));
}

#[test]
fn plan_fits_limits() {
    let p = CodecFlag::G711u.profile();
    assert!(plan_fits(16000, &p, 0));
    assert!(plan_fits(0, &p, u64::MAX));
    assert!(!plan_fits(160, &p, u64::MAX - 19));
    assert!(plan_fits(160, &p, u64::MAX - 20));
    assert!(!plan_fits(usize::MAX - 100, &p, 0));
}
