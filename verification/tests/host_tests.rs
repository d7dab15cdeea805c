use faultforge::campaign::{score, str_eq, profile_weights, CampaignResult, KindStat, Opts};
use faultforge::dut::{DetKind, Detection, DuFrame, Dut, GroundTruth};
use faultforge::parser::{Decoded, FrameParser};
use faultforge::protocol::{
    encode_fault_event, encode_sensor, FAULT_BITFLIP, FAULT_BURST, FAULT_BYTE, FAULT_DELAY,
    FAULT_DROP, FAULT_DUTY, FAULT_REPLAY, K_SENSOR,
};
use faultforge::report::to_csv;
use faultforge::session::Session;
use faultforge::protocol::{encode_end, K_END};

fn feed(dut: &mut Dut, bytes: &[u8]) {
    let mut p = FrameParser::new();
    for &b in bytes {
        if let Some(outcome) = p.push(b) {
            dut.process(&DuFrame::from_decoded(outcome));
        }
    }
}

fn feed_at(dut: &mut Dut, bytes: &[u8], now_ns: u64) {
    let mut p = FrameParser::new();
    for &b in bytes {
        if let Some(outcome) = p.push(b) {
            dut.process_at(&DuFrame::from_decoded(outcome), now_ns);
        }
    }
}

fn kinds(dut: &Dut) -> Vec<DetKind> {
    dut.detections.iter().map(|d| d.kind).collect()
}

#[test]
fn clean_stream_no_detections() {
    let mut dut = Dut::new(5);
    for seq in 0u16..100 {
        let (b, n) = encode_sensor(seq, 100 + seq as u32, 0);
        feed(&mut dut, &b[..n]);
    }
    assert!(dut.detections.is_empty(), "{:?}", dut.detections);
}

#[test]
fn replay_detected() {
    let mut dut = Dut::new(5);
    for seq in [7u16, 8, 8] {
        let (b, n) = encode_sensor(seq, 100, 0);
        feed(&mut dut, &b[..n]);
    }
    assert_eq!(kinds(&dut), vec![DetKind::Replay]);
}

#[test]
fn drop_causes_gap() {
    let mut dut = Dut::new(5);
    for seq in [3u16, 4, 6, 7] {
        let (b, n) = encode_sensor(seq, 100, 0);
        feed(&mut dut, &b[..n]);
    }
    assert_eq!(kinds(&dut), vec![DetKind::Gap]);
}

#[test]
fn corrupted_frame_flagged() {
    let mut dut = Dut::new(5);
    let (b, n) = encode_sensor(1, 100, 0);
    feed(&mut dut, &b[..n]);
    // next frame with a corrupted payload byte
    let (mut b2, n2) = encode_sensor(2, 100, 0);
    b2[4] ^= 0xFF;
    feed(&mut dut, &b2[..n2]);
    let k = kinds(&dut);
    assert!(k.contains(&DetKind::Crc), "{:?}", k);
}

#[test]
fn late_frame_detected() {
    let mut dut = Dut::new(2);
    let (b, n) = encode_sensor(0, 100, 0);
    feed_at(&mut dut, &b[..n], 0);
    // the next frame arrives 30 ms later; the budget is 2 * 4 + 5 = 13 ms
    let (b, n) = encode_sensor(1, 100, 0);
    feed_at(&mut dut, &b[..n], 30_000_000);
    let k = kinds(&dut);
    assert!(k.contains(&DetKind::Late), "{:?}", k);
}

#[test]
fn fault_event_parses() {
    let (b, n) = encode_fault_event(9, FAULT_DROP, 42);
    let mut p = FrameParser::new();
    let mut got = None;
    for &x in &b[..n] {
        if let Some(Decoded::Frame { payload, len, .. }) = p.push(x) {
            got = GroundTruth::from_payload(&payload[..len], 1, 0);
        }
    }
    let gt = got.unwrap();
    assert_eq!(gt.fault_id, 9);
    assert_eq!(gt.kind, FAULT_DROP);
    assert_eq!(gt.at_seq, 42);
}

fn dt(kind: DetKind, seq: u16) -> Detection {
    Detection { kind, seq, at_ns: 0, frame_idx: 0 }
}

fn gt(kind: u8, at_seq: u16, fid: u32) -> GroundTruth {
    GroundTruth { fault_id: fid, kind, at_seq, frame_idx: 0, at_ns: 0 }
}

fn fuzz_opts() -> Opts {
    Opts { simulated: true, seed: 1, packets: 100, cadence_ms: 5, profile: "fuzz", quiet: true }
}

#[test]
fn all_faults_detected_in_calibration_set() {
    let dets = vec![
        dt(DetKind::Gap, 11),
        dt(DetKind::Late, 21),
        dt(DetKind::Replay, 33),
        dt(DetKind::Crc, 41),
        dt(DetKind::Burst, 55),
        dt(DetKind::Crc, 66),   // byte corrupt
        dt(DetKind::Burst, 77), // burst
    ];
    let truths = vec![
        gt(FAULT_DROP, 10, 1),
        gt(FAULT_DELAY, 21, 2),
        gt(FAULT_REPLAY, 33, 3),
        gt(FAULT_BITFLIP, 41, 4),
        gt(FAULT_BITFLIP, 66, 5),
        gt(FAULT_BYTE, 55, 6),
        gt(FAULT_BURST, 77, 7),
    ];
    let res = score(fuzz_opts(), dets, truths);
    assert_eq!(res.injected, 7);
    assert_eq!(res.detected, 7, "all injected faults should be detected");
    assert_eq!(res.missed, 0);
}

#[test]
fn undetected_fault_counts_as_miss() {
    let dets = vec![dt(DetKind::Crc, 10)];
    let truths = vec![gt(FAULT_DROP, 10, 1), gt(FAULT_DELAY, 20, 2)];
    let res = score(fuzz_opts(), dets, truths);
    // drop mismatch: crc detection isn't a drop detection
    assert_eq!(res.injected, 2);
    assert_eq!(res.detected, 0);
    assert_eq!(res.missed, 2);
}

#[test]
fn csv_has_header_and_rows() {
    let res = CampaignResult {
        seed: 1,
        profile: "fuzz",
        packets: 10,
        simulated: true,
        injected: 2,
        detected: 1,
        missed: 1,
        physical: 0,
        latency_total_ms: 1,
        max_latency_ms: 2,
        per_kind: vec![KindStat { kind: 3, injected: 1, detected: 1 }],
        rows: vec![(1, 3, 10, true, "gap", 1), (2, 4, 22, false, "__miss__", 0)],
    };
    let csv = to_csv(&res);
    assert!(csv.starts_with("fault_id,fault_kind,at_seq,detected,detection,latency_ms\n"));
    assert!(csv.contains("1,3,10,true,gap,1\n"));
    assert!(csv.contains("2,4,22,false,__miss__,0\n"));
}

// ---- further scenarios ----

#[test]
fn csv_exact_text() {
    let res = CampaignResult {
        seed: 0,
        profile: "clean",
        packets: 0,
        simulated: false,
        injected: 1,
        detected: 0,
        missed: 1,
        physical: 0,
        latency_total_ms: 0,
        max_latency_ms: 0,
        per_kind: vec![],
        rows: vec![(4_000_000_000, 255, 65535, false, "__miss__", 18_446_744_073_709_551_615)],
    };
    assert_eq!(
        to_csv(&res),
        "fault_id,fault_kind,at_seq,detected,detection,latency_ms\n\
         4000000000,255,65535,false,__miss__,18446744073709551615\n"
    );
}

#[test]
fn score_rows_latency_and_per_kind() {
    let dets = vec![
        Detection { kind: DetKind::Gap, seq: 12, at_ns: 9_000_000, frame_idx: 3 },
        Detection { kind: DetKind::Crc, seq: 30, at_ns: 1_000_000, frame_idx: 4 },
    ];
    let truths = vec![
        GroundTruth { fault_id: 1, kind: FAULT_DROP, at_seq: 10, frame_idx: 2, at_ns: 2_000_000 },
        GroundTruth { fault_id: 2, kind: FAULT_DUTY, at_seq: 20, frame_idx: 5, at_ns: 0 },
        GroundTruth { fault_id: 3, kind: FAULT_REPLAY, at_seq: 40, frame_idx: 6, at_ns: 0 },
    ];
    let res = score(fuzz_opts(), dets, truths);
    assert_eq!(res.injected, 3);
    assert_eq!(res.detected, 1);
    assert_eq!(res.physical, 1);
    assert_eq!(res.missed, 1);
    // the drop was seen 7 ms after its notice
    assert_eq!(res.latency_total_ms, 7);
    assert_eq!(res.max_latency_ms, 7);
    assert_eq!(res.rows.len(), 3);
    assert_eq!(res.rows[0], (1, FAULT_DROP, 10, true, "gap", 7));
    assert_eq!(res.rows[1], (2, FAULT_DUTY, 20, false, "physical", 0));
    assert_eq!(res.rows[2], (3, FAULT_REPLAY, 40, false, "__miss__", 0));
    let drop_stat = res.per_kind.iter().find(|s| s.kind == FAULT_DROP).unwrap();
    assert_eq!((drop_stat.injected, drop_stat.detected), (1, 1));
    let replay_stat = res.per_kind.iter().find(|s| s.kind == FAULT_REPLAY).unwrap();
    assert_eq!((replay_stat.injected, replay_stat.detected), (1, 0));
}

#[test]
fn a_detection_is_matched_once() {
    let dets = vec![dt(DetKind::Gap, 10)];
    let truths = vec![gt(FAULT_DROP, 10, 1), gt(FAULT_DROP, 10, 2)];
    let res = score(fuzz_opts(), dets, truths);
    assert_eq!(res.detected, 1);
    assert_eq!(res.missed, 1);
}

#[test]
fn profile_weights_by_name() {
    assert_eq!(profile_weights("clean"), [0, 0, 0, 0, 0, 0, 0]);
    assert_eq!(profile_weights("fuzz"), [8, 8, 8, 8, 8, 8, 0]);
    assert_eq!(profile_weights("emi"), [30, 15, 0, 5, 10, 25, 0]);
    assert_eq!(profile_weights("stress"), [5, 5, 40, 30, 15, 5, 0]);
    assert_eq!(profile_weights("delay"), [0, 0, 0, 100, 0, 0, 0]);
    assert_eq!(profile_weights("nope"), [8, 8, 8, 8, 8, 8, 0]);
    assert!(str_eq("abc", "abc"));
    assert!(!str_eq("abc", "abd"));
    assert!(!str_eq("abc", "ab"));
}

#[test]
fn burst_is_coalesced_and_reported_once() {
    let mut dut = Dut::new(5);
    let (b, n) = encode_sensor(0, 1, 0);
    feed_at(&mut dut, &b[..n], 0);
    let mut bytes = vec![0x11u8, 0x22, 0x33];
    let (b, n) = encode_sensor(1, 1, 0);
    bytes.extend_from_slice(&b[..n]);
    feed_at(&mut dut, &bytes, 1_000_000);
    assert_eq!(kinds(&dut), vec![DetKind::Burst]);
    assert_eq!(dut.detections[0].seq, 1);
    assert_eq!(dut.frame_idx, 5);
}

#[test]
fn out_of_order_is_replay_and_non_sensor_ignored() {
    let mut dut = Dut::new(5);
    for (seq, t) in [(10u16, 0u64), (11, 1), (9, 2)] {
        let (b, n) = encode_sensor(seq, 0, 0);
        feed_at(&mut dut, &b[..n], t * 1_000_000);
    }
    assert_eq!(kinds(&dut), vec![DetKind::Replay]);
    assert_eq!(dut.detections[0].seq, 9);
    // a fault notice is not a sensor frame: no detection
    let (b, n) = encode_fault_event(1, FAULT_DROP, 3);
    feed_at(&mut dut, &b[..n], 3_000_000);
    assert_eq!(dut.detections.len(), 1);
    assert_eq!(DetKind::Late.as_str(), "late");
    assert_eq!(K_SENSOR, 0x80);
}

#[test]
fn ground_truth_needs_full_payload() {
    assert!(GroundTruth::from_payload(&[1, 2, 3, 4, 5, 6], 0, 0).is_none());
    let g = GroundTruth::from_payload(&[1, 0, 0, 0, 2, 3, 0], 7, 8).unwrap();
    assert_eq!((g.fault_id, g.kind, g.at_seq, g.frame_idx, g.at_ns), (1, 2, 3, 7, 8));
}

#[test]
fn session_routes_frames() {
    let mut s = Session::new(5);
    let mut p = FrameParser::new();
    let mut bytes = Vec::new();
    for seq in [0u16, 1, 3] {
        let (b, n) = encode_sensor(seq, 100, 0);
        bytes.extend_from_slice(&b[..n]);
    }
    let (b, n) = encode_fault_event(4, FAULT_DROP, 2);
    bytes.extend_from_slice(&b[..n]);
    let (b, n) = encode_end(3, 1);
    bytes.extend_from_slice(&b[..n]);
    let (b, n) = encode_sensor(4, 100, 0);
    bytes.extend_from_slice(&b[..n]);
    let mut done_at = None;
    let mut count = 0;
    for &x in &bytes {
        if let Some(d) = p.push(x) {
            let f = DuFrame::from_decoded(d);
            count += 1;
            if s.on_frame(&f, count * 1_000_000) {
                done_at = Some(f.kind);
                break;
            }
        }
    }
    assert_eq!(done_at, Some(K_END));
    assert_eq!(s.truths.len(), 1);
    assert_eq!(s.truths[0].fault_id, 4);
    assert_eq!(s.truths[0].kind, FAULT_DROP);
    assert_eq!(s.truths[0].at_seq, 2);
    // the notice arrived after three frames had been consumed
    assert_eq!(s.truths[0].frame_idx, 3);
    assert_eq!(s.truths[0].at_ns, 4_000_000);
    assert_eq!(s.dut.frame_idx, 3);
    assert_eq!(kinds(&s.dut), vec![DetKind::Gap]);
}

#[test]
fn long_burst_reported_once_then_silent() {
    let mut dut = Dut::new(5);
    let (b, n) = encode_sensor(4, 1, 0);
    feed_at(&mut dut, &b[..n], 0);
    let mut bytes = vec![0x01u8, 0x02, 0x03, 0x04, 0x05];
    for seq in [5u16, 6] {
        let (b, n) = encode_sensor(seq, 1, 0);
        bytes.extend_from_slice(&b[..n]);
    }
    feed_at(&mut dut, &bytes, 1_000_000);
    assert_eq!(kinds(&dut), vec![DetKind::Burst]);
    assert_eq!(dut.detections[0].seq, 5);
    // one frame, five junk outcomes, two frames
    assert_eq!(dut.frame_idx, 8);
}
