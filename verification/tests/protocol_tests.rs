use faultforge::parser::{Decoded, FrameParser};
use faultforge::protocol::{
    crc8, decode_start, encode, encode_sensor, encode_start, get_u16, get_u32, put_u16, put_u32,
    CampaignConfig, Lcg, K_SENSOR, SENSOR_PAYLOAD_LEN, SYNC,
};

fn feed_all(p: &mut FrameParser, bytes: &[u8]) -> Vec<Decoded> {
    let mut out = Vec::new();
    for &b in bytes {
        if let Some(d) = p.push(b) {
            out.push(d);
        }
    }
    out
}

#[test]
fn crc8_known_vector() {
    // CRC-8/ATM("123456789") == 0xF4
    assert_eq!(crc8(b"123456789"), 0xF4);
}

#[test]
fn encode_decode_sensor_roundtrip() {
    let (buf, n) = encode_sensor(0x12AB, 0xDEAD_BEEF, 7);
    assert_eq!(n, 3 + SENSOR_PAYLOAD_LEN + 1);
    assert_eq!(buf[0], SYNC);

    let mut p = FrameParser::new();
    let frames = feed_all(&mut p, &buf[..n]);
    assert_eq!(frames.len(), 1);
    match frames[0] {
        Decoded::Frame { kind, payload, len } => {
            assert_eq!(kind, K_SENSOR);
            assert_eq!(len, SENSOR_PAYLOAD_LEN);
            assert_eq!(get_u16(&payload, 0), 0x12AB);
            assert_eq!(get_u32(&payload, 2), 0xDEAD_BEEF);
            assert_eq!(get_u32(&payload, 6), 7);
        }
        _ => panic!("expected frame"),
    }
}

#[test]
fn parser_resyncs_through_garbage() {
    let mut p = FrameParser::new();
    // garbage burst, then a clean sensor frame
    let garbage = [0xA5u8, 0x00, 0xFF, 0x7E, 0x63, 0x7E];
    let (frame, n) = encode_sensor(1, 10, 0);
    let mut bytes = garbage.to_vec();
    bytes.extend_from_slice(&frame[..n]);
    let out = feed_all(&mut p, &bytes);
    let has_frame = out
        .iter()
        .any(|d| matches!(d, Decoded::Frame { kind: K_SENSOR, .. }));
    assert!(has_frame, "parser should find the frame after garbage: {out:?}");
}

#[test]
fn parser_reports_bad_crc() {
    let mut p = FrameParser::new();
    let (mut frame, n) = encode_sensor(5, 3, 0);
    frame[n - 1] ^= 0xFF; // corrupt the stored crc
    let out = feed_all(&mut p, &frame[..n]);
    assert_eq!(out.len(), 1);
    assert!(matches!(out[0], Decoded::BadCrc { .. }), "got {out:?}");
}

#[test]
fn start_config_roundtrip() {
    let cfg = CampaignConfig {
        seed: 0xCAFE_1234,
        packets: 1500,
        cadence_ms: 5,
        weights: [0, 20, 0, 30, 10, 5, 2],
    };
    let (buf, n) = encode_start(&cfg);
    let mut p = FrameParser::new();
    let mut decoded = None;
    for &b in &buf[..n] {
        if let Some(Decoded::Frame { payload, len, .. }) = p.push(b) {
            decoded = Some((payload, len));
        }
    }
    let (payload, len) = decoded.expect("start frame");
    let got = decode_start(&payload[..len]).expect("decode start");
    assert_eq!(got.seed, cfg.seed);
    assert_eq!(got.packets, cfg.packets);
    assert_eq!(got.cadence_ms, cfg.cadence_ms);
    assert_eq!(got.weights, cfg.weights);
}

#[test]
fn lcg_deterministic_and_distributed() {
    let mut a = Lcg::new(42);
    let mut b = Lcg::new(42);
    for _ in 0..1000 {
        assert_eq!(a.next_u32(), b.next_u32());
        let v = a.below(100);
        assert!(v < 100);
    }
}

#[test]
fn frame_with_sync_in_payload_parses() {
    // payload contains a 0x7E byte inside a valid frame and a second frame follows
    let mut p = FrameParser::new();
    let (f1, n1) = encode(K_SENSOR, &[SYNC, 1, 2, 3]);
    let (f2, n2) = encode(K_SENSOR, &[4, 5, 6, 7]);
    let mut bytes = f1[..n1].to_vec();
    bytes.extend_from_slice(&f2[..n2]);
    let out = feed_all(&mut p, &bytes);
    let frames: Vec<Vec<u8>> = out
        .iter()
        .filter_map(|d| match d {
            Decoded::Frame { payload, len, .. } => Some(payload[..*len].to_vec()),
            _ => None,
        })
        .collect();
    assert_eq!(frames, vec![vec![SYNC, 1, 2, 3], vec![4, 5, 6, 7]]);
}

// ---- further scenarios ----

#[test]
fn crc8_of_empty_input_is_zero() {
    assert_eq!(crc8(&[]), 0x00);
}

#[test]
fn encode_layout_matches_documented_frame() {
    let (buf, n) = encode(0x42, &[0xAA, 0xBB]);
    assert_eq!(n, 6);
    assert_eq!(&buf[..5], &[SYNC, 2, 0x42, 0xAA, 0xBB]);
    assert_eq!(buf[5], crc8(&[2, 0x42, 0xAA, 0xBB]));
    // the rest of the buffer stays zero
    assert!(buf[n..].iter().all(|&b| b == 0));
}

#[test]
fn le_helpers_roundtrip_and_layout() {
    let mut d = [0u8; 8];
    put_u16(&mut d, 1, 0xBEEF);
    assert_eq!(d[1], 0xEF);
    assert_eq!(d[2], 0xBE);
    assert_eq!(get_u16(&d, 1), 0xBEEF);
    put_u32(&mut d, 3, 0x0102_0304);
    assert_eq!(&d[3..7], &[4, 3, 2, 1]);
    assert_eq!(get_u32(&d, 3), 0x0102_0304);
}

#[test]
fn decode_start_rejects_short_payload() {
    assert!(decode_start(&[0u8; 14]).is_none());
    assert!(decode_start(&[]).is_none());
    assert!(decode_start(&[0u8; 15]).is_some());
}

#[test]
fn clean_config_has_zero_weights() {
    let c = CampaignConfig::clean(7, 100, 2);
    assert_eq!(c.seed, 7);
    assert_eq!(c.packets, 100);
    assert_eq!(c.cadence_ms, 2);
    assert_eq!(c.weights, [0; 7]);
}

#[test]
fn lcg_seed_mixing_and_step_exact() {
    let mut l = Lcg::new(1);
    // seed mixing: 1 * 1664525 + 1013904223
    assert_eq!(l.0, 1_015_568_748);
    // one step: x * 1103515245 + 12345 (mod 2^32)
    let v = l.next_u32();
    assert_eq!(v, 3_872_729_909);
    assert_eq!(l.0, v);
    // from seed 0 the state is 1013904223; the next step's top byte is 227
    let mut z = Lcg::new(0);
    assert_eq!(z.0, 1_013_904_223);
    assert_eq!(z.next_u8(), 227);
    // below(0) leaves the state alone
    let mut w = Lcg::new(5);
    let before = w.0;
    assert_eq!(w.below(0), 0);
    assert_eq!(w.0, before);
    // below(n) takes the next value modulo n without consuming it
    let v = w.below(10);
    assert_eq!(w.0, before);
    let mut c = Lcg::new(5);
    assert_eq!(v, c.next_u32() % 10);
}

#[test]
fn parser_garbage_then_frame_reports_garbage() {
    let mut p = FrameParser::new();
    let (frame, n) = encode_sensor(2, 3, 4);
    let mut bytes = vec![0x11u8, 0x22];
    bytes.extend_from_slice(&frame[..n]);
    let out = feed_all(&mut p, &bytes);
    // each junk byte is reported as it is dropped
    assert_eq!(out.len(), 3);
    assert_eq!(out[0], Decoded::Garbage);
    assert_eq!(out[1], Decoded::Garbage);
    assert!(matches!(out[2], Decoded::Frame { kind: K_SENSOR, len: 10, .. }));
}

#[test]
fn parser_absurd_length_resyncs_to_next_sync() {
    let mut p = FrameParser::new();
    // sync followed by a length above MAX_PAYLOAD, then a real frame
    let (frame, n) = encode_sensor(9, 9, 9);
    let mut bytes = vec![SYNC, 0xFF];
    bytes.extend_from_slice(&frame[..n]);
    let out = feed_all(&mut p, &bytes);
    assert!(out
        .iter()
        .any(|d| matches!(d, Decoded::Frame { kind: K_SENSOR, .. })));
}
