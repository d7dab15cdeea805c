use faultforge::args::{arg_val, parse_args};
use faultforge::campaign::fault_label;
use faultforge::parser::{Decoded, FrameParser};
use faultforge::ports::pick_port;
use faultforge::protocol::{
    encode_abort, encode_ping, encode_start, get_u16, get_u32, CampaignConfig, K_END, K_FAULT,
    K_PONG, K_SENSOR,
};
use faultforge::sim::{sim_on_frame, SharedCfg};

fn frames_of(chunks: &[Vec<u8>]) -> Vec<Decoded> {
    let mut p = FrameParser::new();
    let mut out = Vec::new();
    for c in chunks {
        for &b in c {
            if let Some(d) = p.push(b) {
                out.push(d);
            }
        }
    }
    out
}

fn args(v: &[&str]) -> Vec<String> {
    v.iter().map(|s| s.to_string()).collect()
}

#[test]
fn clean_campaign_streams_in_order_then_ends() {
    let mut sim = SharedCfg::from(CampaignConfig::clean(3, 3, 7));
    let mut seqs = Vec::new();
    for _ in 0..3 {
        let step = sim.run_next();
        assert!(!step.finished);
        assert_eq!(step.delay_before_ms, 0);
        assert_eq!(step.delay_after_ms, 7);
        assert_eq!(step.chunks.len(), 1);
        let out = frames_of(&step.chunks);
        assert_eq!(out.len(), 1);
        match out[0] {
            Decoded::Frame { kind, payload, len } => {
                assert_eq!(kind, K_SENSOR);
                assert_eq!(len, 10);
                seqs.push(get_u16(&payload, 0));
                let v = get_u32(&payload, 2);
                assert!((100..150).contains(&v));
                assert_eq!(get_u32(&payload, 6), 0);
            }
            _ => panic!("expected a sensor frame"),
        }
    }
    assert_eq!(seqs, vec![0, 1, 2]);
    let end = sim.run_next();
    assert!(end.finished);
    assert_eq!(end.delay_after_ms, 0);
    let out = frames_of(&end.chunks);
    match out[0] {
        Decoded::Frame { kind, payload, len } => {
            assert_eq!(kind, K_END);
            assert_eq!(len, 6);
            assert_eq!(get_u16(&payload, 0), 3);
            assert_eq!(get_u32(&payload, 2), 0);
        }
        _ => panic!("expected the end frame"),
    }
}

#[test]
fn drop_only_campaign_sends_notices() {
    let cfg = CampaignConfig { seed: 9, packets: 2, cadence_ms: 1, weights: [0, 0, 1, 0, 0, 0, 0] };
    let mut sim = SharedCfg::from(cfg);
    for fid in 1u32..=2 {
        let step = sim.run_next();
        let out = frames_of(&step.chunks);
        assert_eq!(out.len(), 1);
        match out[0] {
            Decoded::Frame { kind, payload, .. } => {
                assert_eq!(kind, K_FAULT);
                assert_eq!(get_u32(&payload, 0), fid);
                assert_eq!(payload[4], 3);
            }
            _ => panic!("expected a fault notice"),
        }
    }
    let end = frames_of(&sim.run_next().chunks);
    match end[0] {
        Decoded::Frame { payload, .. } => assert_eq!(get_u32(&payload, 2), 2),
        _ => panic!("expected the end frame"),
    }
}

#[test]
fn delay_and_replay_and_burst_shapes() {
    let delay = CampaignConfig { seed: 1, packets: 1, cadence_ms: 4, weights: [0, 0, 0, 1, 0, 0, 0] };
    let step = SharedCfg::from(delay).run_next();
    assert_eq!(step.delay_before_ms, 8);
    assert_eq!(step.chunks.len(), 2);

    let replay = CampaignConfig { seed: 1, packets: 1, cadence_ms: 4, weights: [0, 0, 0, 0, 1, 0, 0] };
    let step = SharedCfg::from(replay).run_next();
    assert_eq!(step.chunks.len(), 3);
    assert_eq!(step.chunks[0], step.chunks[1]);

    let burst = CampaignConfig { seed: 1, packets: 1, cadence_ms: 4, weights: [0, 0, 0, 0, 0, 1, 0] };
    let step = SharedCfg::from(burst).run_next();
    assert_eq!(step.chunks.len(), 3);
    assert_eq!(step.chunks[0].len(), 6);
}

#[test]
fn bitflip_changes_exactly_one_value_bit() {
    let cfg = CampaignConfig { seed: 77, packets: 1, cadence_ms: 1, weights: [1, 0, 0, 0, 0, 0, 0] };
    let step = SharedCfg::from(cfg).run_next();
    let out = frames_of(&step.chunks);
    assert_eq!(out.len(), 2);
    match (out[0], out[1]) {
        (Decoded::Frame { payload: s, .. }, Decoded::Frame { kind, payload: n, .. }) => {
            assert_eq!(kind, K_FAULT);
            let v = get_u32(&s, 2);
            // the clean value lies in 100..150; exactly one of the low 16 bits differs
            let flips = (100u32..150).filter(|c| (c ^ v).count_ones() == 1 && (c ^ v) < 0x1_0000).count();
            assert!(flips >= 1);
            assert_eq!(get_u32(&s, 6), 1);
            assert_eq!(get_u32(&n, 0), 1);
        }
        _ => panic!("expected two frames"),
    }
}

#[test]
fn same_seed_same_stream() {
    let cfg = CampaignConfig { seed: 5, packets: 20, cadence_ms: 1, weights: [8, 8, 8, 8, 8, 8, 0] };
    let mut a = SharedCfg::from(cfg);
    let mut b = SharedCfg::from(cfg);
    for _ in 0..21 {
        let x = a.run_next();
        let y = b.run_next();
        assert_eq!(x.chunks, y.chunks);
        assert_eq!(x.delay_before_ms, y.delay_before_ms);
        assert_eq!(x.finished, y.finished);
    }
}

#[test]
fn sim_answers_ping_starts_and_aborts() {
    let mut cfg = None;
    let (ping, n) = encode_ping();
    let mut p = FrameParser::new();
    let mut replies = Vec::new();
    for &b in &ping[..n] {
        if let Some(d) = p.push(b) {
            if let Some(r) = sim_on_frame(&mut cfg, d) {
                replies.push(r);
            }
        }
    }
    assert_eq!(replies.len(), 1);
    match frames_of(&replies)[0] {
        Decoded::Frame { kind, len, .. } => {
            assert_eq!(kind, K_PONG);
            assert_eq!(len, 0);
        }
        _ => panic!("expected a pong"),
    }
    assert!(cfg.is_none());

    let (start, n) = encode_start(&CampaignConfig::clean(1, 2, 3));
    for &b in &start[..n] {
        if let Some(d) = p.push(b) {
            assert!(sim_on_frame(&mut cfg, d).is_none());
        }
    }
    assert!(cfg.is_some());
    let (abort, n) = encode_abort();
    for &b in &abort[..n] {
        if let Some(d) = p.push(b) {
            assert!(sim_on_frame(&mut cfg, d).is_none());
        }
    }
    assert!(cfg.is_none());
    assert!(sim_on_frame(&mut cfg, Decoded::Garbage).is_none());
}

#[test]
fn parse_args_defaults() {
    let (o, unknown) = parse_args(&args(&["faultforge", "run"]));
    assert!(!o.simulated);
    assert_eq!(o.seed, 42);
    assert_eq!(o.packets, 1500);
    assert_eq!(o.cadence_ms, 5);
    assert_eq!(o.profile, "fuzz");
    assert!(!o.quiet);
    assert!(unknown.is_none());
}

#[test]
fn parse_args_values_and_fallbacks() {
    let (o, unknown) = parse_args(&args(&[
        "faultforge", "run", "--simulate", "--seed", "7", "--packets", "70000", "--cadence-ms",
        "+9", "--profile", "emi", "--quiet",
    ]));
    assert!(o.simulated);
    assert_eq!(o.seed, 7);
    // out of range for u16: default
    assert_eq!(o.packets, 1500);
    assert_eq!(o.cadence_ms, 9);
    assert_eq!(o.profile, "emi");
    assert!(o.quiet);
    assert!(unknown.is_none());

    let (o, unknown) = parse_args(&args(&["x", "--profile", "loud", "--seed", "-1"]));
    assert_eq!(o.profile, "fuzz");
    assert_eq!(unknown.as_deref(), Some("loud"));
    assert_eq!(o.seed, 42);
    // a flag at the very end has no value
    assert_eq!(arg_val(&args(&["x", "--seed"]), "--seed"), None);
    assert_eq!(arg_val(&args(&["x", "--seed", "1", "--seed", "2"]), "--seed"), Some("1".to_string()));
}

#[test]
fn pick_port_prefers_usb_devices() {
    let names = args(&["/dev/ttyS0", "/dev/ttyACM0", "/dev/ttyUSB1"]);
    assert_eq!(pick_port(&names), Some("/dev/ttyACM0".to_string()));
    assert_eq!(pick_port(&args(&["/dev/cu.usbmodem1"])), Some("/dev/cu.usbmodem1".to_string()));
    assert_eq!(pick_port(&args(&["COM3", "/dev/ttyS1"])), None);
    assert_eq!(pick_port(&[]), None);
}

#[test]
fn fault_labels() {
    assert_eq!(fault_label(0), "none");
    assert_eq!(fault_label(1), "bitflip");
    assert_eq!(fault_label(3), "drop");
    assert_eq!(fault_label(7), "duty");
    assert_eq!(fault_label(8), "?");
}
