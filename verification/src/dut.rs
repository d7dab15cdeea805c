//! The device under test. The host receives the injector's measurement stream
//! and must detect every anomaly: CRC failures, sequence gaps, duplicate
//! frames, late arrivals and garbage bursts, like a telemetry consumer that
//! must never trust a faulted link.
//!
//! Times are nanoseconds on the detector's monotonic clock, counted from the
//! moment the detector was created.

use vstd::prelude::*;
use crate::parser::Decoded;
use crate::protocol::{get_u16, get_u32, le16, le32, FAULT_PAYLOAD_LEN, K_SENSOR, MAX_PAYLOAD};

verus! {

#[verifier::external_type_specification]
#[verifier::external_body]
pub struct ExInstant(std::time::Instant);

/// Reads the monotonic clock (`std::time::Instant::now`). Nothing is claimed
/// of the instant returned.
#[verifier::external_body]
fn clock_now() -> std::time::Instant {
    std::time::Instant::now()
}

/// Time elapsed since `origin` (`std::time::Instant::elapsed`). It depends on
/// the time of the call, so nothing is claimed of it.
#[verifier::external_body]
fn elapsed_since(origin: &std::time::Instant) -> std::time::Duration {
    origin.elapsed()
}

/// Whole nanoseconds of `d` (`std::time::Duration::as_nanos`). The duration
/// is opaque here, so nothing is claimed of the count.
#[verifier::external_body]
fn duration_nanos(d: &std::time::Duration) -> u128 {
    d.as_nanos()
}

#[derive(Clone, Copy, PartialEq, Eq, Debug, Hash, Structural)]
pub enum DetKind {
    /// A frame failed its CRC check (or framing broke so hard we saw garbage).
    Crc,
    /// Missing sequence numbers between two good frames.
    Gap,
    /// A sequence number appeared twice.
    Replay,
    /// A frame arrived later than the cadence budget allows.
    Late,
    /// A run of unparseable bytes between frames.
    Burst,
}

/// The label of a detection kind in reports.
pub open spec fn det_label(k: DetKind) -> Seq<char> {
    match k {
        DetKind::Crc => "crc"@,
        DetKind::Gap => "gap"@,
        DetKind::Replay => "replay"@,
        DetKind::Late => "late"@,
        DetKind::Burst => "burst"@,
    }
}

impl DetKind {
    pub fn as_str(&self) -> (s: &'static str)
        ensures
            s@ == det_label(*self),
    {
        match self {
            DetKind::Crc => "crc",
            DetKind::Gap => "gap",
            DetKind::Replay => "replay",
            DetKind::Late => "late",
            DetKind::Burst => "burst",
        }
    }
}

#[derive(Clone, Copy, Debug)]
pub struct Detection {
    pub kind: DetKind,
    pub seq: u16,
    /// When the anomaly was seen, in nanoseconds on the detector's clock.
    pub at_ns: u64,
    pub frame_idx: u64,
}

/// One outcome of the streaming parser, as the detector consumes it.
#[derive(Clone, Copy, Debug)]
pub struct DuFrame {
    pub kind: u8,
    pub payload: [u8; MAX_PAYLOAD],
    pub len: usize,
    pub bad_crc: bool,
    pub garbage: bool,
}

impl DuFrame {
    /// The detector's view of a parser outcome. Junk carries kind 0xFF.
    pub fn from_decoded(d: Decoded) -> (f: Self)
        ensures
            d matches Decoded::Frame { kind, payload, len } ==> f == (DuFrame {
                kind,
                payload,
                len,
                bad_crc: false,
                garbage: false,
            }),
            d matches Decoded::BadCrc { kind } ==> f.kind == kind && f.payload@ == Seq::new(
                MAX_PAYLOAD as nat,
                |i: int| 0u8,
            ) && f.len == 0 && f.bad_crc && !f.garbage,
            d is Garbage ==> f.kind == 0xFF && f.payload@ == Seq::new(
                MAX_PAYLOAD as nat,
                |i: int| 0u8,
            ) && f.len == 0 && !f.bad_crc && f.garbage,
    {
        let f = match d {
            Decoded::Frame { kind, payload, len } => DuFrame {
                kind,
                payload,
                len,
                bad_crc: false,
                garbage: false,
            },
            Decoded::BadCrc { kind } => DuFrame {
                kind,
                payload: [0;MAX_PAYLOAD],
                len: 0,
                bad_crc: true,
                garbage: false,
            },
            Decoded::Garbage => DuFrame {
                kind: u8::MAX,
                payload: [0;MAX_PAYLOAD],
                len: 0,
                bad_crc: false,
                garbage: true,
            },
        };
        assert(f.payload@ =~= Seq::new(MAX_PAYLOAD as nat, |i: int| 0u8) || d is Frame);
        f
    }
}

/// What the detector remembers between frames.
pub ghost struct DutState {
    pub cadence_ms: u16,
    pub last_seq: Option<u16>,
    pub last_time_ns: Option<u64>,
    pub junk_run: u32,
    pub burst_flagged: bool,
    pub frame_idx: u64,
    pub detections: Seq<Detection>,
}

/// Late budget: a little headroom over a single cadence; a frame this far
/// outside the normal spacing is suspicious.
pub open spec fn late_budget_ms(cadence_ms: u16) -> int {
    cadence_ms * 4 + 5
}

/// Whole milliseconds from `earlier` to `later` (zero if `later` is earlier).
pub open spec fn elapsed_ms(earlier: u64, later: u64) -> int {
    if later >= earlier {
        (later - earlier) / 1_000_000
    } else {
        0
    }
}

/// The sequence number expected after `last`.
pub open spec fn next_seq(last: Option<u16>) -> u16 {
    match last {
        Some(s) => if s == u16::MAX {
            0
        } else {
            (s + 1) as u16
        },
        None => 0,
    }
}

/// `d` with a detection of kind `k` for sequence `seq`, seen at `now`.
pub open spec fn with_detection(d: DutState, k: DetKind, seq: u16, now: u64) -> DutState {
    DutState {
        detections: d.detections.push(Detection { kind: k, seq, at_ns: now, frame_idx: d.frame_idx }),
        ..d
    }
}

/// What a sensor frame with sequence number `seq` arriving at `now` reveals
/// when the previous good frame was `last` at `last_time`.
pub open spec fn sequence_check(d: DutState, seq: u16, now: u64) -> DutState {
    match (d.last_seq, d.last_time_ns) {
        (Some(last), Some(lt)) => {
            let on_time = elapsed_ms(lt, now) < late_budget_ms(d.cadence_ms);
            let expected = next_seq(Some(last));
            if seq == expected {
                // Normal arrival, but flagged if it was grossly late.
                if !on_time {
                    with_detection(d, DetKind::Late, seq, now)
                } else {
                    d
                }
            } else if seq == last {
                with_detection(d, DetKind::Replay, seq, now)
            } else if seq > expected {
                // A drop (or two) happened somewhere before it.
                with_detection(d, DetKind::Gap, seq, now)
            } else {
                // Older than the last one but not a duplicate.
                with_detection(d, DetKind::Replay, seq, now)
            }
        },
        _ => d,
    }
}

/// The detector after consuming frame `f` at time `now`.
pub open spec fn dut_step(d: DutState, f: DuFrame, now: u64) -> DutState {
    let d1 = DutState { frame_idx: (d.frame_idx + 1) as u64, ..d };
    if f.garbage {
        DutState { junk_run: (d1.junk_run + 1) as u32, burst_flagged: false, ..d1 }
    } else {
        let guess = next_seq(d1.last_seq);
        // A burst of junk then a real frame: one Burst detection.
        let d2 = if d1.junk_run >= 1 {
            let d3 = DutState { junk_run: 0, ..d1 };
            if !d3.burst_flagged {
                with_detection(DutState { burst_flagged: true, ..d3 }, DetKind::Burst, guess, now)
            } else {
                d3
            }
        } else {
            d1
        };
        if f.bad_crc {
            with_detection(d2, DetKind::Crc, guess, now)
        } else if f.kind != K_SENSOR {
            d2
        } else {
            let seq = le16(f.payload@[0], f.payload@[1]) as u16;
            DutState { last_seq: Some(seq), last_time_ns: Some(now), ..sequence_check(d2, seq, now) }
        }
    }
}

/// The detector never forgets: a step keeps every earlier detection, in
/// order, and adds at most two (a burst and the frame's own).
pub proof fn lemma_detections_append_only(d: DutState, f: DuFrame, now: u64)
    ensures
        dut_step(d, f, now).detections.len() <= d.detections.len() + 2,
        d.detections.len() <= dut_step(d, f, now).detections.len(),
        dut_step(d, f, now).detections.take(d.detections.len() as int) == d.detections,
        dut_step(d, f, now).frame_idx == d.frame_idx + 1 || d.frame_idx == u64::MAX,
{
    let r = dut_step(d, f, now);
    assert(r.detections.take(d.detections.len() as int) =~= d.detections);
}

/// A frame that failed its CRC is always reported as a CRC detection, for
/// the sequence number that was due.
pub proof fn lemma_bad_crc_detected(d: DutState, f: DuFrame, now: u64)
    requires
        f.bad_crc,
        !f.garbage,
    ensures
        dut_step(d, f, now).detections.len() > 0,
        dut_step(d, f, now).detections.last().kind == DetKind::Crc,
        dut_step(d, f, now).detections.last().seq == next_seq(d.last_seq),
        dut_step(d, f, now).detections.last().at_ns == now,
{
}

/// A sensor frame that carries the next sequence number, arrives within the
/// late budget and follows no junk raises nothing: a clean stream is silent.
pub proof fn lemma_in_order_frame_is_silent(d: DutState, f: DuFrame, now: u64)
    requires
        !f.garbage,
        !f.bad_crc,
        f.kind == K_SENSOR,
        d.junk_run == 0,
        d.last_seq is Some,
        d.last_time_ns is Some,
        le16(f.payload@[0], f.payload@[1]) == next_seq(d.last_seq),
        elapsed_ms(d.last_time_ns->0, now) < late_budget_ms(d.cadence_ms),
    ensures
        dut_step(d, f, now).detections == d.detections,
        dut_step(d, f, now).last_seq == Some(next_seq(d.last_seq)),
        dut_step(d, f, now).last_time_ns == Some(now),
{
}

/// A sensor frame with the same sequence number as the last good one is
/// reported as a replay; one that skips ahead of the next due number (and is
/// not a repeat) is reported as a gap; the next due one, arriving after the
/// late budget, is reported as late.
pub proof fn lemma_sequence_anomalies_detected(d: DutState, f: DuFrame, now: u64)
    requires
        !f.garbage,
        !f.bad_crc,
        f.kind == K_SENSOR,
        d.last_seq is Some,
        d.last_time_ns is Some,
    ensures
        ({
            let seq = le16(f.payload@[0], f.payload@[1]);
            let r = dut_step(d, f, now).detections;
            &&& seq == d.last_seq->0 ==> r.len() > 0 && r.last().kind == DetKind::Replay
                && r.last().seq == seq
            &&& seq > next_seq(d.last_seq) && seq != d.last_seq->0 ==> r.len() > 0
                && r.last().kind == DetKind::Gap && r.last().seq == seq
            &&& seq == next_seq(d.last_seq) && elapsed_ms(d.last_time_ns->0, now)
                >= late_budget_ms(d.cadence_ms) ==> r.len() > 0 && r.last().kind == DetKind::Late
                && r.last().seq == seq
        }),
{
    let seq = le16(f.payload@[0], f.payload@[1]);
    assert(0 <= seq < 0x1_0000);
    assert(seq as u16 == seq);
}

/// A sensor frame that passed its CRC becomes the last good frame: whatever
/// it raised, its sequence number and its arrival time are what the next
/// frame is measured against. Its own detections come from the same
/// arrival time.
pub proof fn lemma_sensor_frame_becomes_last(d: DutState, f: DuFrame, now: u64)
    requires
        !f.garbage,
        !f.bad_crc,
        f.kind == K_SENSOR,
    ensures
        dut_step(d, f, now).last_time_ns == Some(now),
        dut_step(d, f, now).last_seq == Some(le16(f.payload@[0], f.payload@[1]) as u16),
        forall|i: int|
            d.detections.len() <= i < dut_step(d, f, now).detections.len() ==> (#[trigger] dut_step(
                d,
                f,
                now,
            ).detections[i]).at_ns == now,
{
    lemma_detections_append_only(d, f, now);
}

/// The detector after consuming `frames` in order, each with its arrival time.
pub open spec fn dut_run(d: DutState, frames: Seq<(DuFrame, u64)>) -> DutState
    decreases frames.len(),
{
    if frames.len() == 0 {
        d
    } else {
        let prev = dut_run(d, frames.drop_last());
        dut_step(prev, frames.last().0, frames.last().1)
    }
}

/// A run of garbage frames raises nothing and keeps the last good frame; it
/// counts each frame and each junk outcome, and re-arms the burst report.
pub proof fn lemma_garbage_run(d: DutState, gs: Seq<(DuFrame, u64)>)
    requires
        forall|i: int| 0 <= i < gs.len() ==> (#[trigger] gs[i]).0.garbage,
        d.frame_idx + gs.len() <= u64::MAX,
        d.junk_run + gs.len() <= u32::MAX,
    ensures
        dut_run(d, gs).detections == d.detections,
        dut_run(d, gs).last_seq == d.last_seq,
        dut_run(d, gs).last_time_ns == d.last_time_ns,
        dut_run(d, gs).cadence_ms == d.cadence_ms,
        dut_run(d, gs).frame_idx == d.frame_idx + gs.len(),
        dut_run(d, gs).junk_run == d.junk_run + gs.len(),
        gs.len() > 0 ==> !dut_run(d, gs).burst_flagged,
    decreases gs.len(),
{
    if gs.len() > 0 {
        let prev = gs.drop_last();
        assert forall|i: int| 0 <= i < prev.len() implies (#[trigger] prev[i]).0.garbage by {
            assert(prev[i] == gs[i]);
        }
        lemma_garbage_run(d, prev);
        assert(gs.last() == gs[gs.len() - 1]);
    }
}

/// A burst of one or more garbage frames followed by a real frame is reported
/// once: the real frame's first new detection is a Burst for the sequence
/// number that was due, and the real frame after it reports no Burst. The
/// garbage frames raise nothing, every frame is counted, and earlier
/// detections are kept.
pub proof fn lemma_burst_reported_once(
    d: DutState,
    gs: Seq<(DuFrame, u64)>,
    f: DuFrame,
    tf: u64,
    h: DuFrame,
    th: u64,
)
    requires
        gs.len() >= 1,
        forall|i: int| 0 <= i < gs.len() ==> (#[trigger] gs[i]).0.garbage,
        !f.garbage,
        !h.garbage,
        d.frame_idx + gs.len() + 2 <= u64::MAX,
        d.junk_run + gs.len() <= u32::MAX,
    ensures
        ({
            let dg = dut_run(d, gs);
            let df = dut_step(dg, f, tf);
            let dh = dut_step(df, h, th);
            &&& dg.detections == d.detections
            &&& df.detections.len() > d.detections.len()
            &&& df.detections.take(d.detections.len() as int) == d.detections
            &&& df.detections[d.detections.len() as int].kind == DetKind::Burst
            &&& df.detections[d.detections.len() as int].seq == next_seq(d.last_seq)
            &&& dh.detections.take(df.detections.len() as int) == df.detections
            &&& forall|i: int|
                df.detections.len() <= i < dh.detections.len() ==> (#[trigger] dh.detections[i]).kind
                    != DetKind::Burst
            &&& dg.frame_idx == d.frame_idx + gs.len()
            &&& df.frame_idx == dg.frame_idx + 1
            &&& dh.frame_idx == df.frame_idx + 1
        }),
{
    lemma_garbage_run(d, gs);
    let dg = dut_run(d, gs);
    let df = dut_step(dg, f, tf);
    let dh = dut_step(df, h, th);
    lemma_detections_append_only(dg, f, tf);
    lemma_detections_append_only(df, h, th);
    assert(df.junk_run == 0);
    let n = d.detections.len() as int;
    assert(df.detections[n].kind == DetKind::Burst);
    assert forall|i: int|
        df.detections.len() <= i < dh.detections.len() implies (#[trigger] dh.detections[i]).kind
        != DetKind::Burst by {}
}

pub struct Dut {
    cadence_ms: u16,
    last_seq: Option<u16>,
    last_time_ns: Option<u64>,
    junk_run: u32,
    burst_flagged: bool,
    pub frame_idx: u64,
    pub detections: Vec<Detection>,
    origin: std::time::Instant,
}

impl View for Dut {
    type V = DutState;

    closed spec fn view(&self) -> DutState {
        DutState {
            cadence_ms: self.cadence_ms,
            last_seq: self.last_seq,
            last_time_ns: self.last_time_ns,
            junk_run: self.junk_run,
            burst_flagged: self.burst_flagged,
            frame_idx: self.frame_idx,
            detections: self.detections@,
        }
    }
}

impl Dut {
    /// A detector for a stream with the given cadence; its clock starts now.
    pub fn new(cadence_ms: u16) -> (d: Self)
        ensures
            d@ == (DutState {
                cadence_ms,
                last_seq: None,
                last_time_ns: None,
                junk_run: 0,
                burst_flagged: false,
                frame_idx: 0,
                detections: Seq::empty(),
            }),
    {
        Self {
            cadence_ms,
            last_seq: None,
            last_time_ns: None,
            junk_run: 0,
            burst_flagged: false,
            frame_idx: 0,
            detections: Vec::new(),
            origin: clock_now(),
        }
    }

    /// Frames consumed so far.
    pub fn frame_idx(&self) -> (r: u64)
        ensures
            r == self@.frame_idx,
    {
        self.frame_idx
    }

    /// Junk outcomes seen since the last real frame.
    pub fn junk_run(&self) -> (r: u32)
        ensures
            r == self@.junk_run,
    {
        self.junk_run
    }

    /// Nanoseconds on the detector's clock.
    pub fn now_ns(&self) -> u64 {
        let d = elapsed_since(&self.origin);
        duration_nanos(&d) as u64
    }

    fn record(&mut self, kind: DetKind, seq: u16, now: u64)
        ensures
            final(self)@ == with_detection(old(self)@, kind, seq, now),
    {
        self.detections.push(Detection { kind, seq, at_ns: now, frame_idx: self.frame_idx });
    }

    fn late_budget_ms(&self) -> (b: u64)
        ensures
            b == late_budget_ms(self@.cadence_ms),
    {
        self.cadence_ms as u64 * 4 + 5
    }

    /// Consume one frame, reading the detector's clock for its arrival time.
    pub fn process(&mut self, f: &DuFrame)
        requires
            old(self)@.frame_idx < u64::MAX,
            f.garbage ==> old(self)@.junk_run < u32::MAX,
        ensures
            exists|now: u64| final(self)@ == dut_step(old(self)@, *f, now),
    {
        let now = self.now_ns();
        self.process_at(f, now);
    }

    /// Consume one frame that arrived at `now`.
    pub fn process_at(&mut self, f: &DuFrame, now: u64)
        requires
            old(self)@.frame_idx < u64::MAX,
            f.garbage ==> old(self)@.junk_run < u32::MAX,
        ensures
            final(self)@ == dut_step(old(self)@, *f, now),
    {
        self.frame_idx += 1;

        if f.garbage {
            self.junk_run += 1;
            self.burst_flagged = false;
            return;
        }

        let guess = match self.last_seq {
            Some(s) => s.wrapping_add(1),
            None => 0,
        };
        // A burst of junk then a real frame: coalesce into a single Burst detection.
        if self.junk_run >= 1 {
            self.junk_run = 0;
            if !self.burst_flagged {
                self.burst_flagged = true;
                self.record(DetKind::Burst, guess, now);
            }
        }

        if f.bad_crc {
            self.record(DetKind::Crc, self.guess_seq(guess), now);
            return;
        }

        if f.kind != K_SENSOR {
            return;
        }

        let seq = get_u16(&f.payload, 0);

        if let (Some(last), Some(lt)) = (self.last_seq, self.last_time_ns) {
            let elapsed = if now >= lt { (now - lt) / 1_000_000 } else { 0 };
            let on_time = elapsed < self.late_budget_ms();
            let expected = last.wrapping_add(1);
            if seq == expected {
                // Normal arrival. But if it was grossly late, flag it.
                if !on_time {
                    self.record(DetKind::Late, seq, now);
                }
            } else if seq == last {
                self.record(DetKind::Replay, seq, now);
            } else if seq > expected {
                // A drop (or two) happened somewhere before us.
                self.record(DetKind::Gap, seq, now);
            } else {
                // Arrived out of order (older than last) but not a duplicate.
                self.record(DetKind::Replay, seq, now);
            }
        }

        self.last_seq = Some(seq);
        self.last_time_ns = Some(now);
    }

    fn guess_seq(&self, seq: u16) -> (r: u16)
        ensures
            r == seq,
    {
        seq
    }
}

/// Ground truth from the injector: exactly what it injected, so the host can
/// score its own detections.
#[derive(Clone, Copy, Debug)]
pub struct GroundTruth {
    pub fault_id: u32,
    pub kind: u8,
    pub at_seq: u16,
    pub frame_idx: u64,
    /// When the notice arrived, in nanoseconds on the detector's clock.
    pub at_ns: u64,
}

impl GroundTruth {
    /// Read a FAULT payload received as frame `frame_idx` at `at_ns`.
    pub fn from_payload(p: &[u8], frame_idx: u64, at_ns: u64) -> (r: Option<Self>)
        ensures
            r is None <==> p@.len() < FAULT_PAYLOAD_LEN,
            r matches Some(g) ==> {
                &&& g.fault_id == le32(p@[0], p@[1], p@[2], p@[3])
                &&& g.kind == p@[4]
                &&& g.at_seq == le16(p@[5], p@[6])
                &&& g.frame_idx == frame_idx
                &&& g.at_ns == at_ns
            },
    {
        if p.len() < FAULT_PAYLOAD_LEN {
            return None;
        }
        Some(Self { fault_id: get_u32(p, 0), kind: p[4], at_seq: get_u16(p, 5), frame_idx, at_ns })
    }
}

} // verus!
