//! In-process injector: a copy of the firmware campaign engine, so a
//! simulated run reproduces exactly what the injector emits for a given seed.
//!
//! The engine decides; the caller performs. Each step says how long to wait,
//! which byte chunks to send, and how long to wait afterwards.

use vstd::prelude::*;
use crate::parser::Decoded;
use crate::protocol::{
    decode_start, decodes_start, encode_end, encode_fault_event, encode_pong, encode_sensor,
    end_payload, fault_payload, frame_bytes, frame_buffer, get_u32, lcg_mix, lcg_step, le32,
    sensor_payload, CampaignConfig, Lcg, FAULT_BITFLIP, FAULT_BURST, FAULT_BYTE, FAULT_DELAY,
    FAULT_DROP, FAULT_REPLAY, K_ABORT, K_PING, K_PONG, K_START, MAX_FRAME, MAX_PAYLOAD,
    N_FAULT_KINDS, SENSOR_PAYLOAD_LEN,
};

verus! {

/// What the simulated injector remembers between steps.
pub ghost struct SimState {
    pub packets: u16,
    pub cadence_ms: u16,
    pub weights: Seq<u8>,
    pub rng: u32,
    pub seq: u16,
    pub fault_id: u32,
    pub sent: u16,
}

/// Sum of the first `n` weights.
pub open spec fn weight_sum(w: Seq<u8>, n: int) -> nat
    decreases n,
{
    if n <= 0 {
        0
    } else {
        weight_sum(w, n - 1) + w[n - 1] as nat
    }
}

/// The fault kind that draw `r` selects, scanning the weights from index `i`:
/// kind `i + 1` takes the draws below its weight.
pub open spec fn kind_for_draw(w: Seq<u8>, r: int, i: int) -> u8
    decreases w.len() - i,
{
    if i < 0 || i >= w.len() {
        0
    } else if r < w[i] {
        (i + 1) as u8
    } else {
        kind_for_draw(w, r - w[i], i + 1)
    }
}

/// The fault kind of the next slot: none (0) when all weights are zero, else
/// one drawn from the next PRNG value with probability proportional to its
/// weight. Drawing does not consume the PRNG.
pub open spec fn pick_spec(w: Seq<u8>, rng: u32) -> u8 {
    let total = weight_sum(w, w.len() as int);
    if total == 0 {
        0
    } else {
        kind_for_draw(w, lcg_step(rng) as int % total as int, 0)
    }
}

/// `k` steps of the campaign PRNG.
pub open spec fn lcg_steps(x: u32, k: nat) -> u32
    decreases k,
{
    if k == 0 {
        x
    } else {
        lcg_step(lcg_steps(x, (k - 1) as nat))
    }
}

/// The bytes of the frame that `encode` built for `payload`.
pub open spec fn wire(kind: u8, payload: Seq<u8>) -> Seq<u8> {
    frame_bytes(kind, payload)
}

/// Six junk bytes: the top bytes of the next six PRNG values.
pub open spec fn junk_bytes(x: u32) -> Seq<u8> {
    Seq::new(6, |k: int| (lcg_steps(x, (k + 1) as nat) >> 24) as u8)
}

/// One slot of the campaign: the state afterwards, the wait before sending,
/// the chunks sent, and whether the campaign is over.
pub open spec fn sim_step(s: SimState) -> (SimState, u64, Seq<Seq<u8>>, bool) {
    if s.sent >= s.packets {
        (s, 0, seq![wire(crate::protocol::K_END, end_payload(s.packets, s.fault_id))], true)
    } else {
        let kind = pick_spec(s.weights, s.rng);
        let draw = lcg_step(s.rng);
        let seq = s.seq;
        let value = (100 + draw % 50) as u32;
        let next = SimState {
            seq: if seq == u16::MAX { 0 } else { (seq + 1) as u16 },
            sent: (s.sent + 1) as u16,
            ..s
        };
        let fid = (s.fault_id + 1) as u32;
        let clean = wire(crate::protocol::K_SENSOR, sensor_payload(seq, value, 0));
        let notice = wire(crate::protocol::K_FAULT, fault_payload(fid, kind, seq));
        if kind == FAULT_BITFLIP {
            let bit = draw % 16;
            let faulted = value ^ (1u32 << bit);
            (
                SimState { fault_id: fid, ..next },
                0,
                seq![wire(crate::protocol::K_SENSOR, sensor_payload(seq, faulted, fid)), notice],
                false,
            )
        } else if kind == FAULT_BYTE {
            let idx = draw % 4;
            let faulted = value ^ (0xA5u32 << (8 * idx));
            (
                SimState { fault_id: fid, ..next },
                0,
                seq![wire(crate::protocol::K_SENSOR, sensor_payload(seq, faulted, fid)), notice],
                false,
            )
        } else if kind == FAULT_DROP {
            (SimState { fault_id: fid, ..next }, 0, seq![notice], false)
        } else if kind == FAULT_DELAY {
            (SimState { fault_id: fid, ..next }, (s.cadence_ms * 2) as u64, seq![clean, notice], false)
        } else if kind == FAULT_REPLAY {
            (SimState { fault_id: fid, ..next }, 0, seq![clean, clean, notice], false)
        } else if kind == FAULT_BURST {
            (
                SimState { rng: lcg_steps(s.rng, 6), fault_id: fid, ..next },
                0,
                seq![junk_bytes(s.rng), clean, notice],
                false,
            )
        } else {
            (next, 0, seq![clean], false)
        }
    }
}

/// What the engine keeps true: no more faults than slots sent, and no more
/// slots sent than the campaign has.
pub open spec fn sim_wf(s: SimState) -> bool {
    s.fault_id <= s.sent <= s.packets
}

proof fn lemma_kind_for_draw_range(w: Seq<u8>, r: int, i: int)
    requires
        w.len() <= 255,
        0 <= i <= w.len(),
        0 <= r < weight_sum(w, w.len() as int) - weight_sum(w, i),
    ensures
        i + 1 <= kind_for_draw(w, r, i) <= w.len(),
        w[kind_for_draw(w, r, i) - 1] > 0,
    decreases w.len() - i,
{
    lemma_weight_sum_mono(w, i, w.len() as int);
    if i < w.len() && r >= w[i] {
        assert(weight_sum(w, i + 1) == weight_sum(w, i) + w[i]);
        lemma_kind_for_draw_range(w, r - w[i], i + 1);
    }
}

proof fn lemma_weight_sum_mono(w: Seq<u8>, i: int, j: int)
    requires
        0 <= i <= j,
    ensures
        weight_sum(w, i) <= weight_sum(w, j),
    decreases j - i,
{
    if i < j {
        lemma_weight_sum_mono(w, i, j - 1);
    }
}

/// The fault kind drawn for a slot: none when every weight is zero, else one
/// of the kinds 1 ..= 7 whose weight is not zero.
pub proof fn lemma_pick_kind(w: Seq<u8>, rng: u32)
    requires
        w.len() == N_FAULT_KINDS,
    ensures
        weight_sum(w, w.len() as int) == 0 ==> pick_spec(w, rng) == 0,
        weight_sum(w, w.len() as int) > 0 ==> 1 <= pick_spec(w, rng) <= N_FAULT_KINDS && w[pick_spec(
            w,
            rng,
        ) - 1] > 0,
{
    let total = weight_sum(w, w.len() as int);
    if total > 0 {
        lemma_kind_for_draw_range(w, lcg_step(rng) as int % total as int, 0);
    }
}

/// One slot of the engine: the campaign ends (with the END frame, the engine
/// unchanged) exactly when every slot was sent; otherwise one more slot is
/// sent, the sequence number moves on, the engine stays well formed, and the
/// fault id moves by one exactly when a scored fault (kinds 1 ..= 6) was
/// drawn, whose notice, for this slot's sequence number and the new fault id,
/// is the last chunk sent; a slot with no fault sends one clean sensor frame.
pub proof fn lemma_sim_step_effects(s: SimState)
    requires
        sim_wf(s),
        s.weights.len() == N_FAULT_KINDS,
    ensures
        ({
            let (n, _, chunks, finished) = sim_step(s);
            let kind = pick_spec(s.weights, s.rng);
            &&& finished == (s.sent >= s.packets)
            &&& finished ==> n == s && chunks == seq![
                wire(crate::protocol::K_END, end_payload(s.packets, s.fault_id)),
            ]
            &&& !finished ==> {
                &&& n.sent == s.sent + 1
                &&& n.seq == (if s.seq == u16::MAX {
                    0
                } else {
                    s.seq + 1
                })
                &&& n.packets == s.packets && n.cadence_ms == s.cadence_ms && n.weights == s.weights
                &&& sim_wf(n)
                &&& (n.fault_id == s.fault_id + 1) == (1 <= kind <= 6)
                &&& n.fault_id == s.fault_id || n.fault_id == s.fault_id + 1
                &&& n.fault_id == s.fault_id + 1 ==> chunks.len() > 0 && chunks.last() == wire(
                    crate::protocol::K_FAULT,
                    fault_payload(n.fault_id, kind, s.seq),
                )
                &&& n.fault_id == s.fault_id ==> chunks == seq![
                    wire(
                        crate::protocol::K_SENSOR,
                        sensor_payload(s.seq, (100 + lcg_step(s.rng) % 50) as u32, 0),
                    ),
                ]
            }
        }),
{
    lemma_pick_kind(s.weights, s.rng);
}

/// `v` with 0xA5 XORed into its byte `j` (0 is the least significant).
pub open spec fn a5_in_byte(v: u32, j: u32) -> u32 {
    v ^ (0xA5u32 << (8 * j))
}

/// A slot that draws a bit flip or a byte corruption really corrupts the
/// sensor value it sends: the value in its sensor frame is the clean value
/// with one of its low sixteen bits flipped, respectively with 0xA5 XORed
/// into one of its four bytes, so it always differs from the clean value;
/// the frame carries the new fault id, and the notice follows it.
pub proof fn lemma_corrupted_value_differs(s: SimState)
    requires
        sim_wf(s),
        s.weights.len() == N_FAULT_KINDS,
        s.sent < s.packets,
    ensures
        ({
            let (n, _, chunks, _) = sim_step(s);
            let kind = pick_spec(s.weights, s.rng);
            let clean = (100 + lcg_step(s.rng) % 50) as u32;
            &&& kind == FAULT_BITFLIP ==> chunks.len() == 2 && exists|bit: u32|
                bit < 16 && (clean ^ (1u32 << bit)) != clean && chunks[0] == wire(
                    crate::protocol::K_SENSOR,
                    sensor_payload(s.seq, clean ^ (1u32 << bit), n.fault_id),
                )
            &&& kind == FAULT_BYTE ==> chunks.len() == 2 && exists|j: u32|
                j < 4 && #[trigger] a5_in_byte(clean, j) != clean && chunks[0] == wire(
                    crate::protocol::K_SENSOR,
                    sensor_payload(s.seq, a5_in_byte(clean, j), n.fault_id),
                )
            &&& (kind == FAULT_BITFLIP || kind == FAULT_BYTE) ==> n.fault_id == s.fault_id + 1
                && chunks[1] == wire(
                crate::protocol::K_FAULT,
                fault_payload(n.fault_id, kind, s.seq),
            )
        }),
{
    let draw = lcg_step(s.rng);
    let clean = (100 + draw % 50) as u32;
    let bit = draw % 16;
    let j = draw % 4;
    assert(bit < 16 ==> (clean ^ (1u32 << bit)) != clean) by (bit_vector);
    assert(j < 4 ==> (clean ^ (0xA5u32 << (8 * j))) != clean) by (bit_vector);
    assert(a5_in_byte(clean, j) == clean ^ (0xA5u32 << (8 * j)));
}

/// What one slot asks the caller to do.
pub struct SimStep {
    /// Wait this long before sending.
    pub delay_before_ms: u64,
    /// Send these chunks, in order.
    pub chunks: Vec<Vec<u8>>,
    /// Wait this long after sending.
    pub delay_after_ms: u64,
    /// The campaign is over.
    pub finished: bool,
}

/// The simulated campaign engine.
pub struct SharedCfg {
    packets: u16,
    cadence_ms: u16,
    weights: [u8; N_FAULT_KINDS],
    rng: Lcg,
    seq: u16,
    fault_id: u32,
    sent: u16,
}

impl View for SharedCfg {
    type V = SimState;

    closed spec fn view(&self) -> SimState {
        SimState {
            packets: self.packets,
            cadence_ms: self.cadence_ms,
            weights: self.weights@,
            rng: self.rng.0,
            seq: self.seq,
            fault_id: self.fault_id,
            sent: self.sent,
        }
    }
}

/// The first `n` bytes of `buf`, as a vector.
fn prefix_vec(buf: &[u8; MAX_FRAME], n: usize) -> (v: Vec<u8>)
    requires
        n <= MAX_FRAME,
    ensures
        v@ == buf@.take(n as int),
{
    let mut v = Vec::new();
    let mut i: usize = 0;
    while i < n
        invariant
            i <= n <= MAX_FRAME,
            v@ == buf@.take(i as int),
        decreases n - i,
    {
        v.push(buf[i]);
        i = i + 1;
        assert(v@ =~= buf@.take(i as int));
    }
    v
}

proof fn lemma_wire_prefix(kind: u8, payload: Seq<u8>, buf: Seq<u8>)
    requires
        payload.len() <= MAX_PAYLOAD,
        buf == frame_buffer(kind, payload),
    ensures
        buf.take(payload.len() + 4int) == wire(kind, payload),
{
    assert(buf.take(payload.len() + 4int) =~= wire(kind, payload));
}

/// The sensor frame of a slot, as sent.
fn sensor_chunk(seq: u16, value: u32, fault_id: u32) -> (v: Vec<u8>)
    ensures
        v@ == wire(crate::protocol::K_SENSOR, sensor_payload(seq, value, fault_id)),
{
    let (b, n) = encode_sensor(seq, value, fault_id);
    proof {
        lemma_wire_prefix(crate::protocol::K_SENSOR, sensor_payload(seq, value, fault_id), b@);
    }
    prefix_vec(&b, n)
}

/// The ground-truth notice of a slot, as sent.
fn notice_chunk(fault_id: u32, kind: u8, at_seq: u16) -> (v: Vec<u8>)
    ensures
        v@ == wire(crate::protocol::K_FAULT, fault_payload(fault_id, kind, at_seq)),
{
    let (f, n) = encode_fault_event(fault_id, kind, at_seq);
    proof {
        lemma_wire_prefix(crate::protocol::K_FAULT, fault_payload(fault_id, kind, at_seq), f@);
    }
    prefix_vec(&f, n)
}

/// Flipping bits `m` in byte `j` of the little-endian encoding of `value`
/// flips bits `m << 8j` of the value.
proof fn lemma_flip_le_byte(value: u32, j: int, m: u8)
    requires
        0 <= j < 4,
    ensures
        ({
            let b = crate::protocol::u32_le(value).update(j, crate::protocol::u32_le(value)[j] ^ m);
            le32(b[0], b[1], b[2], b[3]) == value ^ ((m as u32) << (8 * j) as u32)
        }),
{
    let b0 = value as u8;
    let b1 = (value >> 8) as u8;
    let b2 = (value >> 16) as u8;
    let b3 = (value >> 24) as u8;
    if j == 0 {
        assert((b0 ^ m) + 256 * b1 + 65536 * b2 + 16777216 * b3 == value ^ ((m as u32) << 0u32)) by (bit_vector)
            requires b0 == value as u8, b1 == (value >> 8) as u8, b2 == (value >> 16) as u8, b3 == (value >> 24) as u8;
    } else if j == 1 {
        assert(b0 + 256 * (b1 ^ m) + 65536 * b2 + 16777216 * b3 == value ^ ((m as u32) << 8u32)) by (bit_vector)
            requires b0 == value as u8, b1 == (value >> 8) as u8, b2 == (value >> 16) as u8, b3 == (value >> 24) as u8;
    } else if j == 2 {
        assert(b0 + 256 * b1 + 65536 * (b2 ^ m) + 16777216 * b3 == value ^ ((m as u32) << 16u32)) by (bit_vector)
            requires b0 == value as u8, b1 == (value >> 8) as u8, b2 == (value >> 16) as u8, b3 == (value >> 24) as u8;
    } else {
        assert(b0 + 256 * b1 + 65536 * b2 + 16777216 * (b3 ^ m) == value ^ ((m as u32) << 24u32)) by (bit_vector)
            requires b0 == value as u8, b1 == (value >> 8) as u8, b2 == (value >> 16) as u8, b3 == (value >> 24) as u8;
    }
}

impl SharedCfg {
    #[verifier::type_invariant]
    spec fn inv(self) -> bool {
        sim_wf(self@)
    }

    pub fn from(c: CampaignConfig) -> (s: Self)
        ensures
            sim_wf(s@),
            s@ == (SimState {
                packets: c.packets,
                cadence_ms: c.cadence_ms,
                weights: c.weights@,
                rng: lcg_mix(c.seed),
                seq: 0,
                fault_id: 0,
                sent: 0,
            }),
    {
        Self {
            packets: c.packets,
            cadence_ms: c.cadence_ms,
            weights: c.weights,
            rng: Lcg::new(c.seed),
            seq: 0,
            fault_id: 0,
            sent: 0,
        }
    }

    /// Draw the fault kind of the next slot: FAULT_BITFLIP..FAULT_DUTY, or 0.
    fn pick(&mut self) -> (k: u8)
        ensures
            k == pick_spec(old(self)@.weights, old(self)@.rng),
            final(self)@ == old(self)@,
    {
        proof {
            use_type_invariant(&*self);
        }
        let mut total: u32 = 0;
        let mut i: usize = 0;
        while i < N_FAULT_KINDS
            invariant
                i <= N_FAULT_KINDS,
                total == weight_sum(self.weights@, i as int),
                total <= 255 * i,
            decreases N_FAULT_KINDS - i,
        {
            total = total + self.weights[i] as u32;
            i = i + 1;
        }
        if total == 0 {
            return 0;
        }
        let mut rng = self.rng;
        let mut r = rng.below(total);
        self.rng = rng;
        let ghost r0 = r;
        let ghost after = self@;
        assert(total == weight_sum(self.weights@, self.weights@.len() as int));
        let mut i: usize = 0;
        while i < N_FAULT_KINDS
            invariant
                i <= N_FAULT_KINDS,
                self@ == after,
                after == old(self)@,
                r0 == lcg_step(old(self)@.rng) as int % total as int,
                total == weight_sum(old(self)@.weights, old(self)@.weights.len() as int),
                total > 0,
                kind_for_draw(self.weights@, r0 as int, 0) == kind_for_draw(
                    self.weights@,
                    r as int,
                    i as int,
                ),
            decreases N_FAULT_KINDS - i,
        {
            let w = self.weights[i];
            if r < w as u32 {
                return (i as u8) + 1;
            }
            r -= w as u32;
            i = i + 1;
        }
        0
    }
}

/// The sensor value of a faulted slot: one bit of the value flipped (bit
/// flip), or one of its bytes XORed with 0xA5 (byte corruption), the position
/// drawn from the next PRNG value (which is not consumed).
fn faulted_value(kind: u8, value: u32, rng: &mut Lcg) -> (v: u32)
    requires
        kind == FAULT_BITFLIP || kind == FAULT_BYTE,
    ensures
        final(rng).0 == old(rng).0,
        kind == FAULT_BITFLIP ==> v == value ^ (1u32 << (lcg_step(old(rng).0) % 16)),
        kind == FAULT_BYTE ==> v == value ^ (0xA5u32 << (8 * (lcg_step(old(rng).0) % 4))),
{
    let mut payload = [0u8; SENSOR_PAYLOAD_LEN];
    crate::protocol::put_u32(&mut payload, 2, value);
    if kind == FAULT_BITFLIP {
        let bit = rng.below(16) as usize;
        proof {
            assert(bit >> 3 < 2 && bit & 7 < 8) by (bit_vector)
                requires
                    bit < 16,
            ;
        }
        let j = 2 + (bit >> 3);
        let m: u8 = 1 << (bit & 7);
        payload[j] ^= m;
        proof {
            let b = payload@.subrange(2, 6);
            assert(b =~= crate::protocol::u32_le(value).update(
                j - 2,
                crate::protocol::u32_le(value)[j - 2] ^ m,
            ));
            lemma_flip_le_byte(value, j - 2, m);
            let bitu = bit as u32;
            assert((((1u8 << (bitu & 7)) as u32) << (8 * (bitu >> 3))) == (1u32 << bitu))
                by (bit_vector)
                requires
                    bitu < 16,
            ;
            assert(8 * (j - 2) == 8 * (bitu >> 3)) by (bit_vector)
                requires
                    bitu < 16,
                    j - 2 == (bitu >> 3) as int,
            ;
        }
    } else {
        let idx = 2 + rng.below(4) as usize;
        payload[idx] ^= 0xA5;
        proof {
            let b = payload@.subrange(2, 6);
            assert(b =~= crate::protocol::u32_le(value).update(
                idx - 2,
                crate::protocol::u32_le(value)[idx - 2] ^ 0xA5u8,
            ));
            lemma_flip_le_byte(value, idx - 2, 0xA5);
        }
    }
    crate::protocol::get_u32(&payload, 2)
}

/// Six junk bytes drawn from the PRNG.
fn junk(rng: &mut Lcg) -> (v: Vec<u8>)
    ensures
        final(rng).0 == lcg_steps(old(rng).0, 6),
        v@ == junk_bytes(old(rng).0),
{
    let ghost r0 = rng.0;
    let mut junk: Vec<u8> = Vec::new();
    let mut j: usize = 0;
    while j < 6
        invariant
            j <= 6,
            rng.0 == lcg_steps(r0, j as nat),
            junk@ == junk_bytes(r0).take(j as int),
        decreases 6 - j,
    {
        let b = rng.next_u8();
        junk.push(b);
        j = j + 1;
        assert(junk@ =~= junk_bytes(r0).take(j as int));
    }
    assert(junk_bytes(r0).take(6) =~= junk_bytes(r0));
    junk
}

impl SharedCfg {
    /// Emit whatever the injector would for the next slot in the cadence.
    #[verifier::rlimit(50)]
    pub fn run_next(&mut self) -> (step: SimStep)
        ensures
            sim_wf(old(self)@),
            sim_wf(final(self)@),
            final(self)@ == sim_step(old(self)@).0,
            step.delay_before_ms == sim_step(old(self)@).1,
            step.chunks@.len() == sim_step(old(self)@).2.len(),
            forall|i: int|
                0 <= i < step.chunks@.len() ==> (#[trigger] step.chunks@[i])@ == sim_step(
                    old(self)@,
                ).2[i],
            step.finished == sim_step(old(self)@).3,
            step.delay_after_ms == (if step.finished {
                0
            } else {
                old(self)@.cadence_ms as u64
            }),
    {
        proof {
            use_type_invariant(&*self);
        }
        let mut chunks: Vec<Vec<u8>> = Vec::new();
        if self.sent >= self.packets {
            let (f, n) = encode_end(self.packets, self.fault_id);
            proof {
                lemma_wire_prefix(
                    crate::protocol::K_END,
                    end_payload(self.packets, self.fault_id),
                    f@,
                );
            }
            chunks.push(prefix_vec(&f, n));
            return SimStep { delay_before_ms: 0, chunks, delay_after_ms: 0, finished: true };
        }

        let kind = self.pick();
        let seq = self.seq;
        self.seq = self.seq.wrapping_add(1);
        self.sent += 1;

        let mut rng = self.rng;
        let value = 100u32 + rng.below(50);
        let mut delay_before_ms: u64 = 0;
        if kind == FAULT_BITFLIP || kind == FAULT_BYTE {
            let fid = self.fault_id + 1;
            let faulted = faulted_value(kind, value, &mut rng);
            chunks.push(sensor_chunk(seq, faulted, fid));
            chunks.push(notice_chunk(fid, kind, seq));
            self.fault_id = fid;
        } else if kind == FAULT_DROP {
            let fid = self.fault_id + 1;
            chunks.push(notice_chunk(fid, kind, seq));
            self.fault_id = fid;
        } else if kind == FAULT_DELAY {
            let fid = self.fault_id + 1;
            delay_before_ms = self.cadence_ms as u64 * 2;
            chunks.push(sensor_chunk(seq, value, 0));
            chunks.push(notice_chunk(fid, kind, seq));
            self.fault_id = fid;
        } else if kind == FAULT_REPLAY {
            let fid = self.fault_id + 1;
            chunks.push(sensor_chunk(seq, value, 0));
            chunks.push(sensor_chunk(seq, value, 0));
            chunks.push(notice_chunk(fid, kind, seq));
            self.fault_id = fid;
        } else if kind == FAULT_BURST {
            let fid = self.fault_id + 1;
            chunks.push(junk(&mut rng));
            chunks.push(sensor_chunk(seq, value, 0));
            chunks.push(notice_chunk(fid, kind, seq));
            self.fault_id = fid;
        } else {
            // clean
            chunks.push(sensor_chunk(seq, value, 0));
        }
        self.rng = rng;
        proof {
            assert(chunks@.len() == sim_step(old(self)@).2.len());
        }
        SimStep { delay_before_ms, chunks, delay_after_ms: self.cadence_ms as u64, finished: false }
    }
}

/// The engine a START configuration sets up.
pub open spec fn start_state(c: CampaignConfig) -> SimState {
    SimState {
        packets: c.packets,
        cadence_ms: c.cadence_ms,
        weights: c.weights@,
        rng: lcg_mix(c.seed),
        seq: 0,
        fault_id: 0,
        sent: 0,
    }
}

/// How the simulated injector handles a parsed frame from the host: a PING is
/// answered with a PONG; a START carrying a valid configuration (re)starts the
/// campaign; an ABORT stops it; anything else is ignored.
pub fn sim_on_frame(cfg: &mut Option<SharedCfg>, d: Decoded) -> (reply: Option<Vec<u8>>)
    requires
        d matches Decoded::Frame { kind, len, .. } ==> (kind == K_START ==> len <= MAX_PAYLOAD),
    ensures
        match d {
            Decoded::Frame { kind, payload, len } => {
                &&& kind == K_PING ==> *final(cfg) == *old(cfg) && (reply matches Some(v) && v@
                    == wire(K_PONG, Seq::empty()))
                &&& kind == K_START ==> reply is None && (if len >= crate::protocol::START_PAYLOAD_LEN {
                    exists|c: CampaignConfig|
                        decodes_start(payload@.take(len as int), c) && (*final(cfg) matches Some(s)
                            && s@ == start_state(c))
                } else {
                    *final(cfg) == *old(cfg)
                })
                &&& kind == K_ABORT ==> reply is None && *final(cfg) is None
                &&& kind != K_PING && kind != K_START && kind != K_ABORT ==> reply is None
                    && *final(cfg) == *old(cfg)
            },
            _ => reply is None && *final(cfg) == *old(cfg),
        },
{
    match d {
        Decoded::Frame { kind, payload, len } => {
            if kind == K_PING {
                let (f, n) = encode_pong();
                proof {
                    lemma_wire_prefix(K_PONG, Seq::empty(), f@);
                }
                Some(prefix_vec(&f, n))
            } else if kind == K_START {
                let p = vstd::slice::slice_subrange(payload.as_slice(), 0, len);
                assert(p@ =~= payload@.take(len as int));
                if let Some(c) = decode_start(p) {
                    *cfg = Some(SharedCfg::from(c));
                }
                None
            } else if kind == K_ABORT {
                *cfg = None;
                None
            } else {
                None
            }
        },
        _ => None,
    }
}

} // verus!
