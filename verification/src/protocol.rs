//! Wire protocol shared by the injector firmware and the host.
//!
//! Frame layout (both directions over the same UART):
//!   [0x7E sync] [len] [kind] [payload (len bytes)] [crc8]
//! crc8 covers [len, kind, payload].

use vstd::prelude::*;

verus! {

pub const SYNC: u8 = 0x7E;

pub const MAX_PAYLOAD: usize = 16;

/// sync + len + kind + payload + crc
pub const MAX_FRAME: usize = 3 + MAX_PAYLOAD + 1;

// Frame kinds. Host -> injector and injector -> host share one address space.
/// host -> fw: begin a campaign
pub const K_START: u8 = 0x01;
/// host -> fw: link handshake
pub const K_PING: u8 = 0x02;
/// host -> fw: stop current campaign
pub const K_ABORT: u8 = 0x03;
/// host -> fw: fire one physical duty glitch
pub const K_GLITCH: u8 = 0x04;
/// fw -> host: a "measurement" frame (may be faulted)
pub const K_SENSOR: u8 = 0x80;
/// fw -> host: ground-truth injection notice
pub const K_FAULT: u8 = 0x81;
/// fw -> host: campaign complete
pub const K_END: u8 = 0x82;
/// fw -> host: handshake reply
pub const K_PONG: u8 = 0x83;

// Fault kinds carried inside FAULT_EVENT payloads and the campaign weight vector.
pub const FAULT_NONE: u8 = 0;
pub const FAULT_BITFLIP: u8 = 1;
pub const FAULT_BYTE: u8 = 2;
pub const FAULT_DROP: u8 = 3;
pub const FAULT_DELAY: u8 = 4;
pub const FAULT_REPLAY: u8 = 5;
pub const FAULT_BURST: u8 = 6;
pub const FAULT_DUTY: u8 = 7;
pub const N_FAULT_KINDS: usize = 7;

/// seed4 + packets2 + cadence_ms2 + weights7
pub const START_PAYLOAD_LEN: usize = 15;
/// seq2 + value4 + fault_id4
pub const SENSOR_PAYLOAD_LEN: usize = 10;
/// fault_id4 + kind1 + at_seq2
pub const FAULT_PAYLOAD_LEN: usize = 7;
/// packets2 + faults4
pub const END_PAYLOAD_LEN: usize = 6;

#[derive(Clone, Copy, PartialEq, Eq, Debug)]
pub struct CampaignConfig {
    pub seed: u32,
    pub packets: u16,
    pub cadence_ms: u16,
    pub weights: [u8; N_FAULT_KINDS],
}

impl CampaignConfig {
    /// A campaign that injects nothing.
    pub fn clean(seed: u32, packets: u16, cadence_ms: u16) -> (c: Self)
        ensures
            c.seed == seed,
            c.packets == packets,
            c.cadence_ms == cadence_ms,
            c.weights@ == Seq::new(N_FAULT_KINDS as nat, |i: int| 0u8),
    {
        let c = CampaignConfig { seed, packets, cadence_ms, weights: [0; N_FAULT_KINDS] };
        assert(c.weights@ =~= Seq::new(N_FAULT_KINDS as nat, |i: int| 0u8));
        c
    }
}

/// Seed mixing of the campaign PRNG, so adjacent seeds diverge immediately.
pub open spec fn lcg_mix(seed: u32) -> u32 {
    ((seed * 1664525int + 1013904223int) % 0x1_0000_0000int) as u32
}

/// One step of the campaign PRNG: x <- x * 1103515245 + 12345 (mod 2^32).
pub open spec fn lcg_step(x: u32) -> u32 {
    ((x * 1103515245int + 12345int) % 0x1_0000_0000int) as u32
}

/// Deterministic PRNG shared by the firmware injector and the host simulator so
/// a campaign is reproducible from its seed.
#[derive(Clone, Copy, Debug)]
pub struct Lcg(pub u32);

impl Lcg {
    pub fn new(seed: u32) -> (r: Self)
        ensures
            r.0 == lcg_mix(seed),
    {
        let m = seed.wrapping_mul(1664525);
        let r = m.wrapping_add(1013904223);
        assert(r == lcg_mix(seed)) by (nonlinear_arith)
            requires
                m == (seed as nat * 1664525nat) % 0x1_0000_0000nat,
                r == (if m + 1013904223 > u32::MAX { (m + 1013904223 - 0x1_0000_0000) as u32 } else { (m + 1013904223) as u32 }),
        {
            vstd::arithmetic::div_mod::lemma_add_mod_noop(seed * 1664525int, 1013904223int, 0x1_0000_0000int);
        }
        Lcg(r)
    }

    pub fn next_u32(&mut self) -> (r: u32)
        ensures
            r == lcg_step(old(self).0),
            final(self).0 == r,
    {
        let x = self.0;
        let m = x.wrapping_mul(1103515245);
        let r = m.wrapping_add(12345);
        assert(r == lcg_step(x)) by (nonlinear_arith)
            requires
                m == (x as nat * 1103515245nat) % 0x1_0000_0000nat,
                r == (if m + 12345 > u32::MAX { (m + 12345 - 0x1_0000_0000) as u32 } else { (m + 12345) as u32 }),
        {
            vstd::arithmetic::div_mod::lemma_add_mod_noop(x * 1103515245int, 12345int, 0x1_0000_0000int);
        }
        self.0 = r;
        r
    }

    pub fn next_u8(&mut self) -> (r: u8)
        ensures
            final(self).0 == lcg_step(old(self).0),
            r == (final(self).0 >> 24) as u8,
    {
        (self.next_u32() >> 24) as u8
    }

    /// Uniform value in [0, n), taken from the next value of the generator
    /// without consuming it: the stream that `next_u32` yields is the same
    /// whether or not `below` was called in between.
    pub fn below(&mut self, n: u32) -> (r: u32)
        ensures
            final(self).0 == old(self).0,
            n == 0 ==> r == 0,
            n > 0 ==> r == lcg_step(old(self).0) % n,
            n > 0 ==> r < n,
    {
        if n == 0 {
            0
        } else {
            let mut peek = *self;
            peek.next_u32() % n
        }
    }
}

// ---- CRC-8/ATM ----

/// One shift of the CRC register: polynomial 0x07, MSB first.
pub open spec fn crc8_shift(c: u8) -> u8 {
    if c & 0x80 != 0 {
        (c << 1) ^ 0x07
    } else {
        c << 1
    }
}

/// `n` shifts of the CRC register.
pub open spec fn crc8_shifts(c: u8, n: nat) -> u8
    decreases n,
{
    if n == 0 {
        c
    } else {
        crc8_shift(crc8_shifts(c, (n - 1) as nat))
    }
}

/// Register after absorbing one byte.
pub open spec fn crc8_absorb(c: u8, b: u8) -> u8 {
    crc8_shifts(c ^ b, 8)
}

/// CRC-8/ATM (poly 0x07, MSB first, initial value 0, no final xor) of `s`.
pub open spec fn crc8_spec(s: Seq<u8>) -> u8
    decreases s.len(),
{
    if s.len() == 0 {
        0
    } else {
        crc8_absorb(crc8_spec(s.drop_last()), s.last())
    }
}

/// CRC-8/ATM (poly 0x07), MSB-first. Initial value 0.
pub fn crc8(data: &[u8]) -> (c: u8)
    ensures
        c == crc8_spec(data@),
{
    let mut c: u8 = 0;
    let mut i: usize = 0;
    while i < data.len()
        invariant
            i <= data@.len(),
            c == crc8_spec(data@.take(i as int)),
        decreases data@.len() - i,
    {
        let b = data[i];
        c = c ^ b;
        let ghost x = c;
        let mut k: u32 = 0;
        while k < 8
            invariant
                k <= 8,
                c == crc8_shifts(x, k as nat),
            decreases 8 - k,
        {
            c = if c & 0x80 != 0 { (c << 1) ^ 0x07 } else { c << 1 };
            k = k + 1;
        }
        assert(data@.take(i + 1).drop_last() =~= data@.take(i as int));
        i = i + 1;
    }
    assert(data@.take(i as int) =~= data@);
    c
}


// ---- little-endian integers ----

/// The two little-endian bytes of `v`.
pub open spec fn u16_le(v: u16) -> Seq<u8> {
    seq![v as u8, (v >> 8) as u8]
}

/// The four little-endian bytes of `v`.
pub open spec fn u32_le(v: u32) -> Seq<u8> {
    seq![v as u8, (v >> 8) as u8, (v >> 16) as u8, (v >> 24) as u8]
}

/// Value of two bytes read little-endian.
pub open spec fn le16(b0: u8, b1: u8) -> int {
    b0 + 256 * b1
}

/// Value of four bytes read little-endian.
pub open spec fn le32(b0: u8, b1: u8, b2: u8, b3: u8) -> int {
    b0 + 256 * b1 + 65536 * b2 + 16777216 * b3
}

/// `s` with the bytes from offset `o` on replaced by `t`.
pub open spec fn splice(s: Seq<u8>, o: int, t: Seq<u8>) -> Seq<u8> {
    s.take(o) + t + s.skip(o + t.len())
}

pub fn put_u16(d: &mut [u8], o: usize, v: u16)
    requires
        o + 2 <= old(d)@.len(),
    ensures
        final(d)@ == splice(old(d)@, o as int, u16_le(v)),
{
    d[o] = v as u8;
    d[o + 1] = (v >> 8) as u8;
    assert(d@ =~= splice(old(d)@, o as int, u16_le(v)));
}

pub fn get_u16(d: &[u8], o: usize) -> (r: u16)
    requires
        o + 2 <= d@.len(),
    ensures
        r == le16(d@[o as int], d@[o + 1]),
{
    let b0 = d[o];
    let b1 = d[o + 1];
    assert((b0 as u16 | ((b1 as u16) << 8)) == b0 + 256 * b1) by (bit_vector);
    b0 as u16 | ((b1 as u16) << 8)
}

pub fn put_u32(d: &mut [u8], o: usize, v: u32)
    requires
        o + 4 <= old(d)@.len(),
    ensures
        final(d)@ == splice(old(d)@, o as int, u32_le(v)),
{
    d[o] = v as u8;
    d[o + 1] = (v >> 8) as u8;
    d[o + 2] = (v >> 16) as u8;
    d[o + 3] = (v >> 24) as u8;
    assert(d@ =~= splice(old(d)@, o as int, u32_le(v)));
}

pub fn get_u32(d: &[u8], o: usize) -> (r: u32)
    requires
        o + 4 <= d@.len(),
    ensures
        r == le32(d@[o as int], d@[o + 1], d@[o + 2], d@[o + 3]),
{
    let b0 = d[o];
    let b1 = d[o + 1];
    let b2 = d[o + 2];
    let b3 = d[o + 3];
    assert((b0 as u32 | ((b1 as u32) << 8) | ((b2 as u32) << 16) | ((b3 as u32) << 24))
        == b0 + 256 * b1 + 65536 * b2 + 16777216 * b3) by (bit_vector);
    b0 as u32 | ((b1 as u32) << 8) | ((b2 as u32) << 16) | ((b3 as u32) << 24)
}

/// Reading back what `put_u16` wrote gives the value that was written.
pub proof fn lemma_u16_roundtrip(v: u16)
    ensures
        le16(u16_le(v)[0], u16_le(v)[1]) == v,
{
    let b0 = v as u8;
    let b1 = (v >> 8) as u8;
    assert(b0 + 256 * b1 == v) by (bit_vector)
        requires
            b0 == v as u8,
            b1 == (v >> 8) as u8,
    ;
}

/// Reading back what `put_u32` wrote gives the value that was written.
pub proof fn lemma_u32_roundtrip(v: u32)
    ensures
        le32(u32_le(v)[0], u32_le(v)[1], u32_le(v)[2], u32_le(v)[3]) == v,
{
    let b0 = v as u8;
    let b1 = (v >> 8) as u8;
    let b2 = (v >> 16) as u8;
    let b3 = (v >> 24) as u8;
    assert(b0 + 256 * b1 + 65536 * b2 + 16777216 * b3 == v) by (bit_vector)
        requires
            b0 == v as u8,
            b1 == (v >> 8) as u8,
            b2 == (v >> 16) as u8,
            b3 == (v >> 24) as u8,
    ;
}


// ---- frames ----

/// The bytes a frame's CRC covers: length, kind and payload.
pub open spec fn frame_body(kind: u8, payload: Seq<u8>) -> Seq<u8> {
    seq![payload.len() as u8, kind] + payload
}

/// The bytes of a frame carrying `payload` as `kind`.
pub open spec fn frame_bytes(kind: u8, payload: Seq<u8>) -> Seq<u8> {
    seq![SYNC] + frame_body(kind, payload) + seq![crc8_spec(frame_body(kind, payload))]
}

/// `n` zero bytes.
pub open spec fn zeros(n: nat) -> Seq<u8> {
    Seq::new(n, |i: int| 0u8)
}

/// CRC of a frame's length, kind and payload.
pub fn crc8_frame(len: u8, kind: u8, payload: &[u8]) -> (c: u8)
    requires
        payload@.len() <= MAX_PAYLOAD,
    ensures
        c == crc8_spec(seq![len, kind] + payload@),
{
    let mut short = [0u8; 18];
    short[0] = len;
    short[1] = kind;
    let n = payload.len();
    let mut i: usize = 0;
    while i < n
        invariant
            n == payload@.len(),
            n <= MAX_PAYLOAD,
            i <= n,
            short@.len() == 18,
            short@[0] == len,
            short@[1] == kind,
            forall|j: int| 0 <= j < i ==> short@[2 + j] == payload@[j],
        decreases n - i,
    {
        short[2 + i] = payload[i];
        i = i + 1;
    }
    let body = vstd::slice::slice_subrange(short.as_slice(), 0, 2 + n);
    assert(body@ =~= seq![len, kind] + payload@);
    crc8(body)
}

/// Encode a frame into a fixed buffer. Returns (buffer, total length incl. crc).
pub fn encode(kind: u8, payload: &[u8]) -> (r: ([u8; MAX_FRAME], usize))
    requires
        payload@.len() <= MAX_PAYLOAD,
    ensures
        r.1 == payload@.len() + 4,
        r.0@ == frame_bytes(kind, payload@) + zeros((MAX_PAYLOAD - payload@.len()) as nat),
{
    let mut buf = [0u8; MAX_FRAME];
    let n = payload.len();
    buf[0] = SYNC;
    buf[1] = n as u8;
    buf[2] = kind;
    let mut i: usize = 0;
    while i < n
        invariant
            n == payload@.len(),
            n <= MAX_PAYLOAD,
            i <= n,
            buf@.len() == MAX_FRAME,
            buf@[0] == SYNC,
            buf@[1] == n as u8,
            buf@[2] == kind,
            forall|j: int| 0 <= j < i ==> buf@[3 + j] == payload@[j],
            forall|j: int| 3 + i <= j < MAX_FRAME ==> buf@[j] == 0,
        decreases n - i,
    {
        buf[3 + i] = payload[i];
        i = i + 1;
    }
    let data_end = 3 + n;
    let body = vstd::slice::slice_subrange(buf.as_slice(), 1, data_end);
    assert(body@ =~= frame_body(kind, payload@));
    let c = crc8(body);
    buf[data_end] = c;
    assert(buf@ =~= frame_bytes(kind, payload@) + zeros((MAX_PAYLOAD - n) as nat));
    (buf, data_end + 1)
}


// ---- message payloads ----

/// START payload: seed, packet count, cadence and the fault weight vector.
pub open spec fn start_payload(cfg: CampaignConfig) -> Seq<u8> {
    u32_le(cfg.seed) + u16_le(cfg.packets) + u16_le(cfg.cadence_ms) + cfg.weights@
}

/// SENSOR payload: sequence number, measured value and the id of the fault it carries.
pub open spec fn sensor_payload(seq: u16, value: u32, fault_id: u32) -> Seq<u8> {
    u16_le(seq) + u32_le(value) + u32_le(fault_id)
}

/// FAULT payload: fault id, fault kind and the sequence number it hit.
pub open spec fn fault_payload(fault_id: u32, kind: u8, at_seq: u16) -> Seq<u8> {
    u32_le(fault_id) + seq![kind] + u16_le(at_seq)
}

/// END payload: packets sent and faults injected.
pub open spec fn end_payload(packets: u16, faults: u32) -> Seq<u8> {
    u16_le(packets) + u32_le(faults)
}

/// The buffer `encode` returns for a frame: the frame, then zero padding.
pub open spec fn frame_buffer(kind: u8, payload: Seq<u8>) -> Seq<u8> {
    frame_bytes(kind, payload) + zeros((MAX_PAYLOAD - payload.len()) as nat)
}

/// `c` is what a START payload `p` decodes to.
pub open spec fn decodes_start(p: Seq<u8>, c: CampaignConfig) -> bool {
    &&& p.len() >= START_PAYLOAD_LEN
    &&& c.seed == le32(p[0], p[1], p[2], p[3])
    &&& c.packets == le16(p[4], p[5])
    &&& c.cadence_ms == le16(p[6], p[7])
    &&& c.weights@ == p.subrange(8, 8 + N_FAULT_KINDS)
}

// ---- host -> injector ----

pub fn encode_start(cfg: &CampaignConfig) -> (r: ([u8; MAX_FRAME], usize))
    ensures
        r.1 == START_PAYLOAD_LEN + 4,
        r.0@ == frame_buffer(K_START, start_payload(*cfg)),
{
    let mut p = [0u8; START_PAYLOAD_LEN];
    put_u32(&mut p, 0, cfg.seed);
    put_u16(&mut p, 4, cfg.packets);
    put_u16(&mut p, 6, cfg.cadence_ms);
    let mut i: usize = 0;
    while i < N_FAULT_KINDS
        invariant
            i <= N_FAULT_KINDS,
            p@.len() == START_PAYLOAD_LEN,
            p@.take(8) == u32_le(cfg.seed) + u16_le(cfg.packets) + u16_le(cfg.cadence_ms),
            forall|j: int| 0 <= j < i ==> p@[8 + j] == cfg.weights@[j],
        decreases N_FAULT_KINDS - i,
    {
        p[8 + i] = cfg.weights[i];
        i = i + 1;
    }
    assert(p@ =~= start_payload(*cfg));
    encode(K_START, &p)
}

pub fn encode_ping() -> (r: ([u8; MAX_FRAME], usize))
    ensures
        r.1 == 4,
        r.0@ == frame_buffer(K_PING, Seq::empty()),
{
    let e: [u8; 0] = [];
    let r = encode(K_PING, &e);
    assert(e@ =~= Seq::<u8>::empty());
    r
}

pub fn encode_abort() -> (r: ([u8; MAX_FRAME], usize))
    ensures
        r.1 == 4,
        r.0@ == frame_buffer(K_ABORT, Seq::empty()),
{
    let e: [u8; 0] = [];
    let r = encode(K_ABORT, &e);
    assert(e@ =~= Seq::<u8>::empty());
    r
}

pub fn decode_start(p: &[u8]) -> (r: Option<CampaignConfig>)
    ensures
        r is None <==> p@.len() < START_PAYLOAD_LEN,
        r matches Some(c) ==> decodes_start(p@, c),
{
    if p.len() < START_PAYLOAD_LEN {
        return None;
    }
    let mut weights = [0u8; N_FAULT_KINDS];
    let mut i: usize = 0;
    while i < N_FAULT_KINDS
        invariant
            i <= N_FAULT_KINDS,
            p@.len() >= START_PAYLOAD_LEN,
            weights@.len() == N_FAULT_KINDS,
            forall|j: int| 0 <= j < i ==> weights@[j] == p@[8 + j],
        decreases N_FAULT_KINDS - i,
    {
        weights[i] = p[8 + i];
        i = i + 1;
    }
    assert(weights@ =~= p@.subrange(8, 8 + N_FAULT_KINDS));
    Some(CampaignConfig {
        seed: get_u32(p, 0),
        packets: get_u16(p, 4),
        cadence_ms: get_u16(p, 6),
        weights,
    })
}

// ---- injector -> host ----

pub fn encode_sensor(seq: u16, value: u32, fault_id: u32) -> (r: ([u8; MAX_FRAME], usize))
    ensures
        r.1 == SENSOR_PAYLOAD_LEN + 4,
        r.0@ == frame_buffer(K_SENSOR, sensor_payload(seq, value, fault_id)),
{
    let mut p = [0u8; SENSOR_PAYLOAD_LEN];
    put_u16(&mut p, 0, seq);
    put_u32(&mut p, 2, value);
    put_u32(&mut p, 6, fault_id);
    assert(p@ =~= sensor_payload(seq, value, fault_id));
    encode(K_SENSOR, &p)
}

pub fn encode_fault_event(fault_id: u32, kind: u8, at_seq: u16) -> (r: ([u8; MAX_FRAME], usize))
    ensures
        r.1 == FAULT_PAYLOAD_LEN + 4,
        r.0@ == frame_buffer(K_FAULT, fault_payload(fault_id, kind, at_seq)),
{
    let mut p = [0u8; FAULT_PAYLOAD_LEN];
    put_u32(&mut p, 0, fault_id);
    p[4] = kind;
    put_u16(&mut p, 5, at_seq);
    assert(p@ =~= fault_payload(fault_id, kind, at_seq));
    encode(K_FAULT, &p)
}

pub fn encode_end(packets: u16, faults: u32) -> (r: ([u8; MAX_FRAME], usize))
    ensures
        r.1 == END_PAYLOAD_LEN + 4,
        r.0@ == frame_buffer(K_END, end_payload(packets, faults)),
{
    let mut p = [0u8; END_PAYLOAD_LEN];
    put_u16(&mut p, 0, packets);
    put_u32(&mut p, 2, faults);
    assert(p@ =~= end_payload(packets, faults));
    encode(K_END, &p)
}

pub fn encode_pong() -> (r: ([u8; MAX_FRAME], usize))
    ensures
        r.1 == 4,
        r.0@ == frame_buffer(K_PONG, Seq::empty()),
{
    let e: [u8; 0] = [];
    let r = encode(K_PONG, &e);
    assert(e@ =~= Seq::<u8>::empty());
    r
}

/// A START payload decodes to the configuration it was built from.
pub proof fn lemma_start_roundtrip(cfg: CampaignConfig)
    ensures
        decodes_start(start_payload(cfg), cfg),
{
    let p = start_payload(cfg);
    lemma_u32_roundtrip(cfg.seed);
    lemma_u16_roundtrip(cfg.packets);
    lemma_u16_roundtrip(cfg.cadence_ms);
    assert(p.subrange(8, 8 + N_FAULT_KINDS) =~= cfg.weights@);
}

} // verus!
