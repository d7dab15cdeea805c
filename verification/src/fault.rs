//! Fault-injection library: bit primitives, LFSR probability, and the three
//! protocol injectors (SPI, I2C, UART) with a compile-time type-state
//! (`Disarmed` -> `Armed`).

use vstd::prelude::*;
use core::marker::PhantomData;
use crate::fault_traits::{Armed, Disarmed, I2cBus, SpiBus, UartBus};

verus! {

#[derive(Clone, Copy, PartialEq, Eq, Debug, Structural)]
pub enum Protocol {
    Spi,
    I2c,
    Uart,
}

#[derive(Clone, Copy, PartialEq, Eq, Debug, Structural)]
pub enum FaultType {
    BitFlip,
    StuckAtZero,
    StuckAtOne,
    BitDelay,
    ClockGlitch,
    NackInjection,
    BusLockup,
    ParityError,
    FrameCorrupt,
    Overrun,
}

#[derive(Clone, Copy, PartialEq, Eq, Debug, Structural)]
pub enum FaultResult {
    Fired,
}

/// What to inject, where, and how often.
#[derive(Clone, Copy, PartialEq, Eq, Debug, Structural)]
pub struct FaultConfig {
    pub protocol: Protocol,
    pub fault_type: FaultType,
    /// Bit to hit; out of range means "pick one at random".
    pub target_bit: u8,
    /// Chance of injecting, in thousandths.
    pub probability_permille: u16,
    /// Length of delay-type faults.
    pub duration_us: u32,
}

impl FaultConfig {
    /// A fault of `fault_type` on `protocol`: bit 0, every time, no delay.
    pub fn new(protocol: Protocol, fault_type: FaultType) -> (c: Self)
        ensures
            c == (FaultConfig {
                protocol,
                fault_type,
                target_bit: 0,
                probability_permille: 1000,
                duration_us: 0,
            }),
    {
        FaultConfig { protocol, fault_type, target_bit: 0, probability_permille: 1000, duration_us: 0 }
    }

    pub fn at_bit(self, bit: u8) -> (c: Self)
        ensures
            c == (FaultConfig { target_bit: bit, ..self }),
    {
        FaultConfig { target_bit: bit, ..self }
    }

    pub fn probability(self, permille: u16) -> (c: Self)
        ensures
            c == (FaultConfig { probability_permille: permille, ..self }),
    {
        FaultConfig { probability_permille: permille, ..self }
    }

    pub fn duration(self, us: u32) -> (c: Self)
        ensures
            c == (FaultConfig { duration_us: us, ..self }),
    {
        FaultConfig { duration_us: us, ..self }
    }
}

// ─── Bit manipulation primitives ──────────────────────────────────────────────

/// The mask of bit `bit` of a byte; the bit index wraps modulo 8.
pub open spec fn bit_mask(bit: u8) -> u8 {
    (1u8 << (bit & 7))
}

pub fn bit_flip(byte: u8, bit: u8) -> (r: u8)
    ensures
        r == byte ^ bit_mask(bit),
{
    assert(bit & 7 < 8) by (bit_vector);
    byte ^ (1 << (bit & 7))
}

pub fn bit_set(byte: u8, bit: u8) -> (r: u8)
    ensures
        r == byte | bit_mask(bit),
{
    assert(bit & 7 < 8) by (bit_vector);
    byte | (1 << (bit & 7))
}

pub fn bit_clear(byte: u8, bit: u8) -> (r: u8)
    ensures
        r == byte & !bit_mask(bit),
{
    assert(bit & 7 < 8) by (bit_vector);
    byte & !(1 << (bit & 7))
}

/// Flipping the same bit twice restores the byte; the flipped byte differs
/// from the input byte in exactly that bit.
pub proof fn lemma_bit_flip_involution(byte: u8, bit: u8)
    ensures
        (byte ^ bit_mask(bit)) ^ bit_mask(bit) == byte,
        byte ^ bit_mask(bit) != byte,
        (byte ^ bit_mask(bit)) & !bit_mask(bit) == byte & !bit_mask(bit),
{
    assert((byte ^ (1u8 << (bit & 7))) ^ (1u8 << (bit & 7)) == byte) by (bit_vector);
    assert(byte ^ (1u8 << (bit & 7)) != byte) by (bit_vector);
    assert((byte ^ (1u8 << (bit & 7))) & !(1u8 << (bit & 7)) == byte & !(1u8 << (bit & 7)))
        by (bit_vector);
}

/// Setting and clearing a bit are idempotent, leave the other bits alone, and
/// force that bit high, respectively low.
pub proof fn lemma_bit_set_clear(byte: u8, bit: u8)
    ensures
        (byte | bit_mask(bit)) | bit_mask(bit) == byte | bit_mask(bit),
        (byte & !bit_mask(bit)) & !bit_mask(bit) == byte & !bit_mask(bit),
        (byte | bit_mask(bit)) & bit_mask(bit) == bit_mask(bit),
        (byte & !bit_mask(bit)) & bit_mask(bit) == 0,
        (byte | bit_mask(bit)) & !bit_mask(bit) == byte & !bit_mask(bit),
        (byte & !bit_mask(bit)) | bit_mask(bit) == byte | bit_mask(bit),
{
    assert((byte | (1u8 << (bit & 7))) | (1u8 << (bit & 7)) == byte | (1u8 << (bit & 7))) by (bit_vector);
    assert((byte & !(1u8 << (bit & 7))) & !(1u8 << (bit & 7)) == byte & !(1u8 << (bit & 7))) by (bit_vector);
    assert((byte | (1u8 << (bit & 7))) & (1u8 << (bit & 7)) == (1u8 << (bit & 7))) by (bit_vector);
    assert((byte & !(1u8 << (bit & 7))) & (1u8 << (bit & 7)) == 0) by (bit_vector);
    assert((byte | (1u8 << (bit & 7))) & !(1u8 << (bit & 7)) == byte & !(1u8 << (bit & 7))) by (bit_vector);
    assert((byte & !(1u8 << (bit & 7))) | (1u8 << (bit & 7)) == byte | (1u8 << (bit & 7))) by (bit_vector);
}

/// The bit index wraps modulo 8: bit `b + 8` is bit `b`.
pub proof fn lemma_bit_index_wraps(bit: u8)
    requires
        bit < 248,
    ensures
        bit_mask((bit + 8) as u8) == bit_mask(bit),
{
    let b2 = (bit + 8) as u8;
    assert(bit < 248 && b2 == bit + 8 ==> (1u8 << (b2 & 7)) == (1u8 << (bit & 7))) by (bit_vector);
}


/// Blocking delay of roughly `us` microseconds at the injector's core clock:
/// 21 spin iterations per microsecond (the count wraps as on the target).
pub fn busy_delay_us(us: u32) {
    let n = us.wrapping_mul(21);
    let mut i: u32 = 0;
    while i < n
        invariant
            i <= n,
        decreases n - i,
    {
        core::hint::spin_loop();
        i = i + 1;
    }
}

pub assume_specification[ core::hint::spin_loop ]();

// ─── LFSR for probabilistic injection ─────────────────────────────────────────

/// One step of the 16-bit Fibonacci LFSR with taps 16, 14, 13, 11.
pub open spec fn lfsr_next(s: u16) -> u16 {
    (s >> 1) | (((s ^ (s >> 2) ^ (s >> 3) ^ (s >> 5)) & 1) << 15)
}

/// The LFSR never reaches the all-zero state from a non-zero one, and never
/// stays in the same state.
pub proof fn lemma_lfsr_nonzero(s: u16)
    requires
        s != 0,
    ensures
        lfsr_next(s) != 0,
        lfsr_next(s) != s,
{
    assert(s != 0 ==> ((s >> 1) | (((s ^ (s >> 2) ^ (s >> 3) ^ (s >> 5)) & 1) << 15)) != 0)
        by (bit_vector);
    assert(s != 0 ==> ((s >> 1) | (((s ^ (s >> 2) ^ (s >> 3) ^ (s >> 5)) & 1) << 15)) != s)
        by (bit_vector);
}

/// The register after `n` steps from `s`.
pub open spec fn lfsr_iter(s: u16, n: nat) -> u16
    decreases n,
{
    if n == 0 {
        s
    } else {
        lfsr_next(lfsr_iter(s, (n - 1) as nat))
    }
}

/// From a non-zero register, every register the LFSR steps through is
/// non-zero, however many steps it takes.
pub proof fn lemma_lfsr_stream_nonzero(s: u16, n: nat)
    requires
        s != 0,
    ensures
        lfsr_iter(s, n) != 0,
    decreases n,
{
    if n > 0 {
        lemma_lfsr_stream_nonzero(s, (n - 1) as nat);
        lemma_lfsr_nonzero(lfsr_iter(s, (n - 1) as nat));
    }
}

pub struct Lfsr {
    state: u16,
}

impl View for Lfsr {
    type V = u16;

    /// The register.
    closed spec fn view(&self) -> u16 {
        self.state
    }
}

impl Lfsr {
    #[verifier::type_invariant]
    spec fn inv(self) -> bool {
        self.state != 0
    }

    /// A zero seed would lock the register at zero, so it is replaced by 1.
    pub fn new(seed: u16) -> (l: Self)
        ensures
            l@ == (if seed == 0 { 1 } else { seed }),
            l@ != 0,
    {
        Self { state: if seed == 0 { 1 } else { seed } }
    }

    pub fn next_state(&mut self) -> (r: u16)
        ensures
            r == lfsr_next(old(self)@),
            final(self)@ == r,
            r != 0,
            r != old(self)@,
    {
        proof {
            use_type_invariant(&*self);
            lemma_lfsr_nonzero(self.state);
        }
        let s = self.state;
        let bit = (s ^ (s >> 2) ^ (s >> 3) ^ (s >> 5)) & 1;
        assert(bit < 2) by (bit_vector)
            requires
                bit == (s ^ (s >> 2) ^ (s >> 3) ^ (s >> 5)) & 1,
        ;
        self.state = (s >> 1) | (bit << 15);
        self.state
    }

    /// A random bit index, 0..=7.
    pub fn next_bit(&mut self) -> (r: u8)
        ensures
            final(self)@ == lfsr_next(old(self)@),
            r == (final(self)@ & 0x07) as u8,
            r < 8,
    {
        let v = self.next_state();
        assert(v & 0x07 < 8) by (bit_vector);
        (v & 0x07) as u8
    }
}

/// Decision of `should_inject` and the register afterwards: never at 0 permille,
/// always from 1000 permille on (both without drawing), otherwise when the low
/// ten bits of the next register value fall below `permille`.
pub open spec fn inject_draw(s: u16, permille: u16) -> (bool, u16) {
    if permille == 0 {
        (false, s)
    } else if permille >= 1000 {
        (true, s)
    } else {
        ((lfsr_next(s) & 0x03FF) < permille, lfsr_next(s))
    }
}

pub fn should_inject(lfsr: &mut Lfsr, permille: u16) -> (r: bool)
    ensures
        (r, final(lfsr)@) == inject_draw(old(lfsr)@, permille),
{
    if permille == 0 {
        return false;
    }
    if permille >= 1000 {
        return true;
    }
    lfsr.next_state() & 0x03FF < permille
}


// ─── Injector model ───────────────────────────────────────────────────────────

/// What an injector holds: its configuration, its LFSR register and the number
/// of faults it injected since it was last armed or reset.
pub ghost struct InjectorState {
    pub config: FaultConfig,
    pub lfsr: u16,
    pub count: u32,
}

/// The bit a fault hits, and the register afterwards: the configured bit when
/// it is below `width`, else one drawn from the LFSR (reduced modulo `width`).
pub open spec fn pick_bit(target: u8, width: u8, s: u16) -> (u8, u16) {
    if target < width {
        (target, s)
    } else {
        ((((lfsr_next(s) & 0x07) as u8) % width) as u8, lfsr_next(s))
    }
}

/// A flip or stuck-at fault on `bit` of `byte`; other fault types leave it alone.
pub open spec fn line_fault(ft: FaultType, byte: u8, bit: u8) -> u8 {
    match ft {
        FaultType::BitFlip => byte ^ bit_mask(bit),
        FaultType::StuckAtZero => byte & !bit_mask(bit),
        FaultType::StuckAtOne => byte | bit_mask(bit),
        _ => byte,
    }
}

/// The injection counter moves only when the byte actually changed.
pub open spec fn counted(count: u32, before: u8, after: u8) -> u32 {
    if after != before {
        (count + 1) as u32
    } else {
        count
    }
}

/// Injecting into a data line (or an address of `width` bits): flip and
/// stuck-at faults only.
pub open spec fn line_step(v: InjectorState, byte: u8, width: u8) -> (InjectorState, u8) {
    let (go, s1) = inject_draw(v.lfsr, v.config.probability_permille);
    if !go {
        (InjectorState { lfsr: s1, ..v }, byte)
    } else {
        let (bit, s2) = pick_bit(v.config.target_bit, width, s1);
        let r = line_fault(v.config.fault_type, byte, bit);
        (InjectorState { lfsr: s2, count: counted(v.count, byte, r), ..v }, r)
    }
}

/// Injecting into SPI MOSI: flip and stuck-at faults, a delay that leaves the
/// byte alone, and a clock glitch that flips a random bit.
pub open spec fn mosi_step(v: InjectorState, byte: u8) -> (InjectorState, u8) {
    let (go, s1) = inject_draw(v.lfsr, v.config.probability_permille);
    if !go {
        (InjectorState { lfsr: s1, ..v }, byte)
    } else {
        let (bit, s2) = pick_bit(v.config.target_bit, 8, s1);
        let (r, s3) = match v.config.fault_type {
            FaultType::ClockGlitch => (byte ^ bit_mask((lfsr_next(s2) & 0x07) as u8), lfsr_next(s2)),
            _ => (line_fault(v.config.fault_type, byte, bit), s2),
        };
        (InjectorState { lfsr: s3, count: counted(v.count, byte, r), ..v }, r)
    }
}

/// Injecting into UART TX: a flip of the chosen bit, a parity error (top bit
/// flipped), a corrupted frame or a clock glitch (a random bit flipped), or a
/// delay that leaves the byte alone.
pub open spec fn tx_step(v: InjectorState, byte: u8) -> (InjectorState, u8) {
    let (go, s1) = inject_draw(v.lfsr, v.config.probability_permille);
    if !go {
        (InjectorState { lfsr: s1, ..v }, byte)
    } else {
        let (bit, s2) = pick_bit(v.config.target_bit, 8, s1);
        let (r, s3) = match v.config.fault_type {
            FaultType::BitFlip => (byte ^ bit_mask(bit), s2),
            FaultType::ParityError => (byte ^ 0x80, s2),
            FaultType::FrameCorrupt => (byte ^ bit_mask((lfsr_next(s2) & 0x07) as u8), lfsr_next(s2)),
            FaultType::ClockGlitch => (byte ^ bit_mask((lfsr_next(s2) & 0x07) as u8), lfsr_next(s2)),
            _ => (byte, s2),
        };
        (InjectorState { lfsr: s3, count: counted(v.count, byte, r), ..v }, r)
    }
}

/// A fault of type `ft` that fires with the configured probability: the
/// decision and the state afterwards. No draw happens for other fault types.
pub open spec fn event_step(v: InjectorState, ft: FaultType) -> (InjectorState, bool) {
    if v.config.fault_type == ft {
        let (go, s1) = inject_draw(v.lfsr, v.config.probability_permille);
        (InjectorState { lfsr: s1, ..v }, go)
    } else {
        (v, false)
    }
}

/// The configuration after `configure`: taken only when it is for `p`.
pub open spec fn configured(v: InjectorState, p: Protocol, c: FaultConfig) -> InjectorState {
    if c.protocol == p {
        InjectorState { config: c, ..v }
    } else {
        v
    }
}

/// A freshly built injector for protocol `p`.
pub open spec fn fresh(p: Protocol, ft: FaultType, seed: u16) -> InjectorState {
    InjectorState {
        config: FaultConfig {
            protocol: p,
            fault_type: ft,
            target_bit: 0,
            probability_permille: 1000,
            duration_us: 0,
        },
        lfsr: seed,
        count: 0,
    }
}

/// The injection counter can take one more: it is below its maximum, or the
/// step leaves the byte alone.
pub open spec fn line_ok(v: InjectorState, byte: u8, width: u8) -> bool {
    line_step(v, byte, width).1 != byte ==> v.count < u32::MAX
}

/// As `line_ok`, for SPI MOSI.
pub open spec fn mosi_ok(v: InjectorState, byte: u8) -> bool {
    mosi_step(v, byte).1 != byte ==> v.count < u32::MAX
}

/// As `line_ok`, for UART TX.
pub open spec fn tx_ok(v: InjectorState, byte: u8) -> bool {
    tx_step(v, byte).1 != byte ==> v.count < u32::MAX
}

/// The counter can take a fired overrun.
pub open spec fn overrun_ok(v: InjectorState) -> bool {
    event_step(v, FaultType::Overrun).1 ==> v.count < u32::MAX
}

/// The counter can take every change of one SPI `fire`.
pub open spec fn spi_fire_ok(v: InjectorState, mosi: u8, miso: u8) -> bool {
    mosi_ok(v, mosi) && line_ok(mosi_step(v, mosi).0, miso, 8)
}

/// Draw the bit a fault hits (see `pick_bit`).
fn pick(lfsr: &mut Lfsr, target: u8, width: u8) -> (bit: u8)
    requires
        0 < width <= 8,
    ensures
        (bit, final(lfsr)@) == pick_bit(target, width, old(lfsr)@),
{
    if target < width {
        target
    } else {
        lfsr.next_bit() % width
    }
}


// ─── SpiFaultInjector ─────────────────────────────────────────────────────

pub struct SpiFaultInjector<S = Disarmed> {
    config: FaultConfig,
    lfsr: Lfsr,
    count: u32,
    _state: PhantomData<S>,
}

impl<S> View for SpiFaultInjector<S> {
    type V = InjectorState;

    closed spec fn view(&self) -> InjectorState {
        InjectorState { config: self.config, lfsr: self.lfsr@, count: self.count }
    }
}

impl SpiFaultInjector<Disarmed> {
    pub fn new() -> (inj: Self)
        ensures
            inj@ == fresh(Protocol::Spi, FaultType::BitFlip, 0xBEEF),
    {
        Self {
            config: FaultConfig::new(Protocol::Spi, FaultType::BitFlip),
            lfsr: Lfsr::new(0xBEEF),
            count: 0,
            _state: PhantomData,
        }
    }

    /// Take `config` if it is meant for this protocol; ignore it otherwise.
    pub fn configure(&mut self, config: &FaultConfig)
        ensures
            final(self)@ == configured(old(self)@, Protocol::Spi, *config),
    {
        if config.protocol == Protocol::Spi {
            self.config = *config;
        }
    }

    /// Compile-time state transition: `Disarmed` -> `Armed`. The counter starts
    /// from zero.
    pub fn arm(self) -> (armed: SpiFaultInjector<Armed>)
        ensures
            armed@ == (InjectorState { count: 0, ..self@ }),
    {
        SpiFaultInjector { config: self.config, lfsr: self.lfsr, count: 0, _state: PhantomData }
    }
}

impl Default for SpiFaultInjector<Disarmed> {
    fn default() -> (inj: Self)
        ensures
            inj@ == fresh(Protocol::Spi, FaultType::BitFlip, 0xBEEF),
    {
        Self::new()
    }
}

impl SpiFaultInjector<Armed> {
    pub fn is_armed(&self) -> (r: bool)
        ensures
            r,
    {
        true
    }

    pub fn injected_count(&self) -> (r: u32)
        ensures
            r == self@.count,
    {
        self.count
    }

    pub fn reset_stats(&mut self)
        ensures
            final(self)@ == (InjectorState { count: 0, ..old(self)@ }),
    {
        self.count = 0;
    }

    /// Compile-time state transition: `Armed` -> `Disarmed`. The counter is
    /// cleared.
    pub fn disarm(self) -> (disarmed: SpiFaultInjector<Disarmed>)
        ensures
            disarmed@ == (InjectorState { count: 0, ..self@ }),
    {
        SpiFaultInjector { config: self.config, lfsr: self.lfsr, count: 0, _state: PhantomData }
    }

    pub fn inject_mosi(&mut self, byte: u8) -> (r: u8)
        requires
            mosi_ok(old(self)@, byte),
        ensures
            (final(self)@, r) == mosi_step(old(self)@, byte),
    {
        if !should_inject(&mut self.lfsr, self.config.probability_permille) {
            return byte;
        }
        let bit = pick(&mut self.lfsr, self.config.target_bit, 8);
        let result = match self.config.fault_type {
            FaultType::BitFlip => bit_flip(byte, bit),
            FaultType::StuckAtZero => bit_clear(byte, bit),
            FaultType::StuckAtOne => bit_set(byte, bit),
            FaultType::BitDelay => {
                busy_delay_us(self.config.duration_us);
                byte
            },
            FaultType::ClockGlitch => {
                busy_delay_us(5);
                bit_flip(byte, self.lfsr.next_bit())
            },
            _ => byte,
        };
        if result != byte {
            self.count += 1;
        }
        result
    }

    pub fn inject_miso(&mut self, byte: u8) -> (r: u8)
        requires
            line_ok(old(self)@, byte, 8),
        ensures
            (final(self)@, r) == line_step(old(self)@, byte, 8),
    {
        if !should_inject(&mut self.lfsr, self.config.probability_permille) {
            return byte;
        }
        let bit = pick(&mut self.lfsr, self.config.target_bit, 8);
        let result = match self.config.fault_type {
            FaultType::BitFlip => bit_flip(byte, bit),
            FaultType::StuckAtZero => bit_clear(byte, bit),
            FaultType::StuckAtOne => bit_set(byte, bit),
            _ => byte,
        };
        if result != byte {
            self.count += 1;
        }
        result
    }

    /// Inject into both data lines of one SPI transfer.
    pub fn fire(&mut self, bus: &mut SpiBus) -> (r: FaultResult)
        requires
            spi_fire_ok(old(self)@, old(bus).mosi, old(bus).miso),
        ensures
            r == FaultResult::Fired,
            final(self)@ == line_step(mosi_step(old(self)@, old(bus).mosi).0, old(bus).miso, 8).0,
            final(bus).mosi == mosi_step(old(self)@, old(bus).mosi).1,
            final(bus).miso == line_step(mosi_step(old(self)@, old(bus).mosi).0, old(bus).miso, 8).1,
            final(bus).sck == old(bus).sck,
            final(bus).cs == old(bus).cs,
    {
        bus.mosi = self.inject_mosi(bus.mosi);
        bus.miso = self.inject_miso(bus.miso);
        FaultResult::Fired
    }
}

// ─── I2cFaultInjector ─────────────────────────────────────────────────────

pub struct I2cFaultInjector<S = Disarmed> {
    config: FaultConfig,
    lfsr: Lfsr,
    count: u32,
    _state: PhantomData<S>,
}

impl<S> View for I2cFaultInjector<S> {
    type V = InjectorState;

    closed spec fn view(&self) -> InjectorState {
        InjectorState { config: self.config, lfsr: self.lfsr@, count: self.count }
    }
}

impl I2cFaultInjector<Disarmed> {
    pub fn new() -> (inj: Self)
        ensures
            inj@ == fresh(Protocol::I2c, FaultType::NackInjection, 0xCAFE),
    {
        Self {
            config: FaultConfig::new(Protocol::I2c, FaultType::NackInjection),
            lfsr: Lfsr::new(0xCAFE),
            count: 0,
            _state: PhantomData,
        }
    }

    /// Take `config` if it is meant for this protocol; ignore it otherwise.
    pub fn configure(&mut self, config: &FaultConfig)
        ensures
            final(self)@ == configured(old(self)@, Protocol::I2c, *config),
    {
        if config.protocol == Protocol::I2c {
            self.config = *config;
        }
    }

    /// Compile-time state transition: `Disarmed` -> `Armed`. The counter starts
    /// from zero.
    pub fn arm(self) -> (armed: I2cFaultInjector<Armed>)
        ensures
            armed@ == (InjectorState { count: 0, ..self@ }),
    {
        I2cFaultInjector { config: self.config, lfsr: self.lfsr, count: 0, _state: PhantomData }
    }
}

impl Default for I2cFaultInjector<Disarmed> {
    fn default() -> (inj: Self)
        ensures
            inj@ == fresh(Protocol::I2c, FaultType::NackInjection, 0xCAFE),
    {
        Self::new()
    }
}

impl I2cFaultInjector<Armed> {
    pub fn is_armed(&self) -> (r: bool)
        ensures
            r,
    {
        true
    }

    pub fn injected_count(&self) -> (r: u32)
        ensures
            r == self@.count,
    {
        self.count
    }

    pub fn reset_stats(&mut self)
        ensures
            final(self)@ == (InjectorState { count: 0, ..old(self)@ }),
    {
        self.count = 0;
    }

    /// Compile-time state transition: `Armed` -> `Disarmed`. The counter is
    /// cleared.
    pub fn disarm(self) -> (disarmed: I2cFaultInjector<Disarmed>)
        ensures
            disarmed@ == (InjectorState { count: 0, ..self@ }),
    {
        I2cFaultInjector { config: self.config, lfsr: self.lfsr, count: 0, _state: PhantomData }
    }


    pub fn inject_address(&mut self, addr: u8) -> (r: u8)
        requires
            line_ok(old(self)@, addr, 7),
        ensures
            (final(self)@, r) == line_step(old(self)@, addr, 7),
    {
        if !should_inject(&mut self.lfsr, self.config.probability_permille) {
            return addr;
        }
        let bit = pick(&mut self.lfsr, self.config.target_bit, 7);
        let result = match self.config.fault_type {
            FaultType::BitFlip => bit_flip(addr, bit),
            FaultType::StuckAtZero => bit_clear(addr, bit),
            FaultType::StuckAtOne => bit_set(addr, bit),
            _ => addr,
        };
        if result != addr {
            self.count += 1;
        }
        result
    }

    pub fn inject_data(&mut self, byte: u8) -> (r: u8)
        requires
            line_ok(old(self)@, byte, 8),
        ensures
            (final(self)@, r) == line_step(old(self)@, byte, 8),
    {
        if !should_inject(&mut self.lfsr, self.config.probability_permille) {
            return byte;
        }
        let bit = pick(&mut self.lfsr, self.config.target_bit, 8);
        let result = match self.config.fault_type {
            FaultType::BitFlip => bit_flip(byte, bit),
            FaultType::StuckAtZero => bit_clear(byte, bit),
            FaultType::StuckAtOne => bit_set(byte, bit),
            _ => byte,
        };
        if result != byte {
            self.count += 1;
        }
        result
    }

    /// Whether to NACK this transfer: only for NACK injection, with the
    /// configured probability.
    pub fn should_nack(&mut self) -> (r: bool)
        ensures
            (final(self)@, r) == event_step(old(self)@, FaultType::NackInjection),
    {
        self.config.fault_type == FaultType::NackInjection && should_inject(
            &mut self.lfsr,
            self.config.probability_permille,
        )
    }

    pub fn should_lock_bus(&self) -> (r: bool)
        ensures
            r == (self@.config.fault_type == FaultType::BusLockup),
    {
        self.config.fault_type == FaultType::BusLockup
    }

    /// Inject into one I2C transfer: a possible NACK (counted), then the
    /// address, then the data byte.
    pub fn fire(&mut self, bus: &mut I2cBus) -> (r: FaultResult)
        requires
            i2c_fire_ok(old(self)@, old(bus).address, old(bus).data),
        ensures
            r == FaultResult::Fired,
            (final(self)@, final(bus).address, final(bus).data) == i2c_fire_step(
                old(self)@,
                old(bus).address,
                old(bus).data,
            ),
            final(bus).sda == old(bus).sda,
            final(bus).scl == old(bus).scl,
    {
        if self.config.fault_type == FaultType::BusLockup {
            busy_delay_us(self.config.duration_us);
        }
        if self.should_nack() {
            self.count += 1;
        }
        bus.address = self.inject_address(bus.address);
        bus.data = self.inject_data(bus.data);
        FaultResult::Fired
    }
}

/// The counter can take every change of one I2C `fire`.
pub open spec fn i2c_fire_ok(v: InjectorState, address: u8, data: u8) -> bool {
    let (v1, nack) = event_step(v, FaultType::NackInjection);
    let v2 = if nack { InjectorState { count: (v1.count + 1) as u32, ..v1 } } else { v1 };
    &&& nack ==> v.count < u32::MAX
    &&& line_ok(v2, address, 7)
    &&& line_ok(line_step(v2, address, 7).0, data, 8)
}

/// One I2C `fire`: the injector afterwards, the address and the data byte.
pub open spec fn i2c_fire_step(v: InjectorState, address: u8, data: u8) -> (InjectorState, u8, u8) {
    let (v1, nack) = event_step(v, FaultType::NackInjection);
    let v2 = if nack { InjectorState { count: (v1.count + 1) as u32, ..v1 } } else { v1 };
    let (v3, a) = line_step(v2, address, 7);
    let (v4, d) = line_step(v3, data, 8);
    (v4, a, d)
}

// ─── UartFaultInjector ─────────────────────────────────────────────────────

pub struct UartFaultInjector<S = Disarmed> {
    config: FaultConfig,
    lfsr: Lfsr,
    count: u32,
    _state: PhantomData<S>,
}

impl<S> View for UartFaultInjector<S> {
    type V = InjectorState;

    closed spec fn view(&self) -> InjectorState {
        InjectorState { config: self.config, lfsr: self.lfsr@, count: self.count }
    }
}

impl UartFaultInjector<Disarmed> {
    pub fn new() -> (inj: Self)
        ensures
            inj@ == fresh(Protocol::Uart, FaultType::BitFlip, 0xDEAD),
    {
        Self {
            config: FaultConfig::new(Protocol::Uart, FaultType::BitFlip),
            lfsr: Lfsr::new(0xDEAD),
            count: 0,
            _state: PhantomData,
        }
    }

    /// Take `config` if it is meant for this protocol; ignore it otherwise.
    pub fn configure(&mut self, config: &FaultConfig)
        ensures
            final(self)@ == configured(old(self)@, Protocol::Uart, *config),
    {
        if config.protocol == Protocol::Uart {
            self.config = *config;
        }
    }

    /// Compile-time state transition: `Disarmed` -> `Armed`. The counter starts
    /// from zero.
    pub fn arm(self) -> (armed: UartFaultInjector<Armed>)
        ensures
            armed@ == (InjectorState { count: 0, ..self@ }),
    {
        UartFaultInjector { config: self.config, lfsr: self.lfsr, count: 0, _state: PhantomData }
    }
}

impl Default for UartFaultInjector<Disarmed> {
    fn default() -> (inj: Self)
        ensures
            inj@ == fresh(Protocol::Uart, FaultType::BitFlip, 0xDEAD),
    {
        Self::new()
    }
}

impl UartFaultInjector<Armed> {
    pub fn is_armed(&self) -> (r: bool)
        ensures
            r,
    {
        true
    }

    pub fn injected_count(&self) -> (r: u32)
        ensures
            r == self@.count,
    {
        self.count
    }

    pub fn reset_stats(&mut self)
        ensures
            final(self)@ == (InjectorState { count: 0, ..old(self)@ }),
    {
        self.count = 0;
    }

    /// Compile-time state transition: `Armed` -> `Disarmed`. The counter is
    /// cleared.
    pub fn disarm(self) -> (disarmed: UartFaultInjector<Disarmed>)
        ensures
            disarmed@ == (InjectorState { count: 0, ..self@ }),
    {
        UartFaultInjector { config: self.config, lfsr: self.lfsr, count: 0, _state: PhantomData }
    }


    pub fn inject_tx(&mut self, byte: u8) -> (r: u8)
        requires
            tx_ok(old(self)@, byte),
        ensures
            (final(self)@, r) == tx_step(old(self)@, byte),
    {
        if !should_inject(&mut self.lfsr, self.config.probability_permille) {
            return byte;
        }
        let bit = pick(&mut self.lfsr, self.config.target_bit, 8);
        let result = match self.config.fault_type {
            FaultType::BitFlip => bit_flip(byte, bit),
            FaultType::ParityError => byte ^ 0x80,
            FaultType::FrameCorrupt => bit_flip(byte, self.lfsr.next_bit()),
            FaultType::BitDelay => {
                busy_delay_us(self.config.duration_us);
                byte
            },
            FaultType::ClockGlitch => {
                busy_delay_us(3);
                bit_flip(byte, self.lfsr.next_bit())
            },
            _ => byte,
        };
        if result != byte {
            self.count += 1;
        }
        result
    }

    pub fn inject_rx(&mut self, byte: u8) -> (r: u8)
        requires
            line_ok(old(self)@, byte, 8),
        ensures
            (final(self)@, r) == line_step(old(self)@, byte, 8),
    {
        if !should_inject(&mut self.lfsr, self.config.probability_permille) {
            return byte;
        }
        let bit = pick(&mut self.lfsr, self.config.target_bit, 8);
        let result = match self.config.fault_type {
            FaultType::BitFlip => bit_flip(byte, bit),
            FaultType::StuckAtZero => bit_clear(byte, bit),
            FaultType::StuckAtOne => bit_set(byte, bit),
            _ => byte,
        };
        if result != byte {
            self.count += 1;
        }
        result
    }

    /// Whether to signal a receiver overrun: only for overrun injection, with
    /// the configured probability; counted when it fires.
    pub fn inject_overrun(&mut self) -> (r: bool)
        requires
            overrun_ok(old(self)@),
        ensures
            final(self)@ == overrun_step(old(self)@).0,
            r == overrun_step(old(self)@).1,
    {
        if self.config.fault_type == FaultType::Overrun && should_inject(
            &mut self.lfsr,
            self.config.probability_permille,
        ) {
            self.count += 1;
            true
        } else {
            false
        }
    }

    /// Inject into one UART exchange: TX byte, RX byte, then a possible overrun.
    pub fn fire(&mut self, bus: &mut UartBus) -> (r: FaultResult)
        requires
            uart_fire_ok(old(self)@, old(bus).tx, old(bus).rx),
        ensures
            r == FaultResult::Fired,
            (final(self)@, final(bus).tx, final(bus).rx) == uart_fire_step(
                old(self)@,
                old(bus).tx,
                old(bus).rx,
            ),
    {
        bus.tx = self.inject_tx(bus.tx);
        bus.rx = self.inject_rx(bus.rx);
        self.inject_overrun();
        FaultResult::Fired
    }
}

/// An overrun attempt: the injector afterwards and whether it fired.
pub open spec fn overrun_step(v: InjectorState) -> (InjectorState, bool) {
    let (v1, go) = event_step(v, FaultType::Overrun);
    (if go { InjectorState { count: (v1.count + 1) as u32, ..v1 } } else { v1 }, go)
}

/// The counter can take every change of one UART `fire`.
pub open spec fn uart_fire_ok(v: InjectorState, tx: u8, rx: u8) -> bool {
    let (v1, _) = tx_step(v, tx);
    let (v2, _) = line_step(v1, rx, 8);
    tx_ok(v, tx) && line_ok(v1, rx, 8) && overrun_ok(v2)
}

/// One UART `fire`: the injector afterwards, the TX byte and the RX byte.
pub open spec fn uart_fire_step(v: InjectorState, tx: u8, rx: u8) -> (InjectorState, u8, u8) {
    let (v1, t) = tx_step(v, tx);
    let (v2, r) = line_step(v1, rx, 8);
    (overrun_step(v2).0, t, r)
}

/// The injection counter of an injector moves by one exactly when the byte
/// it injected into came out changed, and the configuration never changes.
pub proof fn lemma_count_tracks_changes(v: InjectorState, byte: u8, width: u8)
    requires
        v.count < u32::MAX,
    ensures
        line_step(v, byte, width).0.count == (if line_step(v, byte, width).1 != byte {
            v.count + 1
        } else {
            v.count as int
        }),
        line_step(v, byte, width).0.config == v.config,
        mosi_step(v, byte).0.count == (if mosi_step(v, byte).1 != byte {
            v.count + 1
        } else {
            v.count as int
        }),
        mosi_step(v, byte).0.config == v.config,
        tx_step(v, byte).0.count == (if tx_step(v, byte).1 != byte {
            v.count + 1
        } else {
            v.count as int
        }),
        tx_step(v, byte).0.config == v.config,
{
}

/// At full probability with an explicit bit, injection is deterministic: a
/// bit flip always flips that bit (and is counted), a stuck-at fault forces it,
/// and the LFSR is not consumed.
pub proof fn lemma_full_probability_deterministic(v: InjectorState, byte: u8, width: u8)
    requires
        v.config.probability_permille >= 1000,
        v.config.target_bit < width,
        v.count < u32::MAX,
    ensures
        line_step(v, byte, width).0.lfsr == v.lfsr,
        line_step(v, byte, width).1 == line_fault(v.config.fault_type, byte, v.config.target_bit),
        v.config.fault_type == FaultType::BitFlip ==> line_step(v, byte, width).0.count == v.count + 1,
{
    lemma_bit_flip_involution(byte, v.config.target_bit);
}

/// A parity error at full probability always inverts the top bit of the TX
/// byte, so the byte always changes, and it is counted; the configuration is
/// kept.
pub proof fn lemma_parity_error_inverts_top_bit(v: InjectorState, byte: u8)
    requires
        v.config.fault_type == FaultType::ParityError,
        v.config.probability_permille >= 1000,
        v.count < u32::MAX,
    ensures
        tx_step(v, byte).1 == byte ^ 0x80,
        tx_step(v, byte).1 != byte,
        tx_step(v, byte).1 & 0x7f == byte & 0x7f,
        tx_step(v, byte).0.count == v.count + 1,
        tx_step(v, byte).0.config == v.config,
{
    assert(byte ^ 0x80u8 != byte && (byte ^ 0x80u8) & 0x7fu8 == byte & 0x7fu8) by (bit_vector);
}

/// At zero probability nothing is ever injected and the LFSR is not consumed.
pub proof fn lemma_zero_probability_is_inert(v: InjectorState, byte: u8, width: u8)
    requires
        v.config.probability_permille == 0,
    ensures
        line_step(v, byte, width) == (v, byte),
        mosi_step(v, byte) == (v, byte),
        tx_step(v, byte) == (v, byte),
{
}

} // verus!
