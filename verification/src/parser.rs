//! Streaming frame parser. It resynchronises on garbage, so corrupted bytes
//! are observable: the host relies on this to detect injections.

use vstd::prelude::*;
use crate::protocol::{crc8, crc8_spec, frame_body, frame_bytes, zeros, MAX_FRAME, MAX_PAYLOAD, SYNC};

verus! {

#[derive(Clone, Copy, PartialEq, Eq, Debug)]
pub enum Decoded {
    /// A frame passed and its CRC verified.
    Frame { kind: u8, payload: [u8; MAX_PAYLOAD], len: usize },
    /// Enough bytes for a frame arrived but the CRC did not match. The junk is
    /// consumed; this is the observable signature of a corrupted frame.
    BadCrc { kind: u8 },
    /// A run of bytes that were skipped while resynchronising.
    Garbage,
}

/// What one outcome of the parser means: a frame with its payload padded with
/// zeros to `MAX_PAYLOAD` bytes and its payload length, a CRC failure, or garbage.
pub ghost enum Outcome {
    Frame { kind: u8, payload: Seq<u8>, len: nat },
    BadCrc { kind: u8 },
    Garbage,
}

impl View for Decoded {
    type V = Outcome;

    open spec fn view(&self) -> Outcome {
        match *self {
            Decoded::Frame { kind, payload, len } => Outcome::Frame {
                kind,
                payload: payload@,
                len: len as nat,
            },
            Decoded::BadCrc { kind } => Outcome::BadCrc { kind },
            Decoded::Garbage => Outcome::Garbage,
        }
    }
}

/// The meaning of an optional parser outcome.
pub open spec fn outcome_of(r: Option<Decoded>) -> Option<Outcome> {
    match r {
        Some(d) => Some(d@),
        None => None,
    }
}

/// Index of the first sync byte in `s`, or `s.len()` when there is none.
pub open spec fn first_sync(s: Seq<u8>) -> int
    decreases s.len(),
{
    if s.len() == 0 {
        0
    } else if s[0] == SYNC {
        0
    } else {
        1 + first_sync(s.drop_first())
    }
}

/// `s` without the bytes before its first sync byte (empty if it has none).
pub open spec fn resync(s: Seq<u8>) -> Seq<u8> {
    s.skip(first_sync(s))
}

/// One extraction attempt on the buffered bytes `s`: the bytes left buffered
/// and the outcome reported, if any.
pub open spec fn parse_step(s: Seq<u8>) -> (Seq<u8>, Option<Outcome>) {
    let i = first_sync(s);
    if i == s.len() {
        // No sync byte at all: everything buffered is junk.
        (Seq::empty(), if s.len() > 0 { Some(Outcome::Garbage) } else { None })
    } else if i > 0 {
        // Bytes before the sync are junk.
        (s.skip(i), Some(Outcome::Garbage))
    } else if s.len() < 2 {
        (s, None)
    } else if s[1] > MAX_PAYLOAD {
        // Absurd length: the sync byte was not a frame start; resync after it.
        (resync(s.skip(1)), Some(Outcome::Garbage))
    } else if s.len() < s[1] + 4 {
        (s, None)
    } else {
        let n = s[1] as int;
        let rest = s.skip(n + 4);
        if s[n + 3] == crc8_spec(s.subrange(1, n + 3)) {
            (
                rest,
                Some(
                    Outcome::Frame {
                        kind: s[2],
                        payload: s.subrange(3, n + 3) + zeros((MAX_PAYLOAD - n) as nat),
                        len: n as nat,
                    },
                ),
            )
        } else {
            (rest, Some(Outcome::BadCrc { kind: s[2] }))
        }
    }
}

/// Feeding one byte to a parser holding `s`: the byte is buffered (unless the
/// buffer is full) and one extraction is attempted.
pub open spec fn push_step(s: Seq<u8>, b: u8) -> (Seq<u8>, Option<Outcome>) {
    parse_step(if s.len() < MAX_FRAME { s.push(b) } else { s })
}

/// Feeding `bytes` one at a time to a parser holding `s`: the bytes left
/// buffered and the outcome of each push.
pub open spec fn feed(s: Seq<u8>, bytes: Seq<u8>) -> (Seq<u8>, Seq<Option<Outcome>>)
    decreases bytes.len(),
{
    if bytes.len() == 0 {
        (s, Seq::empty())
    } else {
        let prev = feed(s, bytes.drop_last());
        let step = push_step(prev.0, bytes.last());
        (step.0, prev.1.push(step.1))
    }
}

/// What a parser can hold between pushes: nothing, or the beginning of a frame
/// that has not arrived in full yet.
pub open spec fn pending(s: Seq<u8>) -> bool {
    s.len() == 0 || (s[0] == SYNC && (s.len() < 2 || (s[1] <= MAX_PAYLOAD && s.len() < s[1]
        + 4)))
}

/// A sync byte followed by a length byte above `MAX_PAYLOAD` cannot start a
/// frame: whatever follows, it is reported as garbage, never as a frame or a
/// CRC failure.
pub proof fn lemma_absurd_length_is_garbage(s: Seq<u8>, b: u8)
    ensures
        s.len() >= 2 && s[0] == SYNC && s[1] > MAX_PAYLOAD ==> parse_step(s).1 == Some(
            Outcome::Garbage,
        ),
        ({
            let t = s.push(b);
            s.len() < MAX_FRAME && t.len() >= 2 && t[0] == SYNC && t[1] > MAX_PAYLOAD
                ==> push_step(s, b).1 == Some(Outcome::Garbage)
        }),
{
    if s.len() >= 2 && s[0] == SYNC {
        assert(first_sync(s) == 0);
    }
    let t = s.push(b);
    if t.len() >= 2 && t[0] == SYNC {
        assert(first_sync(t) == 0);
    }
}

pub struct FrameParser {
    buf: [u8; MAX_FRAME],
    len: usize,
}

impl View for FrameParser {
    type V = Seq<u8>;

    /// The buffered bytes.
    closed spec fn view(&self) -> Seq<u8> {
        self.buf@.take(self.len as int)
    }
}

proof fn lemma_first_sync_at(s: Seq<u8>, i: int)
    requires
        0 <= i <= s.len(),
        forall|k: int| 0 <= k < i ==> s[k] != SYNC,
        i == s.len() || s[i] == SYNC,
    ensures
        first_sync(s) == i,
    decreases s.len(),
{
    if s.len() > 0 && i > 0 {
        lemma_first_sync_at(s.drop_first(), i - 1);
    }
}

proof fn lemma_first_sync_bounds(s: Seq<u8>)
    ensures
        0 <= first_sync(s) <= s.len(),
        first_sync(s) < s.len() ==> s[first_sync(s)] == SYNC,
    decreases s.len(),
{
    if s.len() > 0 && s[0] != SYNC {
        lemma_first_sync_bounds(s.drop_first());
    }
}

/// Index of the first sync byte of `buf[from..len]`, or `len`.
fn find_sync(buf: &[u8; MAX_FRAME], from: usize, len: usize) -> (i: usize)
    requires
        from <= len <= MAX_FRAME,
    ensures
        from + first_sync(buf@.subrange(from as int, len as int)) == i,
{
    let mut i = from;
    while i < len && buf[i] != SYNC
        invariant
            from <= i <= len <= MAX_FRAME,
            forall|k: int| from <= k < i ==> buf@[k] != SYNC,
        decreases len - i,
    {
        i = i + 1;
    }
    proof {
        lemma_first_sync_at(buf@.subrange(from as int, len as int), i - from);
    }
    i
}

/// Drop the first `k` buffered bytes, moving the rest to the front.
fn discard_front(buf: &mut [u8; MAX_FRAME], len: usize, k: usize)
    requires
        k <= len <= MAX_FRAME,
    ensures
        final(buf)@.take(len - k) == old(buf)@.take(len as int).skip(k as int),
{
    let ghost orig = buf@;
    let mut j: usize = 0;
    while j < len - k
        invariant
            k <= len <= MAX_FRAME,
            j <= len - k,
            buf@.len() == MAX_FRAME,
            forall|m: int| 0 <= m < j ==> buf@[m] == orig[m + k],
            forall|m: int| j <= m < MAX_FRAME ==> buf@[m] == orig[m],
        decreases len - k - j,
    {
        buf[j] = buf[j + k];
        j = j + 1;
    }
    assert(buf@.take(len - k) =~= orig.take(len as int).skip(k as int));
}

impl FrameParser {
    #[verifier::type_invariant]
    spec fn inv(self) -> bool {
        self.len <= MAX_FRAME && pending(self@)
    }

    pub fn new() -> (p: Self)
        ensures
            p@ == Seq::<u8>::empty(),
    {
        let p = Self { buf: [0;MAX_FRAME], len: 0 };
        assert(p@ =~= Seq::<u8>::empty());
        p
    }

    /// Feed one byte; returns at most one outcome per call.
    pub fn push(&mut self, b: u8) -> (r: Option<Decoded>)
        ensures
            final(self)@ == push_step(old(self)@, b).0,
            outcome_of(r) == push_step(old(self)@, b).1,
            pending(final(self)@),
    {
        proof {
            use_type_invariant(&*self);
        }
        let mut buf = self.buf;
        let mut len = self.len;
        if len < MAX_FRAME {
            buf[len] = b;
            len = len + 1;
            assert(buf@.take(len as int) =~= old(self)@.push(b));
        }
        let (nbuf, nlen, r) = Self::extract(buf, len);
        proof {
            lemma_push_keeps_pending(old(self)@, b);
        }
        *self = FrameParser { buf: nbuf, len: nlen };
        r
    }

    fn extract(buf: [u8; MAX_FRAME], len: usize) -> (r: ([u8; MAX_FRAME], usize, Option<Decoded>))
        requires
            len <= MAX_FRAME,
        ensures
            r.1 <= MAX_FRAME,
            r.0@.take(r.1 as int) == parse_step(buf@.take(len as int)).0,
            outcome_of(r.2) == parse_step(buf@.take(len as int)).1,
    {
        let ghost s = buf@.take(len as int);
        let mut buf = buf;
        let mut len = len;
        // Find the first sync byte.
        let i = find_sync(&buf, 0, len);
        proof {
            assert(buf@.subrange(0, len as int) =~= s);
            lemma_first_sync_bounds(s);
        }
        if i == len {
            if len > 0 {
                assert(buf@.take(0) =~= Seq::<u8>::empty());
                return (buf, 0, Some(Decoded::Garbage));
            }
            assert(buf@.take(0) =~= Seq::<u8>::empty());
            return (buf, 0, None);
        }
        if i > 0 {
            // Bytes before the sync are junk.
            discard_front(&mut buf, len, i);
            return (buf, len - i, Some(Decoded::Garbage));
        }
        if len < 2 {
            return (buf, len, None);  // need len byte
        }
        let plen = buf[1] as usize;
        // Guard against absurd lengths: the sync was not a frame start, so
        // resync on the next sync byte after it.
        if plen > MAX_PAYLOAD {
            let j = find_sync(&buf, 1, len);
            proof {
                assert(buf@.subrange(1, len as int) =~= s.skip(1));
                lemma_first_sync_bounds(s.skip(1));
            }
            if j < len {
                discard_front(&mut buf, len, j);
                assert(resync(s.skip(1)) =~= s.skip(j as int));
                return (buf, len - j, Some(Decoded::Garbage));
            }
            assert(buf@.take(0) =~= resync(s.skip(1)));
            return (buf, 0, Some(Decoded::Garbage));
        }
        let need = 4 + plen;
        if len < need {
            return (buf, len, None);  // need more bytes
        }
        let kind = buf[2];
        let mut full = [0u8; MAX_PAYLOAD];
        let mut k: usize = 0;
        while k < plen
            invariant
                plen <= MAX_PAYLOAD,
                3 + plen <= len <= MAX_FRAME,
                k <= plen,
                full@.len() == MAX_PAYLOAD,
                forall|m: int| 0 <= m < k ==> full@[m] == buf@[3 + m],
                forall|m: int| k <= m < MAX_PAYLOAD ==> full@[m] == 0,
            decreases plen - k,
        {
            full[k] = buf[3 + k];
            k = k + 1;
        }
        let body = vstd::slice::slice_subrange(buf.as_slice(), 1, 3 + plen);
        let expected = crc8(body);
        let got = buf[3 + plen];
        proof {
            assert(body@ =~= s.subrange(1, 3 + plen));
            assert(full@ =~= s.subrange(3, plen + 3) + zeros((MAX_PAYLOAD - plen) as nat));
        }
        // Consume exactly the frame.
        discard_front(&mut buf, len, need);
        if got != expected {
            return (buf, len - need, Some(Decoded::BadCrc { kind }));
        }
        (buf, len - need, Some(Decoded::Frame { kind, payload: full, len: plen }))
    }
}

/// Between pushes the parser holds only an incomplete frame start, so it never
/// fills up and never drops a byte.
pub proof fn lemma_push_keeps_pending(s: Seq<u8>, b: u8)
    requires
        pending(s),
    ensures
        pending(push_step(s, b).0),
        s.len() < MAX_FRAME,
{
    let t = s.push(b);
    lemma_first_sync_bounds(t);
    if s.len() > 0 {
        assert(t[0] == SYNC);
    }
    if first_sync(t) == 0 && t.len() >= 2 && t[1] > MAX_PAYLOAD {
        let u = t.skip(1);
        lemma_first_sync_bounds(u);
        assert(s.len() == 1);
        assert(u =~= seq![b]);
        if b == SYNC {
            assert(resync(u) =~= u);
        } else {
            assert(first_sync(u.drop_first()) == 0);
            assert(resync(u).len() == 0);
        }
    }
    if first_sync(t) == 0 && t.len() >= 2 && t[1] <= MAX_PAYLOAD && t.len() >= t[1] + 4 {
        assert(t.skip(t[1] + 4).len() == 0);
    }
}


/// `n` pushes that report nothing.
pub open spec fn silent(n: nat) -> Seq<Option<Outcome>> {
    Seq::new(n, |i: int| None)
}

/// `n` pushes that each report garbage.
pub open spec fn garbage_run(n: nat) -> Seq<Option<Outcome>> {
    Seq::new(n, |i: int| Some(Outcome::Garbage))
}

/// The bytes of a frame whose CRC byte is `c` (correct or not).
pub open spec fn frame_with_crc(kind: u8, payload: Seq<u8>, c: u8) -> Seq<u8> {
    seq![SYNC] + frame_body(kind, payload) + seq![c]
}

/// What a frame whose CRC byte is `c` decodes to.
pub open spec fn frame_outcome(kind: u8, payload: Seq<u8>, c: u8) -> Outcome {
    if c == crc8_spec(frame_body(kind, payload)) {
        Outcome::Frame {
            kind,
            payload: payload + zeros((MAX_PAYLOAD - payload.len()) as nat),
            len: payload.len(),
        }
    } else {
        Outcome::BadCrc { kind }
    }
}

proof fn lemma_frame_prefix_waits(kind: u8, payload: Seq<u8>, c: u8, j: int)
    requires
        payload.len() <= MAX_PAYLOAD,
        1 <= j < payload.len() + 4,
    ensures
        parse_step(frame_with_crc(kind, payload, c).take(j)) == (
            frame_with_crc(kind, payload, c).take(j),
            None::<Outcome>,
        ),
{
    let t = frame_with_crc(kind, payload, c).take(j);
    assert(t[0] == SYNC);
    assert(first_sync(t) == 0);
    if j >= 2 {
        assert(t[1] == payload.len());
    }
}

proof fn lemma_feed_frame_prefix(kind: u8, payload: Seq<u8>, c: u8, k: int)
    requires
        payload.len() <= MAX_PAYLOAD,
        1 <= k < payload.len() + 4,
    ensures
        feed(Seq::empty(), frame_with_crc(kind, payload, c).take(k)) == (
            frame_with_crc(kind, payload, c).take(k),
            silent(k as nat),
        ),
    decreases k,
{
    let f = frame_with_crc(kind, payload, c);
    let t = f.take(k);
    if k == 1 {
        assert(t.drop_last() =~= Seq::<u8>::empty());
        let e = Seq::<u8>::empty();
        assert(feed(e, e) == (e, Seq::<Option<Outcome>>::empty()));
        assert(e.push(t.last()) =~= f.take(1));
        lemma_frame_prefix_waits(kind, payload, c, 1);
        assert(push_step(e, t.last()) == (t, None::<Outcome>));
        assert(Seq::<Option<Outcome>>::empty().push(None) =~= silent(1));
    } else {
        lemma_feed_frame_prefix(kind, payload, c, k - 1);
        assert(t.drop_last() =~= f.take(k - 1));
        assert(f.take(k - 1).push(t.last()) =~= t);
        lemma_frame_prefix_waits(kind, payload, c, k);
        assert(push_step(f.take(k - 1), t.last()) == (t, None::<Outcome>));
        assert(silent((k - 1) as nat).push(None) =~= silent(k as nat));
    }
}

/// Feeding a whole frame to an empty parser reports nothing until its last
/// byte, then exactly one outcome: the frame when its CRC byte is right, a CRC
/// failure naming its kind otherwise. The parser is empty afterwards.
pub proof fn lemma_feed_frame(kind: u8, payload: Seq<u8>, c: u8)
    requires
        payload.len() <= MAX_PAYLOAD,
    ensures
        feed(Seq::empty(), frame_with_crc(kind, payload, c)) == (
            Seq::<u8>::empty(),
            silent((payload.len() + 3) as nat).push(Some(frame_outcome(kind, payload, c))),
        ),
{
    let f = frame_with_crc(kind, payload, c);
    let n = payload.len() as int;
    lemma_feed_frame_prefix(kind, payload, c, n + 3);
    assert(f.drop_last() =~= f.take(n + 3));
    assert(f.take(n + 3).push(f.last()) =~= f);
    assert(f[0] == SYNC);
    assert(first_sync(f) == 0);
    assert(f[1] == n);
    assert(f.subrange(1, n + 3) =~= frame_body(kind, payload));
    assert(f.subrange(3, n + 3) =~= payload);
    assert(f.skip(n + 4) =~= Seq::<u8>::empty());
}

/// A frame sent with its CRC reaches the receiver intact: feeding the bytes of
/// `encode(kind, payload)` to a fresh parser yields exactly one outcome, on the
/// last byte, and it is that frame.
pub proof fn lemma_frame_roundtrip(kind: u8, payload: Seq<u8>)
    requires
        payload.len() <= MAX_PAYLOAD,
    ensures
        feed(Seq::empty(), frame_bytes(kind, payload)) == (
            Seq::<u8>::empty(),
            silent((payload.len() + 3) as nat).push(
                Some(
                    Outcome::Frame {
                        kind,
                        payload: payload + zeros((MAX_PAYLOAD - payload.len()) as nat),
                        len: payload.len(),
                    },
                ),
            ),
        ),
{
    lemma_feed_frame(kind, payload, crc8_spec(frame_body(kind, payload)));
    assert(frame_with_crc(kind, payload, crc8_spec(frame_body(kind, payload)))
        =~= frame_bytes(kind, payload));
}

/// A frame whose CRC byte was corrupted is reported once, as a CRC failure
/// naming its kind, and consumed whole.
pub proof fn lemma_bad_crc_reported(kind: u8, payload: Seq<u8>, c: u8)
    requires
        payload.len() <= MAX_PAYLOAD,
        c != crc8_spec(frame_body(kind, payload)),
    ensures
        feed(Seq::empty(), frame_with_crc(kind, payload, c)) == (
            Seq::<u8>::empty(),
            silent((payload.len() + 3) as nat).push(Some(Outcome::BadCrc { kind })),
        ),
{
    lemma_feed_frame(kind, payload, c);
}

/// Feeding `a` then `b` is feeding `a + b`.
pub proof fn lemma_feed_append(s: Seq<u8>, a: Seq<u8>, b: Seq<u8>)
    ensures
        feed(s, a + b) == (feed(feed(s, a).0, b).0, feed(s, a).1 + feed(feed(s, a).0, b).1),
    decreases b.len(),
{
    if b.len() == 0 {
        assert(a + b =~= a);
        assert(feed(s, a).1 + Seq::<Option<Outcome>>::empty() =~= feed(s, a).1);
    } else {
        lemma_feed_append(s, a, b.drop_last());
        assert((a + b).drop_last() =~= a + b.drop_last());
        assert((a + b).last() == b.last());
        let mid = feed(s, a);
        let rest = feed(mid.0, b.drop_last());
        assert(mid.1 + rest.1.push(push_step(rest.0, b.last()).1) =~= (mid.1 + rest.1).push(
            push_step(rest.0, b.last()).1,
        ));
    }
}

/// Bytes that hold no sync byte are each reported as garbage by an empty
/// parser, which stays empty.
pub proof fn lemma_feed_garbage(g: Seq<u8>)
    requires
        forall|i: int| 0 <= i < g.len() ==> g[i] != SYNC,
    ensures
        feed(Seq::empty(), g) == (Seq::<u8>::empty(), garbage_run(g.len())),
    decreases g.len(),
{
    if g.len() > 0 {
        lemma_feed_garbage(g.drop_last());
        let t = Seq::<u8>::empty().push(g.last());
        assert(first_sync(t.drop_first()) == 0);
        assert(first_sync(t) == 1);
        assert(garbage_run((g.len() - 1) as nat).push(Some(Outcome::Garbage)) =~= garbage_run(
            g.len(),
        ));
    }
}

/// The parser resynchronises: after a run of junk bytes holding no sync byte,
/// a frame is still received intact.
pub proof fn lemma_resync_after_garbage(g: Seq<u8>, kind: u8, payload: Seq<u8>)
    requires
        forall|i: int| 0 <= i < g.len() ==> g[i] != SYNC,
        payload.len() <= MAX_PAYLOAD,
    ensures
        feed(Seq::empty(), g + frame_bytes(kind, payload)) == (
            Seq::<u8>::empty(),
            garbage_run(g.len()) + silent((payload.len() + 3) as nat).push(
                Some(
                    Outcome::Frame {
                        kind,
                        payload: payload + zeros((MAX_PAYLOAD - payload.len()) as nat),
                        len: payload.len(),
                    },
                ),
            ),
        ),
{
    lemma_feed_append(Seq::empty(), g, frame_bytes(kind, payload));
    lemma_feed_garbage(g);
    lemma_frame_roundtrip(kind, payload);
}

} // verus!
