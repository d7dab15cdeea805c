//! Campaign scoring: every injection from the injector's ground truth is
//! paired with a detection of the device under test, and the results are
//! summarised for reporting.

use vstd::prelude::*;
use std::collections::BTreeMap;
use crate::tally::{tally_get, tally_set};
use crate::dut::{det_label, elapsed_ms, DetKind, Detection, GroundTruth};
use crate::protocol::{
    FAULT_BITFLIP, FAULT_BURST, FAULT_BYTE, FAULT_DELAY, FAULT_DROP, FAULT_DUTY, FAULT_REPLAY,
    N_FAULT_KINDS,
};

verus! {

/// Campaign options, as given on the command line.
#[derive(Clone, Copy, PartialEq, Eq, Debug)]
pub struct Opts {
    pub simulated: bool,
    pub seed: u32,
    pub packets: u16,
    pub cadence_ms: u16,
    pub profile: &'static str,
    pub quiet: bool,
}

/// `a` and `b` hold the same characters.
pub fn str_eq(a: &str, b: &str) -> (r: bool)
    ensures
        r == (a@ == b@),
{
    let x = a.as_bytes();
    let y = b.as_bytes();
    let mut same = x.len() == y.len();
    let mut i: usize = 0;
    if same {
        while i < x.len()
            invariant
                x@.len() == y@.len(),
                i <= x@.len(),
                same == (forall|k: int| 0 <= k < i ==> x@[k] == y@[k]),
            decreases x@.len() - i,
        {
            if x[i] != y[i] {
                same = false;
            }
            i = i + 1;
        }
        if same {
            assert(x@ =~= y@);
        }
    }
    proof {
        vstd::utf8::encode_utf8_decode_utf8(a@);
        vstd::utf8::encode_utf8_decode_utf8(b@);
        if !same && x@.len() == y@.len() {
            let k = choose|k: int| 0 <= k < i && x@[k] != y@[k];
            assert(x@[k] != y@[k]);
        }
    }
    same
}

/// Weight vector of a named profile, indexed FAULT_BITFLIP..FAULT_DUTY.
/// Unknown names get the "fuzz" weights.
pub open spec fn profile_weights_spec(name: Seq<char>) -> Seq<u8> {
    if name == "clean"@ {
        seq![0, 0, 0, 0, 0, 0, 0]
    } else if name == "fuzz"@ {
        seq![8, 8, 8, 8, 8, 8, 0]
    } else if name == "emi"@ {
        seq![30, 15, 0, 5, 10, 25, 0]
    } else if name == "stress"@ {
        seq![5, 5, 40, 30, 15, 5, 0]
    } else if name == "delay"@ {
        seq![0, 0, 0, 100, 0, 0, 0]
    } else {
        seq![8, 8, 8, 8, 8, 8, 0]
    }
}

/// Weight vectors per profile, indexed FAULT_BITFLIP..FAULT_DUTY.
pub fn profile_weights(name: &str) -> (w: [u8; N_FAULT_KINDS])
    ensures
        w@ == profile_weights_spec(name@),
{
    let w: [u8; N_FAULT_KINDS] = if str_eq(name, "clean") {
        [0, 0, 0, 0, 0, 0, 0]
    } else if str_eq(name, "fuzz") {
        [8, 8, 8, 8, 8, 8, 0]
    } else if str_eq(name, "emi") {
        [30, 15, 0, 5, 10, 25, 0]
    } else if str_eq(name, "stress") {
        [5, 5, 40, 30, 15, 5, 0]
    } else if str_eq(name, "delay") {
        [0, 0, 0, 100, 0, 0, 0]
    } else {
        [8, 8, 8, 8, 8, 8, 0]
    };
    assert(w@ =~= profile_weights_spec(name@));
    w
}

/// Injected and detected faults of one kind.
pub struct KindStat {
    pub kind: u8,
    pub injected: u16,
    pub detected: u16,
}

/// One report row: fault id, fault kind, sequence number hit, whether it was
/// detected, the detection label (or "physical" / "__miss__") and the latency.
pub type ReportRow = (u32, u8, u16, bool, &'static str, u64);

pub struct CampaignResult {
    pub seed: u32,
    pub profile: &'static str,
    pub packets: u16,
    pub simulated: bool,
    pub injected: u16,
    pub detected: u16,
    pub missed: u16,
    /// Out-of-band faults (duty glitch), recorded but not scored.
    pub physical: u16,
    /// Sum of the detection latencies of the detected faults.
    pub latency_total_ms: u64,
    pub max_latency_ms: u64,
    pub per_kind: Vec<KindStat>,
    /// Raw rows for the CSV report.
    pub rows: Vec<ReportRow>,
}

/// Report label of a fault kind; "?" for a kind the protocol does not define.
pub open spec fn fault_label_spec(kind: u8) -> Seq<char> {
    if kind == 0 {
        "none"@
    } else if kind == FAULT_BITFLIP {
        "bitflip"@
    } else if kind == FAULT_BYTE {
        "byte"@
    } else if kind == FAULT_DROP {
        "drop"@
    } else if kind == FAULT_DELAY {
        "delay"@
    } else if kind == FAULT_REPLAY {
        "replay"@
    } else if kind == FAULT_BURST {
        "burst"@
    } else if kind == FAULT_DUTY {
        "duty"@
    } else {
        "?"@
    }
}

/// Report label of a fault kind, as the per-kind summary prints it.
pub fn fault_label(kind: u8) -> (s: &'static str)
    ensures
        s@ == fault_label_spec(kind),
{
    match kind {
        0 => "none",
        FAULT_BITFLIP => "bitflip",
        FAULT_BYTE => "byte",
        FAULT_DROP => "drop",
        FAULT_DELAY => "delay",
        FAULT_REPLAY => "replay",
        FAULT_BURST => "burst",
        FAULT_DUTY => "duty",
        _ => "?",
    }
}

/// The detections that plausibly reveal an injected fault of `kind`; none for
/// out-of-band (physical) faults, which are recorded but not scored.
pub open spec fn expected_kinds(kind: u8) -> Seq<DetKind> {
    if kind == FAULT_BITFLIP || kind == FAULT_BYTE {
        seq![DetKind::Crc, DetKind::Burst]
    } else if kind == FAULT_DROP {
        seq![DetKind::Gap]
    } else if kind == FAULT_DELAY {
        seq![DetKind::Late]
    } else if kind == FAULT_REPLAY {
        seq![DetKind::Replay]
    } else if kind == FAULT_BURST {
        seq![DetKind::Burst]
    } else {
        seq![]
    }
}

/// Expected DUT detections for each injected fault kind.
fn expected_dets(kind: u8) -> (v: Vec<DetKind>)
    ensures
        v@ == expected_kinds(kind),
{
    let mut v = Vec::new();
    if kind == FAULT_BITFLIP || kind == FAULT_BYTE {
        v.push(DetKind::Crc);
        v.push(DetKind::Burst);
    } else if kind == FAULT_DROP {
        v.push(DetKind::Gap);
    } else if kind == FAULT_DELAY {
        v.push(DetKind::Late);
    } else if kind == FAULT_REPLAY {
        v.push(DetKind::Replay);
    } else if kind == FAULT_BURST {
        v.push(DetKind::Burst);
    }
    assert(v@ =~= expected_kinds(kind));
    v
}

fn contains_kind(v: &Vec<DetKind>, k: DetKind) -> (r: bool)
    ensures
        r == v@.contains(k),
{
    let mut i: usize = 0;
    while i < v.len()
        invariant
            i <= v@.len(),
            forall|j: int| 0 <= j < i ==> v@[j] != k,
        decreases v@.len() - i,
    {
        if v[i] == k {
            return true;
        }
        i = i + 1;
    }
    false
}

/// Distance between two wrapping 16-bit sequence numbers.
pub open spec fn seq_distance(a: u16, b: u16) -> int {
    let w = if a >= b {
        a - b
    } else {
        a - b + 0x1_0000
    };
    if w >= 0x8000 {
        0x1_0000 - w
    } else {
        w
    }
}

fn dseq_diff(a: u16, b: u16) -> (r: u32)
    ensures
        r == seq_distance(a, b),
{
    let w = a.wrapping_sub(b);
    if w >= 0x8000 {
        0x1_0000 - w as u32
    } else {
        w as u32
    }
}

/// Milliseconds from the ground-truth notice to the detection (zero if the
/// detection came first).
pub open spec fn latency_ms(t: GroundTruth, d: Detection) -> int {
    elapsed_ms(t.at_ns, d.at_ns)
}

/// Detection `d` can account for injection `t`: its kind is plausible for the
/// fault, its sequence number is within two of the fault's, and it is not
/// earlier than two frame periods before the fault.
pub open spec fn plausible(d: Detection, t: GroundTruth, cadence_ms: u16) -> bool {
    &&& expected_kinds(t.kind).contains(d.kind)
    &&& seq_distance(d.seq, t.at_seq) <= 2
    &&& latency_ms(t, d) > -(cadence_ms * 2)
}

/// Index of the first detection from `from` on, not yet taken, that can
/// account for `t`; the number of detections when there is none.
pub open spec fn first_free_plausible(
    dets: Seq<Detection>,
    taken: Seq<bool>,
    t: GroundTruth,
    cadence_ms: u16,
    from: int,
) -> int
    decreases dets.len() - from,
{
    if 0 <= from < dets.len() {
        if !taken[from] && plausible(dets[from], t, cadence_ms) {
            from
        } else {
            first_free_plausible(dets, taken, t, cadence_ms, from + 1)
        }
    } else {
        dets.len() as int
    }
}

/// A fault paired with the detection that accounts for it (and its latency),
/// if any.
pub type Match = (GroundTruth, Option<(Detection, u64)>);

/// Greedy time-ordered matching: each scored injection, in order, takes the
/// first detection not taken yet that can account for it. Returns the pairs
/// and which detections were taken.
pub open spec fn greedy(dets: Seq<Detection>, truths: Seq<GroundTruth>, cadence_ms: u16) -> (
    Seq<Match>,
    Seq<bool>,
)
    decreases truths.len(),
{
    if truths.len() == 0 {
        (Seq::empty(), Seq::new(dets.len(), |i: int| false))
    } else {
        let (ms, taken) = greedy(dets, truths.drop_last(), cadence_ms);
        let t = truths.last();
        if expected_kinds(t.kind).len() == 0 {
            (ms.push((t, None)), taken)
        } else {
            let j = first_free_plausible(dets, taken, t, cadence_ms, 0);
            if j < dets.len() {
                (
                    ms.push((t, Some((dets[j], latency_ms(t, dets[j]) as u64)))),
                    taken.update(j, true),
                )
            } else {
                (ms.push((t, None)), taken)
            }
        }
    }
}

/// Number of matched faults.
pub open spec fn detected_count(ms: Seq<Match>) -> nat
    decreases ms.len(),
{
    if ms.len() == 0 {
        0
    } else {
        detected_count(ms.drop_last()) + if ms.last().1 is Some {
            1nat
        } else {
            0nat
        }
    }
}

/// Number of out-of-band faults.
pub open spec fn physical_count(ms: Seq<Match>) -> nat
    decreases ms.len(),
{
    if ms.len() == 0 {
        0
    } else {
        physical_count(ms.drop_last()) + if expected_kinds(ms.last().0.kind).len() == 0 {
            1nat
        } else {
            0nat
        }
    }
}

/// Latency of a match (zero when unmatched).
pub open spec fn match_latency(m: Match) -> u64 {
    match m.1 {
        Some((_, lat)) => lat,
        None => 0,
    }
}

/// Sum of the latencies of the matched faults.
pub open spec fn latency_sum(ms: Seq<Match>) -> nat
    decreases ms.len(),
{
    if ms.len() == 0 {
        0
    } else {
        latency_sum(ms.drop_last()) + match_latency(ms.last()) as nat
    }
}

/// Largest latency of a matched fault (zero when none matched).
pub open spec fn latency_max(ms: Seq<Match>) -> u64
    decreases ms.len(),
{
    if ms.len() == 0 {
        0
    } else {
        let prev = latency_max(ms.drop_last());
        if match_latency(ms.last()) > prev {
            match_latency(ms.last())
        } else {
            prev
        }
    }
}

/// The report label of a match.
pub open spec fn match_label(m: Match) -> Seq<char> {
    match m.1 {
        Some((d, _)) => det_label(d.kind),
        None => if expected_kinds(m.0.kind).len() == 0 {
            "physical"@
        } else {
            "__miss__"@
        },
    }
}

/// `row` is the report row of match `m`.
pub open spec fn row_of(row: ReportRow, m: Match) -> bool {
    &&& row.0 == m.0.fault_id
    &&& row.1 == m.0.kind
    &&& row.2 == m.0.at_seq
    &&& row.3 == (m.1 is Some)
    &&& row.4@ == match_label(m)
    &&& row.5 == match_latency(m)
}

/// Injected and detected counts per fault kind.
pub open spec fn kind_counts(ms: Seq<Match>) -> Map<u8, (u16, u16)>
    decreases ms.len(),
{
    if ms.len() == 0 {
        Map::empty()
    } else {
        let prev = kind_counts(ms.drop_last());
        let k = ms.last().0.kind;
        let (inj, det) = if prev.contains_key(k) {
            prev[k]
        } else {
            (0u16, 0u16)
        };
        prev.insert(
            k,
            ((inj + 1) as u16, (if ms.last().1 is Some {
                det + 1
            } else {
                det as int
            }) as u16),
        )
    }
}

/// `per_kind` lists the entries of `counts` in increasing kind order.
pub open spec fn lists_counts(per_kind: Seq<KindStat>, counts: Map<u8, (u16, u16)>) -> bool {
    &&& forall|i: int, j: int|
        0 <= i < j < per_kind.len() ==> per_kind[i].kind < per_kind[j].kind
    &&& forall|i: int|
        0 <= i < per_kind.len() ==> counts.contains_key(#[trigger] per_kind[i].kind) && counts[per_kind[i].kind]
            == (per_kind[i].injected, per_kind[i].detected)
    &&& forall|k: u8| counts.contains_key(k) ==> exists|i: int| 0 <= i < per_kind.len() && #[trigger] per_kind[i].kind == k
}

/// Largest latency a match can carry: whole milliseconds in a `u64` of nanoseconds.
pub open spec fn max_latency_bound() -> u64 {
    (u64::MAX / 1_000_000) as u64
}

proof fn lemma_greedy_facts(dets: Seq<Detection>, truths: Seq<GroundTruth>, cadence_ms: u16)
    ensures
        greedy(dets, truths, cadence_ms).0.len() == truths.len(),
        greedy(dets, truths, cadence_ms).1.len() == dets.len(),
        forall|k: int|
            0 <= k < truths.len() ==> (#[trigger] greedy(dets, truths, cadence_ms).0[k]).0
                == truths[k],
        forall|k: int|
            0 <= k < truths.len() ==> match_latency(#[trigger] greedy(dets, truths, cadence_ms).0[k])
                <= max_latency_bound(),
        forall|k: int|
            0 <= k < truths.len() ==> (#[trigger] greedy(dets, truths, cadence_ms).0[k]).1 is Some
                ==> expected_kinds(truths[k].kind).len() != 0,
    decreases truths.len(),
{
    if truths.len() > 0 {
        lemma_greedy_facts(dets, truths.drop_last(), cadence_ms);
        let (ms, taken) = greedy(dets, truths.drop_last(), cadence_ms);
        let t = truths.last();
        if expected_kinds(t.kind).len() != 0 {
            lemma_first_free_plausible_bounds(dets, taken, t, cadence_ms, 0);
        }
    }
}

proof fn lemma_first_free_plausible_bounds(
    dets: Seq<Detection>,
    taken: Seq<bool>,
    t: GroundTruth,
    cadence_ms: u16,
    from: int,
)
    requires
        0 <= from <= dets.len(),
    ensures
        from <= first_free_plausible(dets, taken, t, cadence_ms, from) <= dets.len(),
        first_free_plausible(dets, taken, t, cadence_ms, from) < dets.len() ==> {
            let j = first_free_plausible(dets, taken, t, cadence_ms, from);
            !taken[j] && plausible(dets[j], t, cadence_ms)
        },
    decreases dets.len() - from,
{
    if from < dets.len() && !(!taken[from] && plausible(dets[from], t, cadence_ms)) {
        lemma_first_free_plausible_bounds(dets, taken, t, cadence_ms, from + 1);
    }
}

proof fn lemma_counts_bounded(ms: Seq<Match>)
    requires
        ms.len() <= u16::MAX,
    ensures
        detected_count(ms) <= ms.len(),
        physical_count(ms) <= ms.len(),
        forall|k: u8|
            #[trigger] kind_counts(ms).contains_key(k) ==> kind_counts(ms)[k].1 <= kind_counts(
                ms,
            )[k].0 <= ms.len(),
    decreases ms.len(),
{
    if ms.len() > 0 {
        let prev = ms.drop_last();
        lemma_counts_bounded(prev);
        let k0 = ms.last().0.kind;
        assert forall|k: u8| #[trigger] kind_counts(ms).contains_key(k) implies kind_counts(ms)[k].1
            <= kind_counts(ms)[k].0 <= ms.len() by {
            if k != k0 {
                assert(kind_counts(prev).contains_key(k));
            } else if kind_counts(prev).contains_key(k0) {
                assert(kind_counts(prev)[k0].0 <= prev.len());
            }
        }
    }
}

/// Which detections can account for which faults: a bit flip or a corrupted
/// byte shows as a CRC failure or a burst, a drop as a gap, a delay as a late
/// frame, a replay as a replay, a burst as a burst, and nothing accounts for
/// any other fault kind. Every scored match pairs its fault with such a
/// detection.
pub proof fn lemma_detection_kinds(dets: Seq<Detection>, truths: Seq<GroundTruth>, cadence_ms: u16)
    ensures
        forall|k: u8, dk: DetKind|
            #[trigger] expected_kinds(k).contains(dk) <==> {
                ||| (k == FAULT_BITFLIP || k == FAULT_BYTE) && (dk == DetKind::Crc || dk
                    == DetKind::Burst)
                ||| k == FAULT_DROP && dk == DetKind::Gap
                ||| k == FAULT_DELAY && dk == DetKind::Late
                ||| k == FAULT_REPLAY && dk == DetKind::Replay
                ||| k == FAULT_BURST && dk == DetKind::Burst
            },
        forall|i: int|
            #![trigger greedy(dets, truths, cadence_ms).0[i]]
            0 <= i < truths.len() ==> match greedy(dets, truths, cadence_ms).0[i].1 {
                Some((d, _)) => {
                    let k = truths[i].kind;
                    ||| (k == FAULT_BITFLIP || k == FAULT_BYTE) && (d.kind == DetKind::Crc
                        || d.kind == DetKind::Burst)
                    ||| k == FAULT_DROP && d.kind == DetKind::Gap
                    ||| k == FAULT_DELAY && d.kind == DetKind::Late
                    ||| k == FAULT_REPLAY && d.kind == DetKind::Replay
                    ||| k == FAULT_BURST && d.kind == DetKind::Burst
                },
                None => true,
            },
{
    assert forall|k: u8, dk: DetKind| #[trigger] expected_kinds(k).contains(dk) <==> {
        ||| (k == FAULT_BITFLIP || k == FAULT_BYTE) && (dk == DetKind::Crc || dk == DetKind::Burst)
        ||| k == FAULT_DROP && dk == DetKind::Gap
        ||| k == FAULT_DELAY && dk == DetKind::Late
        ||| k == FAULT_REPLAY && dk == DetKind::Replay
        ||| k == FAULT_BURST && dk == DetKind::Burst
    } by {
        let e = expected_kinds(k);
        if e.contains(dk) {
            let j = choose|j: int| 0 <= j < e.len() && e[j] == dk;
        }
        if (k == FAULT_BITFLIP || k == FAULT_BYTE) && dk == DetKind::Burst {
            assert(e[1] == dk);
        } else if (k == FAULT_BITFLIP || k == FAULT_BYTE) && dk == DetKind::Crc {
            assert(e[0] == dk);
        } else if e.len() > 0 {
            assert(e[0] == dk ==> e.contains(dk));
        }
    }
    lemma_matches_sound(dets, truths, cadence_ms);
}

/// Number of detections marked as taken.
pub open spec fn taken_count(taken: Seq<bool>) -> nat
    decreases taken.len(),
{
    if taken.len() == 0 {
        0
    } else {
        taken_count(taken.drop_last()) + if taken.last() {
            1nat
        } else {
            0nat
        }
    }
}

proof fn lemma_taken_count_bounds(taken: Seq<bool>)
    ensures
        taken_count(taken) <= taken.len(),
        (forall|i: int| 0 <= i < taken.len() ==> !#[trigger] taken[i]) ==> taken_count(taken) == 0,
    decreases taken.len(),
{
    if taken.len() > 0 {
        lemma_taken_count_bounds(taken.drop_last());
    }
}

proof fn lemma_taken_count_mark(taken: Seq<bool>, j: int)
    requires
        0 <= j < taken.len(),
        !taken[j],
    ensures
        taken_count(taken.update(j, true)) == taken_count(taken) + 1,
    decreases taken.len(),
{
    let u = taken.update(j, true);
    if j < taken.len() - 1 {
        lemma_taken_count_mark(taken.drop_last(), j);
        assert(u.drop_last() =~= taken.drop_last().update(j, true));
    } else {
        assert(u.drop_last() =~= taken.drop_last());
    }
}

/// No detection accounts for two faults: the scored matches use distinct
/// detections, exactly as many as there are detected faults.
pub proof fn lemma_each_detection_used_once(
    dets: Seq<Detection>,
    truths: Seq<GroundTruth>,
    cadence_ms: u16,
)
    ensures
        taken_count(greedy(dets, truths, cadence_ms).1) == detected_count(
            greedy(dets, truths, cadence_ms).0,
        ),
        detected_count(greedy(dets, truths, cadence_ms).0) <= dets.len(),
    decreases truths.len(),
{
    lemma_greedy_facts(dets, truths, cadence_ms);
    if truths.len() == 0 {
        lemma_taken_count_bounds(Seq::new(dets.len(), |i: int| false));
    } else {
        lemma_each_detection_used_once(dets, truths.drop_last(), cadence_ms);
        let (ms, taken) = greedy(dets, truths.drop_last(), cadence_ms);
        lemma_greedy_facts(dets, truths.drop_last(), cadence_ms);
        let t = truths.last();
        let r = greedy(dets, truths, cadence_ms);
        if expected_kinds(t.kind).len() != 0 {
            let j = first_free_plausible(dets, taken, t, cadence_ms, 0);
            lemma_first_free_plausible_bounds(dets, taken, t, cadence_ms, 0);
            if j < dets.len() {
                lemma_taken_count_mark(taken, j);
            }
        }
        assert(r.0.drop_last() =~= ms);
        lemma_taken_count_bounds(r.1);
    }
}

/// Every match is sound: the detection paired with a fault is one of the
/// detections, its kind is plausible for the fault, its sequence number is
/// within two, it is not too early, and the latency is the time between the
/// fault notice and the detection.
pub proof fn lemma_matches_sound(dets: Seq<Detection>, truths: Seq<GroundTruth>, cadence_ms: u16)
    ensures
        forall|k: int|
            #![trigger greedy(dets, truths, cadence_ms).0[k]]
            0 <= k < truths.len() ==> match greedy(dets, truths, cadence_ms).0[k].1 {
                Some((d, lat)) => {
                    &&& dets.contains(d)
                    &&& plausible(d, truths[k], cadence_ms)
                    &&& lat == latency_ms(truths[k], d)
                },
                None => true,
            },
    decreases truths.len(),
{
    lemma_greedy_facts(dets, truths, cadence_ms);
    if truths.len() > 0 {
        lemma_matches_sound(dets, truths.drop_last(), cadence_ms);
        let (ms, taken) = greedy(dets, truths.drop_last(), cadence_ms);
        lemma_greedy_facts(dets, truths.drop_last(), cadence_ms);
        let t = truths.last();
        let r = greedy(dets, truths, cadence_ms).0;
        assert forall|k: int| 0 <= k < truths.len() - 1 implies r[k] == ms[k] && truths[k]
            == truths.drop_last()[k] by {}
        if expected_kinds(t.kind).len() != 0 {
            let j = first_free_plausible(dets, taken, t, cadence_ms, 0);
            lemma_first_free_plausible_bounds(dets, taken, t, cadence_ms, 0);
            if j < dets.len() {
                assert(dets.contains(dets[j]));
                assert(latency_ms(t, dets[j]) >= 0);
                assert(latency_ms(t, dets[j]) <= max_latency_bound());
            }
        }
    }
}

/// Every injection is exactly one of detected, missed or physical: the
/// detected and physical counts never exceed the injections, so the reported
/// missed count is what remains.
pub proof fn lemma_score_partition(dets: Seq<Detection>, truths: Seq<GroundTruth>, cadence_ms: u16)
    ensures
        detected_count(greedy(dets, truths, cadence_ms).0) + physical_count(
            greedy(dets, truths, cadence_ms).0,
        ) <= truths.len(),
    decreases truths.len(),
{
    lemma_greedy_facts(dets, truths, cadence_ms);
    if truths.len() > 0 {
        lemma_score_partition(dets, truths.drop_last(), cadence_ms);
        let r = greedy(dets, truths, cadence_ms).0;
        let (ms, _) = greedy(dets, truths.drop_last(), cadence_ms);
        assert(r.drop_last() =~= ms);
        lemma_greedy_facts(dets, truths.drop_last(), cadence_ms);
    }
}

/// Greedy time-ordered match: every injection must be paired with a detection
/// whose kind is plausible for it and whose sequence/timing is close.
pub fn score(opts: Opts, detections: Vec<Detection>, truths: Vec<GroundTruth>) -> (res: CampaignResult)
    requires
        truths@.len() <= u16::MAX,
    ensures
        ({
            let ms = greedy(detections@, truths@, opts.cadence_ms).0;
            &&& res.seed == opts.seed
            &&& res.profile == opts.profile
            &&& res.packets == opts.packets
            &&& res.simulated == opts.simulated
            &&& res.injected == truths@.len()
            &&& res.detected == detected_count(ms)
            &&& res.physical == physical_count(ms)
            &&& res.missed == (if truths@.len() >= detected_count(ms) + physical_count(ms) {
                truths@.len() - detected_count(ms) - physical_count(ms)
            } else {
                0
            })
            &&& res.latency_total_ms == latency_sum(ms)
            &&& res.max_latency_ms == latency_max(ms)
            &&& res.rows@.len() == ms.len()
            &&& forall|i: int| 0 <= i < ms.len() ==> row_of(#[trigger] res.rows@[i], ms[i])
            &&& lists_counts(res.per_kind@, kind_counts(ms))
        }),
        res.detected + res.missed + res.physical == res.injected,
{
    proof {
        lemma_score_partition(detections@, truths@, opts.cadence_ms);
    }
    let cadence_ms = opts.cadence_ms;
    let ghost dets = detections@;
    let mut used: Vec<bool> = Vec::new();
    let mut k: usize = 0;
    while k < detections.len()
        invariant
            k <= dets.len(),
            dets == detections@,
            used@ == Seq::new(k as nat, |i: int| false),
        decreases dets.len() - k,
    {
        used.push(false);
        k = k + 1;
        assert(used@ =~= Seq::new(k as nat, |i: int| false));
    }
    let mut matches: Vec<Match> = Vec::new();

    let mut i: usize = 0;
    while i < truths.len()
        invariant
            i <= truths@.len(),
            dets == detections@,
            matches@ == greedy(dets, truths@.take(i as int), cadence_ms).0,
            used@ == greedy(dets, truths@.take(i as int), cadence_ms).1,
            used@.len() == dets.len(),
        decreases truths@.len() - i,
    {
        let t = truths[i];
        proof {
            assert(truths@.take(i + 1).drop_last() =~= truths@.take(i as int));
            assert(truths@.take(0) =~= Seq::<GroundTruth>::empty());
            lemma_greedy_facts(dets, truths@.take(i as int), cadence_ms);
        }
        let expected = expected_dets(t.kind);
        // Out-of-band (physical) faults are recorded but not scored.
        if expected.len() == 0 {
            matches.push((t, None));
        } else {
            // Scan for the first unmatched detection matching this fault.
            let ghost taken = used@;
            let mut best: Option<(Detection, u64)> = None;
            let mut j: usize = 0;
            while j < detections.len() && best.is_none()
                invariant
                    j <= dets.len(),
                    dets == detections@,
                    used@ == taken,
                    taken.len() == dets.len(),
                    expected@ == expected_kinds(t.kind),
                    best is None ==> first_free_plausible(dets, taken, t, cadence_ms, 0)
                        == first_free_plausible(dets, taken, t, cadence_ms, j as int),
                    best matches Some((d, lat)) ==> j < dets.len() && first_free_plausible(
                        dets,
                        taken,
                        t,
                        cadence_ms,
                        0,
                    ) == j && d == dets[j as int] && lat == latency_ms(t, d),
                decreases dets.len() - j + (if best is None { 1int } else { 0int }),
            {
                let d = detections[j];
                let seq_ok = dseq_diff(d.seq, t.at_seq) <= 2;
                let lat: u64 = if d.at_ns >= t.at_ns {
                    (d.at_ns - t.at_ns) / 1_000_000
                } else {
                    0
                };
                let time_ok = (lat as i64) > -(cadence_ms as i64 * 2);
                if !used[j] && contains_kind(&expected, d.kind) && seq_ok && time_ok {
                    best = Some((d, lat));
                } else {
                    j += 1;
                }
            }
            match best {
                Some((d, lat)) => {
                    used.set(j, true);
                    matches.push((t, Some((d, lat))));
                },
                None => matches.push((t, None)),
            }
        }
        i = i + 1;
    }
    assert(truths@.take(truths@.len() as int) =~= truths@);
    let ghost ms = matches@;
    proof {
        lemma_greedy_facts(dets, truths@, cadence_ms);
    }

    let mut rows: Vec<ReportRow> = Vec::new();
    let mut injected: u16 = 0;
    let mut detected: u16 = 0;
    let mut physical: u16 = 0;
    let mut lat_total: u64 = 0;
    let mut lat_max: u64 = 0;
    let mut counts: BTreeMap<u8, (u16, u16)> = BTreeMap::new();

    let mut i: usize = 0;
    while i < matches.len()
        invariant
            ms == matches@,
            ms.len() == truths@.len(),
            ms.len() <= u16::MAX,
            i <= ms.len(),
            forall|k: int| 0 <= k < ms.len() ==> match_latency(#[trigger] ms[k]) <= max_latency_bound(),
            forall|k: int|
                0 <= k < ms.len() ==> (#[trigger] ms[k]).1 is Some ==> expected_kinds(ms[k].0.kind).len() != 0,
            injected == i,
            detected == detected_count(ms.take(i as int)),
            physical == physical_count(ms.take(i as int)),
            lat_total == latency_sum(ms.take(i as int)),
            lat_total <= i * max_latency_bound(),
            lat_max == latency_max(ms.take(i as int)),
            rows@.len() == i,
            forall|k: int| 0 <= k < i ==> row_of(#[trigger] rows@[k], ms[k]),
            counts@ == kind_counts(ms.take(i as int)),
        decreases ms.len() - i,
    {
        let (t, m) = matches[i];
        proof {
            assert(ms.take(i + 1).drop_last() =~= ms.take(i as int));
            assert(ms.take(i + 1).last() == ms[i as int]);
            lemma_counts_bounded(ms.take(i as int));
        }
        injected += 1;
        let ok = m.is_some();
        let scored = expected_dets(t.kind).len() != 0;
        let (inj, det) = match tally_get(&counts, t.kind) {
            Some(e) => e,
            None => (0, 0),
        };
        tally_set(&mut counts, t.kind, (inj + 1, if ok { det + 1 } else { det }));
        if ok {
            detected += 1;
        }
        let (det_label, lat): (&'static str, u64) = match m {
            Some((d, lat)) => (d.kind.as_str(), lat),
            None => {
                if !scored {
                    ("physical", 0)
                } else {
                    ("__miss__", 0)
                }
            },
        };
        if !scored {
            physical += 1;
        }
        if scored && ok {
            proof {
                assert(lat <= max_latency_bound());
                assert(lat_total + lat <= (i + 1) * max_latency_bound()) by (nonlinear_arith)
                    requires
                        lat_total <= i * max_latency_bound(),
                        lat <= max_latency_bound(),
                ;
                assert((i + 1) * max_latency_bound() <= u16::MAX * max_latency_bound()) by (nonlinear_arith)
                    requires
                        i + 1 <= u16::MAX,
                ;
            }
            lat_total += lat;
            if lat > lat_max {
                lat_max = lat;
            }
        } else {
            proof {
                assert(lat_total <= (i + 1) * max_latency_bound()) by (nonlinear_arith)
                    requires
                        lat_total <= i * max_latency_bound(),
                ;
            }
        }
        rows.push((t.fault_id, t.kind, t.at_seq, ok, det_label, lat));
        proof {
            reveal_strlit("physical");
            reveal_strlit("__miss__");
            assert(counts@ =~= kind_counts(ms.take(i + 1)));
        }
        i = i + 1;
    }
    assert(ms.take(ms.len() as int) =~= ms);

    let mut per_kind: Vec<KindStat> = Vec::new();
    let mut k: u16 = 0;
    while k < 256
        invariant
            k <= 256,
            counts@ == kind_counts(ms),
            forall|a: int, b: int| 0 <= a < b < per_kind@.len() ==> per_kind@[a].kind < per_kind@[b].kind,
            forall|a: int| 0 <= a < per_kind@.len() ==> per_kind@[a].kind < k,
            forall|a: int|
                0 <= a < per_kind@.len() ==> counts@.contains_key(#[trigger] per_kind@[a].kind)
                    && counts@[per_kind@[a].kind] == (per_kind@[a].injected, per_kind@[a].detected),
            forall|x: u8|
                x < k && counts@.contains_key(x) ==> exists|a: int|
                    0 <= a < per_kind@.len() && #[trigger] per_kind@[a].kind == x,
        decreases 256 - k,
    {
        let kind = k as u8;
        match tally_get(&counts, kind) {
            Some(e) => {
                let ghost before = per_kind@;
                per_kind.push(KindStat { kind, injected: e.0, detected: e.1 });
                assert forall|x: u8| x < k + 1 && counts@.contains_key(x) implies exists|a: int|
                    0 <= a < per_kind@.len() && #[trigger] per_kind@[a].kind == x by {
                    if x < k {
                        let a = choose|a: int| 0 <= a < before.len() && #[trigger] before[a].kind == x;
                        assert(per_kind@[a].kind == x);
                    } else {
                        assert(per_kind@[before.len() as int].kind == x);
                    }
                }
            },
            None => {},
        }
        k = k + 1;
    }

    CampaignResult {
        seed: opts.seed,
        profile: opts.profile,
        packets: opts.packets,
        simulated: opts.simulated,
        injected,
        detected,
        missed: injected.saturating_sub(detected).saturating_sub(physical),
        physical,
        latency_total_ms: lat_total,
        max_latency_ms: lat_max,
        per_kind,
        rows,
    }
}

} // verus!
