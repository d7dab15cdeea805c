//! The host side of one campaign: each frame from the injector either feeds
//! the detector, adds to the ground truth, or ends the campaign. The caller
//! receives the frames and reads the clock; this decides what each frame does.

use vstd::prelude::*;
use crate::dut::{dut_step, DuFrame, Dut, DutState, GroundTruth};
use crate::protocol::{le16, le32, FAULT_PAYLOAD_LEN, K_END, K_FAULT, MAX_PAYLOAD};

verus! {

/// The ground truth a FAULT frame carries, if its payload is long enough.
pub open spec fn notice_of(f: DuFrame, frame_idx: u64, now: u64) -> Option<GroundTruth> {
    if f.len < FAULT_PAYLOAD_LEN {
        None
    } else {
        Some(
            GroundTruth {
                fault_id: le32(f.payload@[0], f.payload@[1], f.payload@[2], f.payload@[3]) as u32,
                kind: f.payload@[4],
                at_seq: le16(f.payload@[5], f.payload@[6]) as u16,
                frame_idx,
                at_ns: now,
            },
        )
    }
}

/// A campaign in progress: the detector and the faults the injector reported.
pub struct Session {
    pub dut: Dut,
    pub truths: Vec<GroundTruth>,
}

impl Session {
    pub fn new(cadence_ms: u16) -> (s: Self)
        ensures
            s.dut@ == (DutState {
                cadence_ms,
                last_seq: None,
                last_time_ns: None,
                junk_run: 0,
                burst_flagged: false,
                frame_idx: 0,
                detections: Seq::empty(),
            }),
            s.truths@ == Seq::<GroundTruth>::empty(),
    {
        Session { dut: Dut::new(cadence_ms), truths: Vec::new() }
    }

    /// Handle one frame that arrived at `now`; true when it ended the campaign.
    /// A FAULT frame adds its notice to the ground truth, an END frame ends
    /// the campaign, and every other frame goes to the detector.
    pub fn on_frame(&mut self, f: &DuFrame, now: u64) -> (done: bool)
        requires
            f.kind == K_FAULT ==> f.len <= MAX_PAYLOAD,
            f.kind != K_END && f.kind != K_FAULT ==> old(self).dut@.frame_idx < u64::MAX
                && (f.garbage ==> old(self).dut@.junk_run < u32::MAX),
        ensures
            done == (f.kind == K_END),
            f.kind == K_END ==> *final(self) == *old(self),
            f.kind == K_FAULT ==> final(self).dut == old(self).dut && final(self).truths@ == match notice_of(
                *f,
                old(self).dut@.frame_idx,
                now,
            ) {
                Some(g) => old(self).truths@.push(g),
                None => old(self).truths@,
            },
            f.kind != K_END && f.kind != K_FAULT ==> final(self).dut@ == dut_step(
                old(self).dut@,
                *f,
                now,
            ) && final(self).truths@ == old(self).truths@,
    {
        if f.kind == K_END {
            return true;
        }
        if f.kind == K_FAULT {
            let p = vstd::slice::slice_subrange(f.payload.as_slice(), 0, f.len);
            if let Some(g) = GroundTruth::from_payload(p, self.dut.frame_idx(), now) {
                self.truths.push(g);
            }
            return false;
        }
        self.dut.process_at(f, now);
        false
    }
}

} // verus!
