//! The step predictor: each control tick it compares the trajectory's ideal
//! fine step counts against the motors' whole step counters and decides, per
//! motor, to lengthen, shorten, or hold.  The strict one-whole-step
//! dead-band (fine remainder beyond +/- 10^6) prevents oscillation around
//! integer step boundaries, and one tick never asks a motor for more than
//! one step.

use vstd::prelude::*;

use crate::motor::StepInstruction;
use crate::position::{Position, PositionStepFine};

verus! {

/// One fine step unit equals a millionth of a whole step; the dead-band is
/// one whole step on either side.
pub const FINE_PER_STEP: i64 = 1_000_000;

/// What the predictor asks of a tick: wait (for the given number of
/// nanoseconds) or move the motors as instructed, left motor first.
pub enum Prediction {
    Wait(u64),
    MoveMotors([StepInstruction; 2]),
}

/// The fine-step remainder of one motor: how far the ideal cable length
/// runs ahead of the commanded whole steps.
pub open spec fn remainder_sp(desired_fine: int, current_step: int) -> int {
    desired_fine - current_step * (FINE_PER_STEP as int)
}

/// The instruction the dead-band rule assigns to a remainder.
pub open spec fn instruction_sp(rem: int) -> StepInstruction {
    if rem > FINE_PER_STEP as int {
        StepInstruction::StepLonger
    } else if rem < -(FINE_PER_STEP as int) {
        StepInstruction::StepShorter
    } else {
        StepInstruction::Hold
    }
}

/// The dead-band rule never asks for more than one step: every instruction
/// it can produce changes a step counter by at most one.
pub proof fn lemma_predictor_single_step(rem: int)
    ensures
        -1 <= (match instruction_sp(rem) {
            StepInstruction::StepLonger => 1int,
            StepInstruction::StepShorter => -1int,
            StepInstruction::Hold => 0int,
        }) <= 1,
{
}

pub struct Predictor {
    /// Wall-clock instant of the last prediction, nanoseconds.
    pub last_instant: i64,
    /// Fine-step remainders of the last prediction, left motor first.
    pub last_remainder: [i64; 2],
}

impl Predictor {
    pub fn new(now_ns: i64) -> (r: Self)
        ensures
            r.last_instant == now_ns,
            r.last_remainder[0] == 0,
            r.last_remainder[1] == 0,
    {
        Predictor { last_instant: now_ns, last_remainder: [0, 0] }
    }

    /// One tick of the dead-band rule.
    ///
    /// Computes each motor's fine remainder; if either exceeds one whole
    /// step in magnitude the result instructs both motors (each per its own
    /// remainder, inside the dead-band meaning `Hold`), otherwise it asks
    /// the caller to wait.  The wait hint is zero: the surrounding loop
    /// polls again immediately.
    pub fn predict(
        &mut self,
        current_position: &Position,
        desired: &PositionStepFine,
        now_ns: i64,
    ) -> (r: Prediction)
        requires
            0 <= desired.rr[0] <= 3_000_000_000_000_000,
            0 <= desired.rr[1] <= 3_000_000_000_000_000,
            current_position.step.rr[0] <= crate::physical::STEP_MAX,
            current_position.step.rr[1] <= crate::physical::STEP_MAX,
        ensures
            ({
                let r0 = remainder_sp(desired.rr[0] as int, current_position.step.rr[0] as int);
                let r1 = remainder_sp(desired.rr[1] as int, current_position.step.rr[1] as int);
                &&& final(self).last_instant == now_ns
                &&& final(self).last_remainder[0] == r0
                &&& final(self).last_remainder[1] == r1
                &&& if -(FINE_PER_STEP as int) <= r0 <= FINE_PER_STEP as int
                        && -(FINE_PER_STEP as int) <= r1 <= FINE_PER_STEP as int {
                    r matches Prediction::Wait(w) && w == 0
                } else {
                    r matches Prediction::MoveMotors(insts)
                        && insts[0] == instruction_sp(r0)
                        && insts[1] == instruction_sp(r1)
                }
            }),
    {
        let cur = current_position.iter_step();
        let r0: i64 = desired.rr[0] - (cur[0] as i64) * FINE_PER_STEP;
        let r1: i64 = desired.rr[1] - (cur[1] as i64) * FINE_PER_STEP;
        let mut move_now: bool = false;
        let i0: StepInstruction = if r0 > FINE_PER_STEP {
            move_now = true;
            StepInstruction::StepLonger
        } else if r0 < -FINE_PER_STEP {
            move_now = true;
            StepInstruction::StepShorter
        } else {
            StepInstruction::Hold
        };
        let i1: StepInstruction = if r1 > FINE_PER_STEP {
            move_now = true;
            StepInstruction::StepLonger
        } else if r1 < -FINE_PER_STEP {
            move_now = true;
            StepInstruction::StepShorter
        } else {
            StepInstruction::Hold
        };
        self.last_instant = now_ns;
        self.last_remainder = [r0, r1];
        if move_now {
            return Prediction::MoveMotors([i0, i1]);
        }
        Prediction::Wait(0)
    }
}

} // verus!
