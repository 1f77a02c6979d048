//! Per-axis stepper state: an integer step counter guarded by a
//! minimum-interval rate limiter, and the cyclic coil-phase counter that the
//! hardware layer translates into pin energization.  The actual pin driving
//! is hardware I/O and lives outside the library; the library computes which
//! coil must be on and which is next.

use vstd::prelude::*;

verus! {

/// Microstep divisor: 1 = whole steps.
pub const STEP_DIVISION: usize = 1;

/// Number of coil phases in the cyclic step sequence.
pub const PHASE_COUNT: usize = 4;

/// What the predictor asks of one motor on one tick.
#[derive(Clone, Copy, Debug, PartialEq, Eq, Structural)]
pub enum StepInstruction {
    StepLonger,
    StepShorter,
    Hold,
}

/// Which cable a motor pulls.  "Longer" maps to opposite rotation senses on
/// the two sides so that it means the same thing for both cables.
#[derive(Clone, Copy, Debug, PartialEq, Eq, Structural)]
pub enum Side {
    Left,
    Right,
}

/// The step-counter change an instruction asks for.
pub open spec fn step_delta_sp(instruction: StepInstruction) -> int {
    match instruction {
        StepInstruction::StepLonger => 1,
        StepInstruction::StepShorter => -1,
        StepInstruction::Hold => 0,
    }
}

/// The coil-phase index after one accepted step: clockwise for a left
/// motor lengthening or a right motor shortening, counter-clockwise the
/// other way round, so that "lengthen" means the same thing on both
/// cables.
pub open spec fn phase_after_sp(side: Side, instruction: StepInstruction, current: int) -> int {
    if (side is Left) == (instruction is StepLonger) {
        (current + 1) % ((PHASE_COUNT * STEP_DIVISION) as int)
    } else {
        if current == 0 {
            (PHASE_COUNT * STEP_DIVISION - 1) as int
        } else {
            current - 1
        }
    }
}

/// One stepper motor's logical state.
pub struct Motor {
    /// Coil phase index, always in `[0, PHASE_COUNT * STEP_DIVISION)`.
    pub current: usize,
    /// Net step count relative to where the motor started.
    pub position: i64,
    pub side: Side,
    /// Index of the coil currently fully energized.
    pub current_on: usize,
    /// Index of the coil that is energized next in the cycle.
    pub current_pwm: usize,
    /// Shortest allowed interval between two physical steps, nanoseconds.
    pub min_ns_per_step: i64,
    /// Wall-clock instant of the last accepted physical step, nanoseconds.
    pub time_last_step: i64,
}

impl Motor {
    /// Phase and pin bookkeeping stays inside the cyclic sequence.
    pub open spec fn wf(self) -> bool {
        &&& self.current < PHASE_COUNT * STEP_DIVISION
        &&& self.current_on == self.current
        &&& self.current_pwm == (self.current + 1) % (PHASE_COUNT * STEP_DIVISION)
        &&& self.min_ns_per_step >= 0
    }

    pub fn new(side: Side, min_ns_per_step: i64, now_ns: i64) -> (r: Motor)
        requires
            min_ns_per_step >= 0,
        ensures
            r.wf(),
            r.side == side,
            r.position == 0,
            r.current == 0,
            r.min_ns_per_step == min_ns_per_step,
            r.time_last_step == now_ns,
    {
        Motor {
            current: 0,
            position: 0,
            side,
            current_on: 0,
            current_pwm: 1,
            min_ns_per_step,
            time_last_step: now_ns,
        }
    }

    /// Advance the coil phase by one position clockwise.
    fn step_clock_wise(&mut self)
        requires
            old(self).wf(),
        ensures
            final(self).wf(),
            final(self).current == (old(self).current + 1) % (PHASE_COUNT * STEP_DIVISION),
            final(self).position == old(self).position,
            final(self).side == old(self).side,
            final(self).min_ns_per_step == old(self).min_ns_per_step,
            final(self).time_last_step == old(self).time_last_step,
    {
        self.current = (self.current + 1) % (PHASE_COUNT * STEP_DIVISION);
        self.update_pins();
    }

    /// Advance the coil phase by one position counter-clockwise.
    fn step_counter_clock_wise(&mut self)
        requires
            old(self).wf(),
        ensures
            final(self).wf(),
            final(self).current == if old(self).current == 0 {
                (PHASE_COUNT * STEP_DIVISION - 1) as usize
            } else {
                (old(self).current - 1) as usize
            },
            final(self).position == old(self).position,
            final(self).side == old(self).side,
            final(self).min_ns_per_step == old(self).min_ns_per_step,
            final(self).time_last_step == old(self).time_last_step,
    {
        self.current = if self.current == 0 {
            PHASE_COUNT * STEP_DIVISION - 1
        } else {
            self.current - 1
        };
        self.update_pins();
    }

    /// Recompute which coil is on and which is next from the phase index.
    fn update_pins(&mut self)
        requires
            old(self).current < PHASE_COUNT * STEP_DIVISION,
        ensures
            final(self).wf() == (old(self).min_ns_per_step >= 0),
            final(self).current == old(self).current,
            final(self).current_on == old(self).current,
            final(self).current_pwm == (old(self).current + 1) % (PHASE_COUNT * STEP_DIVISION),
            final(self).position == old(self).position,
            final(self).side == old(self).side,
            final(self).min_ns_per_step == old(self).min_ns_per_step,
            final(self).time_last_step == old(self).time_last_step,
    {
        self.current_on = self.current;
        self.current_pwm = (self.current + 1) % (PHASE_COUNT * STEP_DIVISION);
    }

    /// One step towards a shorter cable.  The net step counter saturates
    /// at the integer limit.
    fn step_shorter(&mut self)
        requires
            old(self).wf(),
        ensures
            final(self).wf(),
            final(self).current == phase_after_sp(old(self).side, StepInstruction::StepShorter,
                old(self).current as int),
            final(self).position == (if old(self).position > i64::MIN {
                old(self).position - 1
            } else {
                old(self).position as int
            }),
            final(self).side == old(self).side,
            final(self).min_ns_per_step == old(self).min_ns_per_step,
            final(self).time_last_step == old(self).time_last_step,
    {
        match self.side {
            Side::Left => self.step_counter_clock_wise(),
            Side::Right => self.step_clock_wise(),
        }
        if self.position > i64::MIN {
            self.position = self.position - 1;
        }
    }

    /// One step towards a longer cable.  The net step counter saturates at
    /// the integer limit.
    fn step_longer(&mut self)
        requires
            old(self).wf(),
        ensures
            final(self).wf(),
            final(self).current == phase_after_sp(old(self).side, StepInstruction::StepLonger,
                old(self).current as int),
            final(self).position == (if old(self).position < i64::MAX {
                old(self).position + 1
            } else {
                old(self).position as int
            }),
            final(self).side == old(self).side,
            final(self).min_ns_per_step == old(self).min_ns_per_step,
            final(self).time_last_step == old(self).time_last_step,
    {
        match self.side {
            Side::Left => self.step_clock_wise(),
            Side::Right => self.step_counter_clock_wise(),
        }
        if self.position < i64::MAX {
            self.position = self.position + 1;
        }
    }

    /// Execute one step instruction at wall-clock time `now_ns`.
    ///
    /// `Hold` always succeeds and changes nothing.  A real step succeeds
    /// only if at least `min_ns_per_step` has elapsed since the last
    /// accepted step; otherwise the motor is rate-limited and reports `Err`
    /// without any state change.  At most one step is taken per call.
    pub fn step(&mut self, instruction: &StepInstruction, now_ns: i64) -> (r: Result<(), ()>)
        requires
            old(self).wf(),
            -0x4000_0000_0000_0000 < now_ns - old(self).time_last_step < 0x4000_0000_0000_0000,
        ensures
            final(self).wf(),
            final(self).side == old(self).side,
            final(self).min_ns_per_step == old(self).min_ns_per_step,
            *instruction is Hold ==> r is Ok && *final(self) == *old(self),
            !(*instruction is Hold) && now_ns - old(self).time_last_step < old(self).min_ns_per_step
                ==> r is Err && *final(self) == *old(self),
            !(*instruction is Hold) && now_ns - old(self).time_last_step >= old(self).min_ns_per_step
                ==> r is Ok
                    && final(self).time_last_step == now_ns
                    && final(self).current == phase_after_sp(old(self).side, *instruction,
                        old(self).current as int),
            !(*instruction is Hold) && now_ns - old(self).time_last_step >= old(self).min_ns_per_step
                && i64::MIN < old(self).position < i64::MAX
                ==> final(self).position == old(self).position
                    + (if *instruction is StepLonger { 1int } else { -1int }),
            r is Ok ==> old(self).position - 1 <= final(self).position
                <= old(self).position + 1,
            final(self).time_last_step == old(self).time_last_step
                || final(self).time_last_step == now_ns,
    {
        match instruction {
            StepInstruction::StepLonger | StepInstruction::StepShorter => {
                if now_ns - self.time_last_step < self.min_ns_per_step {
                    return Err(());
                }
                self.time_last_step = now_ns;
            }
            StepInstruction::Hold => {
                return Ok(());
            }
        }
        match instruction {
            StepInstruction::StepLonger => {
                self.step_longer();
            }
            StepInstruction::StepShorter => {
                self.step_shorter();
            }
            StepInstruction::Hold => {}
        }
        Ok(())
    }
}

} // verus!
