//! The machine's fixed geometry and its kinematics.  Two cable anchors on a
//! horizontal line, a spool/gear train that fixes the steps-per-millimetre
//! ratio, a velocity ceiling, and the reachable paper rectangle.
//!
//! Inverse kinematics: cable length is the Euclidean distance from the
//! anchor, converted to step units.  Forward kinematics: intersect the two
//! cable circles and take the solution below the anchor line.

use vstd::prelude::*;

use crate::gcode::AxisLimit;
use crate::num::{div_round, div_round_i128, isqrt_u128};
use crate::position::{sqrt_floor, lemma_sqrt_floor_is, dist_nm_sp, PositionMM, PositionStep,
    PositionStepFine, COORD_MAX};

verus! {

/// Steps per millimetre scaled by 10^6: 100 whole steps per revolution
/// through a (59/17)^2 gear reduction onto a 5.75 mm radius spool.
pub const SPM_MICRO: i64 = 33_339_453;

/// Maximum carriage velocity in nanometres per second, from the motors'
/// 100 rpm ceiling: 100/60 rev/s * 100 steps/rev / steps-per-mm.
pub const MAX_VELOCITY_NM_S: i64 = 4_999_082;

/// Largest whole-step count the kinematics accept.
pub const STEP_MAX: usize = 100_000_000;

pub struct Physical {
    /// The two cable anchor points, left then right, micrometres.
    pub motor_pos: [PositionMM; 2],
    /// Allowed pen x range, micrometres.
    pub x_limits: [i64; 2],
    /// Allowed pen y range before the offset, micrometres.
    pub y_limits: [i64; 2],
    /// Offset applied to the y range, micrometres.
    pub y_offset: i64,
    /// Steps per millimetre scaled by 10^6.
    pub spm_micro: i64,
    /// Velocity ceiling, nanometres per second.
    pub max_velocity: i64,
}

impl Physical {
    /// Geometry sanity: anchors on one horizontal line, left of right, and
    /// all scales inside the ranges the fixed-point arithmetic is sized for.
    pub open spec fn wf(self) -> bool {
        &&& self.motor_pos[0].bounded()
        &&& self.motor_pos[1].bounded()
        &&& self.motor_pos[0].xy[1] == self.motor_pos[1].xy[1]
        &&& self.motor_pos[0].xy[0] < self.motor_pos[1].xy[0]
        &&& 1_000_000 <= self.spm_micro <= 1_000_000_000
        &&& 0 < self.max_velocity <= 10_000_000_000
        &&& -COORD_MAX <= self.x_limits[0] <= COORD_MAX
        &&& -COORD_MAX <= self.x_limits[1] <= COORD_MAX
        &&& -COORD_MAX <= self.y_limits[0] <= COORD_MAX
        &&& -COORD_MAX <= self.y_limits[1] <= COORD_MAX
        &&& -COORD_MAX <= self.y_offset <= COORD_MAX
    }

    /// The default machine.
    pub fn new() -> (r: Physical)
        ensures
            r.wf(),
            r.motor_pos[0].xy[0] == 0 && r.motor_pos[0].xy[1] == 368_800,
            r.motor_pos[1].xy[0] == 297_000 && r.motor_pos[1].xy[1] == 368_800,
            r.x_limits[0] == 45_000 && r.x_limits[1] == 260_000,
            r.y_limits[0] == 50_000 && r.y_limits[1] == 328_000,
            r.y_offset == -15_000,
            r.spm_micro == SPM_MICRO,
            r.max_velocity == MAX_VELOCITY_NM_S,
    {
        Physical {
            motor_pos: [PositionMM::new([0, 368_800]), PositionMM::new([297_000, 368_800])],
            x_limits: [45_000, 260_000],
            y_limits: [50_000, 328_000],
            y_offset: -15_000,
            spm_micro: SPM_MICRO,
            max_velocity: MAX_VELOCITY_NM_S,
        }
    }

    /// Is the pen position inside the paper rectangle, with the y range
    /// shifted by the configured offset?
    pub fn in_bounds(&self, position: &PositionMM) -> (r: bool)
        requires
            self.wf(),
        ensures
            r == (self.x_limits[0] <= position.xy[0] <= self.x_limits[1]
                && self.y_limits[0] + self.y_offset <= position.xy[1]
                    <= self.y_limits[1] + self.y_offset),
    {
        let y_limits: [i64; 2] = [self.y_limits[0] + self.y_offset, self.y_limits[1] + self.y_offset];
        position.in_bounds(&self.x_limits, &y_limits)
    }

    /// A micrometre distance expressed in fine steps (whole steps * 10^6).
    pub open spec fn mm_to_step_sp(self, dist_um: int) -> int {
        div_round(dist_um * self.spm_micro, 1000)
    }

    /// Convert a micrometre distance to fine steps.
    pub fn mm_to_step(&self, dist: &i64) -> (r: i64)
        requires
            self.wf(),
            -2 * COORD_MAX <= *dist <= 2 * COORD_MAX,
        ensures
            r == self.mm_to_step_sp(*dist as int),
    {
        proof {
            assert(-2_000_000_000_000_000_000 <= *dist as int * self.spm_micro as int
                <= 2_000_000_000_000_000_000) by (nonlinear_arith)
                requires -2_000_000_000 <= *dist <= 2_000_000_000,
                    0 <= self.spm_micro <= 1_000_000_000;
            crate::num::lemma_div_round_range(*dist as int * self.spm_micro as int, 1000,
                -2_000_000_000_000_000_000, 2_000_000_000_000_000_000);
        }
        let q: i128 = div_round_i128(*dist as i128 * self.spm_micro as i128, 1000);
        q as i64
    }

    /// A nanometre distance expressed in fine steps.
    pub open spec fn nm_to_fine_sp(self, nm: int) -> int {
        div_round(nm * self.spm_micro, 1_000_000)
    }

    /// Convert a nanometre distance to fine steps.
    pub fn nm_to_fine(&self, nm: i64) -> (r: i64)
        requires
            self.wf(),
            0 <= nm <= 3_000_000_000_000,
        ensures
            r == self.nm_to_fine_sp(nm as int),
            0 <= r <= 3_000_000_000_000_000,
    {
        proof {
            assert(0 <= nm as int * self.spm_micro as int <= 3_000_000_000_000_000_000_000)
                by (nonlinear_arith)
                requires 0 <= nm <= 3_000_000_000_000, 0 <= self.spm_micro <= 1_000_000_000;
            crate::num::lemma_div_round_range(nm as int * self.spm_micro as int, 1_000_000,
                0, 3_000_000_000_000_000_000_000);
        }
        let q: i128 = div_round_i128(nm as i128 * self.spm_micro as i128, 1_000_000);
        q as i64
    }

    /// Ideal fine step count of motor `i` for a pen position: the distance
    /// to its anchor, in fine steps.
    pub open spec fn motor_fine_sp(self, mm: PositionMM, i: int) -> int {
        self.nm_to_fine_sp(dist_nm_sp(self.motor_pos[i], mm))
    }

    /// Compute the ideal fine step counts of a pen position.
    pub fn get_motor_dist_fine(&self, mm: &PositionMM) -> (r: PositionStepFine)
        requires
            self.wf(),
            mm.bounded(),
        ensures
            r.rr[0] == self.motor_fine_sp(*mm, 0),
            r.rr[1] == self.motor_fine_sp(*mm, 1),
            0 <= r.rr[0] <= 3_000_000_000_000_000,
            0 <= r.rr[1] <= 3_000_000_000_000_000,
    {
        let d0: i64 = self.motor_pos[0].dist(mm);
        let d1: i64 = self.motor_pos[1].dist(mm);
        let f0: i64 = self.nm_to_fine(d0);
        let f1: i64 = self.nm_to_fine(d1);
        PositionStepFine::new([f0, f1])
    }

    /// Whole-step image of motor `i` for a pen position: the fine step
    /// count rounded to whole steps.
    pub open spec fn motor_step_sp(self, mm: PositionMM, i: int) -> int {
        div_round(self.motor_fine_sp(mm, i), 1_000_000)
    }

    /// Compute the nearest whole step pair of a pen position.
    pub fn get_motor_dist(&self, mm: &PositionMM) -> (r: PositionStep)
        requires
            self.wf(),
            mm.bounded(),
        ensures
            r.rr[0] == self.motor_step_sp(*mm, 0),
            r.rr[1] == self.motor_step_sp(*mm, 1),
    {
        let fine = self.get_motor_dist_fine(mm);
        PositionStep::from_position_step_fine(&fine)
    }

    pub fn get_motor_position(&self, index: usize) -> (r: PositionMM)
        requires
            index < 2,
        ensures
            r == self.motor_pos[index as int],
    {
        self.motor_pos[index]
    }

    pub fn get_max_velocity(&self) -> (r: i64)
        ensures
            r == self.max_velocity,
    {
        self.max_velocity
    }

    /// Shift a paper y interval by the machine's configured y offset.
    pub fn adjust_paper_y_limit(&self, limit: &mut AxisLimit)
        requires
            self.wf(),
            old(limit).bounded(),
            -COORD_MAX <= old(limit).val[0] + self.y_offset <= COORD_MAX,
            -COORD_MAX <= old(limit).val[1] + self.y_offset <= COORD_MAX,
        ensures
            final(limit).val[0] == old(limit).val[0] + self.y_offset,
            final(limit).val[1] == old(limit).val[1] + self.y_offset,
    {
        limit.offset(&self.y_offset);
    }

    /// Length of `step` whole steps in micrometres.
    pub open spec fn step_to_mm_sp(self, step: int) -> int {
        div_round(step * 1_000_000_000, self.spm_micro as int)
    }

    /// Convert a whole-step cable length to micrometres.
    pub fn step_to_mm(&self, step: &usize) -> (r: i64)
        requires
            self.wf(),
            *step <= STEP_MAX,
        ensures
            r == self.step_to_mm_sp(*step as int),
            0 <= r <= 110_000_000_000,
    {
        proof {
            lemma_step_um_bound(*step as int, self.spm_micro as int);
        }
        let q: i128 = div_round_i128(*step as i128 * 1_000_000_000, self.spm_micro as i128);
        q as i64
    }

    /// The x coordinate that the forward kinematics assign to a pair of
    /// cable lengths `r0`, `r1` (micrometres).
    pub open spec fn forward_x_sp(self, r0: int, r1: int) -> int {
        div_round(r0 * r0 - r1 * r1, 2 * (self.motor_pos[1].xy[0] - self.motor_pos[0].xy[0]))
            + div_round(self.motor_pos[0].xy[0] + self.motor_pos[1].xy[0], 2)
    }

    /// The radicand selecting the solution below the anchor line.
    pub open spec fn forward_rad_sp(self, r0: int, x: int) -> int {
        r0 * r0 - (x - self.motor_pos[0].xy[0]) * (x - self.motor_pos[0].xy[0])
    }

    /// The x coordinate of a step pair under the forward kinematics.
    pub open spec fn forward_x_of_step_sp(self, step: PositionStep) -> int {
        self.forward_x_sp(self.step_to_mm_sp(step.rr[0] as int),
            self.step_to_mm_sp(step.rr[1] as int))
    }

    /// The y coordinate of a step pair under the forward kinematics.
    pub open spec fn forward_y_of_step_sp(self, step: PositionStep) -> int {
        self.motor_pos[0].xy[1] - sqrt_floor(self.forward_rad_sp(
            self.step_to_mm_sp(step.rr[0] as int), self.forward_x_of_step_sp(step)))
    }

    /// Does a step pair have a forward-kinematics solution inside the
    /// representable coordinate range?
    pub open spec fn forward_reachable_sp(self, step: PositionStep) -> bool {
        let x = self.forward_x_of_step_sp(step);
        let rad = self.forward_rad_sp(self.step_to_mm_sp(step.rr[0] as int), x);
        &&& -COORD_MAX <= x <= COORD_MAX
        &&& rad >= 0
        &&& -COORD_MAX <= self.forward_y_of_step_sp(step) <= COORD_MAX
    }

    /// Solve the forward kinematics: from whole step counts to the pen
    /// position below the anchor line.  `Err` exactly when no representable
    /// solution exists.
    pub fn forward_kinematics(&self, step: &PositionStep) -> (r: Result<PositionMM, &'static str>)
        requires
            self.wf(),
            step.rr[0] <= STEP_MAX,
            step.rr[1] <= STEP_MAX,
        ensures
            r is Ok <==> self.forward_reachable_sp(*step),
            r is Ok ==> r->Ok_0.xy[0] == self.forward_x_of_step_sp(*step)
                && r->Ok_0.xy[1] == self.forward_y_of_step_sp(*step),
            r is Err ==> r->Err_0 == "unreachable step pair",
    {
        let r0: i64 = self.step_to_mm(&step.rr[0]);
        let r1: i64 = self.step_to_mm(&step.rr[1]);
        proof {
            assert(0 <= r0 as int * r0 as int <= 0x1000_0000_0000_0000_0000_0000
                && 0 <= r1 as int * r1 as int <= 0x1000_0000_0000_0000_0000_0000)
                by (nonlinear_arith)
                requires 0 <= r0 <= 110_000_000_000, 0 <= r1 <= 110_000_000_000;
            crate::num::lemma_div_round_range(
                r0 as int * r0 as int - r1 as int * r1 as int,
                2 * (self.motor_pos[1].xy[0] - self.motor_pos[0].xy[0]),
                -0x1000_0000_0000_0000_0000_0000, 0x1000_0000_0000_0000_0000_0000);
        }
        let sq_diff: i128 = r0 as i128 * r0 as i128 - r1 as i128 * r1 as i128;
        let dx2: i128 = 2 * (self.motor_pos[1].xy[0] as i128 - self.motor_pos[0].xy[0] as i128);
        let x_q: i128 = div_round_i128(sq_diff, dx2)
            + div_round_i128(self.motor_pos[0].xy[0] as i128 + self.motor_pos[1].xy[0] as i128, 2);
        if x_q < -(COORD_MAX as i128) || x_q > COORD_MAX as i128 {
            return Err("unreachable step pair");
        }
        let x: i64 = x_q as i64;
        let dxa: i128 = x as i128 - self.motor_pos[0].xy[0] as i128;
        proof {
            assert(0 <= dxa * dxa <= 0x1000_0000_0000_0000_0000) by (nonlinear_arith)
                requires -4_000_000_000 <= dxa <= 4_000_000_000;
        }
        let rad: i128 = r0 as i128 * r0 as i128 - dxa * dxa;
        if rad < 0 {
            return Err("unreachable step pair");
        }
        let s: u128 = isqrt_u128(rad as u128);
        proof {
            lemma_sqrt_floor_is(rad as int, s as int);
        }
        let y_q: i128 = self.motor_pos[0].xy[1] as i128 - s as i128;
        if y_q < -(COORD_MAX as i128) || y_q > COORD_MAX as i128 {
            return Err("unreachable step pair");
        }
        Ok(PositionMM::new([x, y_q as i64]))
    }
}

/// The kinematic round trip of one cable: converting a cable length to its
/// nearest whole step count and back lands within half a step (in the
/// cross-multiplied form, 500 steps-per-millimetre units per nanometre)
/// plus about a micrometre of fixed-point rounding.
pub proof fn lemma_cable_length_round_trip(phys: Physical, d_nm: int)
    requires
        phys.wf(),
        0 <= d_nm <= 3_000_000_000_000,
    ensures
        ({
            let spm = phys.spm_micro as int;
            let step = div_round(phys.nm_to_fine_sp(d_nm), 1_000_000);
            let back_um = phys.step_to_mm_sp(step);
            -(500 * spm + 501_000_000_000) <= (back_um * 1000 - d_nm) * spm
                <= 500 * spm + 501_000_000_000
        }),
{
    let spm = phys.spm_micro as int;
    let fine = phys.nm_to_fine_sp(d_nm);
    let step = div_round(fine, 1_000_000);
    let back = phys.step_to_mm_sp(step);
    crate::num::lemma_div_round_err(d_nm * spm, 1_000_000);
    crate::num::lemma_div_round_err(fine, 1_000_000);
    crate::num::lemma_div_round_err(step * 1_000_000_000, spm);
    assert((step * 1_000_000 - fine) * 1_000_000
        == step * 1_000_000_000_000 - fine * 1_000_000) by (nonlinear_arith);
    assert(-500_000_000_000 <= (step * 1_000_000 - fine) * 1_000_000
        <= 500_000_000_000) by (nonlinear_arith)
        requires -500_000 <= step * 1_000_000 - fine <= 500_000;
    assert(1000 * (step * 1_000_000_000) == step * 1_000_000_000_000) by (nonlinear_arith);
    assert((back * 1000) * spm == 1000 * (back * spm)) by (nonlinear_arith);
    assert(1000 * (back * spm - step * 1_000_000_000) <= 500 * spm
        && -(500 * spm) <= 1000 * (back * spm - step * 1_000_000_000)) by (nonlinear_arith)
        requires back * spm - step * 1_000_000_000 <= spm / 2,
            -(spm / 2) <= back * spm - step * 1_000_000_000,
            2 * (spm / 2) <= spm, 0 <= spm / 2;
    assert(2 * (spm / 2) <= spm && 0 <= spm / 2) by {
        vstd::arithmetic::div_mod::lemma_fundamental_div_mod(spm, 2);
        vstd::arithmetic::div_mod::lemma_mod_bound(spm, 2);
    }
    assert((back * 1000 - d_nm) * spm == (back * 1000) * spm - d_nm * spm)
        by (nonlinear_arith);
}

/// The kinematic round trip at the position level: each motor's whole-step
/// image of a pen position, converted back to a cable length, is within
/// half a step plus about a micrometre of the true distance to its anchor.
/// (The remaining content of the round-trip law, that the intersection of
/// the two recovered circles is near the original point, is geometric
/// conditioning that is exercised by tests rather than proved.)
pub proof fn lemma_kinematic_round_trip(phys: Physical, mm: PositionMM, i: int)
    requires
        phys.wf(),
        mm.bounded(),
        0 <= i < 2,
    ensures
        ({
            let d_nm = dist_nm_sp(phys.motor_pos[i], mm);
            let back_um = phys.step_to_mm_sp(phys.motor_step_sp(mm, i));
            -(500 * phys.spm_micro + 501_000_000_000)
                <= (back_um * 1000 - d_nm) * phys.spm_micro
                <= 500 * phys.spm_micro + 501_000_000_000
        }),
{
    let dx = (mm.xy[0] - phys.motor_pos[i].xy[0]) * 1000;
    let dy = (mm.xy[1] - phys.motor_pos[i].xy[1]) * 1000;
    assert(0 <= dx * dx && 0 <= dy * dy
        && dx * dx + dy * dy <= 8_000_000_000_000_000_000_000_000) by (nonlinear_arith)
        requires -2_000_000_000_000 <= dx <= 2_000_000_000_000,
            -2_000_000_000_000 <= dy <= 2_000_000_000_000;
    crate::position::lemma_sqrt_floor_exists(dx * dx + dy * dy);
    let d_nm = dist_nm_sp(phys.motor_pos[i], mm);
    assert(d_nm <= 3_000_000_000_000) by (nonlinear_arith)
        requires d_nm * d_nm <= dx * dx + dy * dy,
            dx * dx + dy * dy <= 8_000_000_000_000_000_000_000_000, d_nm >= 0;
    lemma_cable_length_round_trip(phys, d_nm);
}

/// Bounds the micrometre length of a bounded step count.
proof fn lemma_step_um_bound(step: int, spm: int)
    requires
        0 <= step <= STEP_MAX,
        1_000_000 <= spm <= 1_000_000_000,
    ensures
        0 <= div_round(step * 1_000_000_000, spm) <= 110_000_000_000,
        0 <= step * 1_000_000_000 <= 0x1000_0000_0000_0000_0000,
{
    let a = step * 1_000_000_000;
    assert(0 <= a <= 100_000_000_000_000_000);
    vstd::arithmetic::div_mod::lemma_div_pos_is_pos(a + spm / 2, spm);
    vstd::arithmetic::div_mod::lemma_div_is_ordered_by_denominator(a + spm / 2, 1_000_000, spm);
    vstd::arithmetic::div_mod::lemma_div_is_ordered(
        a + spm / 2, 100_000_000_000_000_000int + 500_000_000_000, 1_000_000);
}

} // verus!
