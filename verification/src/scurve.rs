//! The jerk-limited 7-phase S-curve trajectory.
//!
//! A segment of length `L` nanometres is executed as a scalar displacement
//! `s(t)` along the segment, time in nanoseconds, velocities in nm/s,
//! accelerations in nm/s^2, jerk in nm/s^3.  The profile's seven phases are
//! constant-jerk ramps (phases 0, 2, 4, 6 of duration `t_j0`),
//! constant-acceleration stretches (1 and 5, duration `t_v1`) and a coast
//! (3, duration `t_c3`).
//!
//! Every displacement is the single rounding of an exact integer numerator
//! over one common denominator, so the evaluated profile is provably
//! non-decreasing and its boundary values are pinned exactly.

use vstd::prelude::*;

use crate::controller::MoveStatus;
use crate::num::{div_round, div_up, div_round_i128, div_up_i128, is_sqrt, is_cbrt, isqrt_u128,
    icbrt_u128, lemma_div_round_exact, lemma_div_round_mono, lemma_div_round_range};
use crate::physical::Physical;
use crate::position::{sqrt_floor, lemma_sqrt_floor_is, dist_nm_sp, PositionMM, PositionStepFine};

verus! {

/// Common denominator of the displacement numerators: nm * (ns per s)^3 * 6.
pub const D_POS: i128 = 6_000_000_000_000_000_000_000_000_000;

/// Coefficient of a velocity term in a displacement numerator.
pub const VEL_COEF: i128 = 6_000_000_000_000_000_000;

/// Coefficient of an acceleration term in a displacement numerator.
pub const ACC_COEF: i128 = 3_000_000_000;

/// Peak velocity of the jerk ramp: the ceiling of `m_j * t_j0^2 / 2` in
/// nm/s.  Rounding up keeps the deceleration ramps non-negative.
pub open spec fn v0_sp(mj: int, tj0: int) -> int {
    div_up(mj * tj0 * tj0, 2_000_000_000_000_000_000)
}

/// Velocity gained in a constant-acceleration stretch, rounded up.
pub open spec fn dv1_sp(ma: int, tv1: int) -> int {
    div_up(ma * tv1, 1_000_000_000)
}

/// Velocity at the end of phase 1.
pub open spec fn v1_sp(mj: int, ma: int, tj0: int, tv1: int) -> int {
    v0_sp(mj, tj0) + dv1_sp(ma, tv1)
}

/// Peak (coast) velocity, reached at the end of phase 2.
pub open spec fn v2_sp(mj: int, ma: int, tj0: int, tv1: int) -> int {
    v0_sp(mj, tj0) + v1_sp(mj, ma, tj0, tv1)
}

/// Displacement at the end of phase 0.
pub open spec fn p0_sp(mj: int, tj0: int) -> int {
    div_round(mj * tj0 * tj0 * tj0, D_POS as int)
}

/// Displacement at the end of phase 1.
pub open spec fn p1_sp(mj: int, ma: int, tj0: int, tv1: int) -> int {
    div_round((D_POS as int) * p0_sp(mj, tj0)
        + (VEL_COEF as int) * (v0_sp(mj, tj0) * tv1)
        + (ACC_COEF as int) * (ma * tv1 * tv1), D_POS as int)
}

/// Displacement at the end of phase 2.
pub open spec fn p2_sp(mj: int, ma: int, tj0: int, tv1: int) -> int {
    div_round((D_POS as int) * p1_sp(mj, ma, tj0, tv1)
        + (VEL_COEF as int) * (v1_sp(mj, ma, tj0, tv1) * tj0)
        + 2 * (mj * tj0 * tj0 * tj0), D_POS as int)
}

/// Displacement at the end of the coast.
pub open spec fn p3_sp(mj: int, ma: int, tj0: int, tv1: int, tc3: int) -> int {
    div_round((D_POS as int) * p2_sp(mj, ma, tj0, tv1)
        + (VEL_COEF as int) * (v2_sp(mj, ma, tj0, tv1) * tc3), D_POS as int)
}

/// Displacement at the end of phase 4.
pub open spec fn p4_sp(mj: int, ma: int, tj0: int, tv1: int, tc3: int) -> int {
    div_round((D_POS as int) * p3_sp(mj, ma, tj0, tv1, tc3)
        + (VEL_COEF as int) * (v2_sp(mj, ma, tj0, tv1) * tj0)
        - mj * tj0 * tj0 * tj0, D_POS as int)
}

/// Displacement at the end of phase 5.
pub open spec fn p5_sp(mj: int, ma: int, tj0: int, tv1: int, tc3: int) -> int {
    div_round((D_POS as int) * p4_sp(mj, ma, tj0, tv1, tc3)
        + (VEL_COEF as int) * (v1_sp(mj, ma, tj0, tv1) * tv1)
        - (ACC_COEF as int) * (ma * tv1 * tv1), D_POS as int)
}

/// Total displacement, at the end of phase 6.
pub open spec fn p6_sp(mj: int, ma: int, tj0: int, tv1: int, tc3: int) -> int {
    div_round((D_POS as int) * p5_sp(mj, ma, tj0, tv1, tc3)
        + (VEL_COEF as int) * (v0_sp(mj, tj0) * tj0)
        - 2 * (mj * tj0 * tj0 * tj0), D_POS as int)
}

/// The endpoint tolerance for a segment of `len` nanometres: one part in a
/// million plus four units of rounding.
pub open spec fn endpoint_tol_sp(len: int) -> int {
    len / 1_000_000 + 4
}

/// The range conditions a curve's phase durations must meet: every
/// intermediate product stays inside `i128` and every phase displacement is
/// non-negative and bounded.
pub open spec fn param_checks_sp(mj: int, ma: int, tj0: int, tv1: int, tc3: int) -> bool {
    &&& 1 <= tj0 <= 100_000_000
    &&& 0 <= tv1 <= 1_000_000_000
    &&& 0 <= tc3 <= 100_000_000_000
    &&& mj * tj0 <= 100_000_000_000_000_000_000_000
    &&& mj * tj0 * tj0 <= 22_000_000_000_000_000_000_000_000_000
    &&& mj * tj0 <= 1_000_000_000 * ma + 1_000_000_000
    &&& ma * tv1 * tv1 <= 2_000_000_000_000_000_000_000_000_000
    &&& v2_sp(mj, ma, tj0, tv1) <= 42_000_000_000
    &&& v2_sp(mj, ma, tj0, tv1) * tc3 <= 2_000_000_000_000_000_000
    &&& v1_sp(mj, ma, tj0, tv1) * tv1 <= 2_000_000_000_000_000_000
    &&& 0 <= p0_sp(mj, tj0) <= 20_000_000_000
    &&& 0 <= p1_sp(mj, ma, tj0, tv1) <= 20_000_000_000
    &&& 0 <= p2_sp(mj, ma, tj0, tv1) <= 20_000_000_000
    &&& 0 <= p3_sp(mj, ma, tj0, tv1, tc3) <= 20_000_000_000
    &&& 0 <= p4_sp(mj, ma, tj0, tv1, tc3) <= 20_000_000_000
    &&& 0 <= p5_sp(mj, ma, tj0, tv1, tc3) <= 20_000_000_000
    &&& 0 <= p6_sp(mj, ma, tj0, tv1, tc3) <= 20_000_000_000
}

/// All conditions a curve must meet: the range conditions and the endpoint
/// within tolerance of the segment length.
pub open spec fn curve_checks_sp(mj: int, ma: int, tj0: int, tv1: int, tc3: int, len: int) -> bool {
    &&& param_checks_sp(mj, ma, tj0, tv1, tc3)
    &&& p6_sp(mj, ma, tj0, tv1, tc3) - len <= endpoint_tol_sp(len)
    &&& len - p6_sp(mj, ma, tj0, tv1, tc3) <= endpoint_tol_sp(len)
    &&& 1 <= len <= 3_000_000_000_000
}

/// The integer cube root of `n`, rounded down.
pub open spec fn cbrt_floor(n: int) -> int {
    choose|r: int| is_cbrt(n, r)
}

/// Two integers satisfying the cube-root characterization are equal, so
/// `cbrt_floor` names the one cube root.
pub proof fn lemma_cbrt_floor_is(n: int, r: int)
    requires
        is_cbrt(n, r),
    ensures
        cbrt_floor(n) == r,
{
    let c = cbrt_floor(n);
    assert(is_cbrt(n, c));
    if c < r {
        assert((c + 1) * (c + 1) * (c + 1) <= r * r * r) by (nonlinear_arith)
            requires 0 <= c, 0 <= r, c + 1 <= r;
        assert(false);
    }
    if r < c {
        assert((r + 1) * (r + 1) * (r + 1) <= c * c * c) by (nonlinear_arith)
            requires 0 <= c, 0 <= r, r + 1 <= c;
        assert(false);
    }
}

/// The solver's jerk-phase duration: until peak acceleration or until the
/// jerk ramp alone covers the velocity ceiling, whichever is shorter.
pub open spec fn solver_tj0_sp(mv: int, ma: int, mj: int) -> int {
    min_int(div_round(ma * 1_000_000_000, mj),
        sqrt_floor(div_round(2 * mv * 1_000_000_000_000_000_000, mj)))
}

/// The solver's constant-acceleration duration: the velocity the jerk
/// ramps do not cover, at peak acceleration.
pub open spec fn solver_tv1_sp(mv: int, ma: int, mj: int) -> int {
    let tj0 = solver_tj0_sp(mv, ma, mj);
    div_round((mv - div_round(mj * tj0 * tj0, 1_000_000_000_000_000_000))
        * 1_000_000_000, ma)
}

/// The shortest distance of a curve that reaches peak acceleration, term
/// by term in nanometres.
pub open spec fn solver_mdm_sp(mv: int, ma: int, mj: int) -> int {
    let tj0 = solver_tj0_sp(mv, ma, mj);
    -div_round(ma * tj0 * tj0, 2_000_000_000_000_000_000)
        + 5 * div_round(mj * tj0 * tj0 * tj0, 2_000_000_000_000_000_000_000_000_000)
}

/// The shortest distance of a full curve with a coast phase, term by term
/// in nanometres.
pub open spec fn solver_mdc_sp(mv: int, ma: int, mj: int) -> int {
    let tj0 = solver_tj0_sp(mv, ma, mj);
    let tv1 = solver_tv1_sp(mv, ma, mj);
    let c3 = mj * tj0 * tj0 * tj0;
    let jerk_cubed = div_round(c3, 1_000_000_000_000_000_000_000_000_000);
    let jerk_cubed_half = div_round(c3, 2_000_000_000_000_000_000_000_000_000);
    let c2_tv1_half = div_round(mj * tj0 * tj0 * tv1, 2_000_000_000_000_000_000_000_000_000);
    let accel_travel = div_round(ma * tv1 * tj0, 1_000_000_000_000_000_000);
    let accel_travel_tv1 = div_round(ma * tv1 * tv1, 1_000_000_000_000_000_000);
    -div_round(ma * tj0 * tj0, 2_000_000_000_000_000_000)
        + jerk_cubed + c2_tv1_half + accel_travel + jerk_cubed_half + accel_travel
        + jerk_cubed + accel_travel_tv1 + c2_tv1_half
}

/// All conditions the solver's derived values must meet.
pub open spec fn solver_ok_sp(mv: int, ma: int, mj: int) -> bool {
    let tj0 = solver_tj0_sp(mv, ma, mj);
    let tv1 = solver_tv1_sp(mv, ma, mj);
    &&& 1 <= tj0 <= 100_000_000
    &&& mj * tj0 <= 100_000_000_000_000_000_000_000
    &&& mj * tj0 * tj0 <= 22_000_000_000_000_000_000_000_000_000
    &&& mj * tj0 <= 1_000_000_000 * ma + 1_000_000_000
    &&& 0 <= tv1 <= 1_000_000_000
    &&& ma * tv1 * tv1 <= 2_000_000_000_000_000_000_000_000_000
    &&& solver_mdm_sp(mv, ma, mj) <= solver_mdc_sp(mv, ma, mj)
    &&& solver_mdc_sp(mv, ma, mj) <= 1_000_000_000_000_000
    &&& -1_000_000_000_000_000 <= solver_mdm_sp(mv, ma, mj)
}

/// The coast duration that puts the profile's end on the segment length.
pub open spec fn coast_tc3_sp(s: SCurveSolver, len: int) -> int {
    div_round((len - p6_sp(s.m_j as int, s.m_a as int, s.t_j0 as int, s.t_v1 as int, 0))
        * 1_000_000_000, v2_sp(s.m_j as int, s.m_a as int, s.t_j0 as int, s.t_v1 as int))
}

/// When the full regime solves a segment of `len` nanometres.
pub open spec fn coast_ok_sp(s: SCurveSolver, len: int) -> bool {
    &&& param_checks_sp(s.m_j as int, s.m_a as int, s.t_j0 as int, s.t_v1 as int, 0)
    &&& v2_sp(s.m_j as int, s.m_a as int, s.t_j0 as int, s.t_v1 as int) >= 1
    &&& len >= p6_sp(s.m_j as int, s.m_a as int, s.t_j0 as int, s.t_v1 as int, 0)
    &&& coast_tc3_sp(s, len) <= 100_000_000_000
    &&& curve_checks_sp(s.m_j as int, s.m_a as int, s.t_j0 as int, s.t_v1 as int,
            coast_tc3_sp(s, len), len)
}

/// The middle regime's ramp velocities, discriminant and solved
/// constant-acceleration duration.
pub open spec fn mid_a_vel_sp(s: SCurveSolver) -> int {
    div_round(s.m_a * s.t_j0, 1_000_000_000)
}

pub open spec fn mid_b_vel_sp(s: SCurveSolver) -> int {
    div_round(s.m_j * s.t_j0 * s.t_j0, 1_000_000_000_000_000_000)
}

pub open spec fn mid_disc_sp(s: SCurveSolver, len: int) -> int {
    6 * (mid_a_vel_sp(s) * mid_a_vel_sp(s)) - 6 * (mid_a_vel_sp(s) * mid_b_vel_sp(s))
        + 4 * (s.m_a * len) + mid_b_vel_sp(s) * mid_b_vel_sp(s)
}

pub open spec fn mid_tv1_sp(s: SCurveSolver, len: int) -> int {
    div_round((sqrt_floor(mid_disc_sp(s, len)) - 2 * mid_a_vel_sp(s) - mid_b_vel_sp(s))
        * 1_000_000_000, 2 * s.m_a as int)
}

/// When the middle regime solves a segment of `len` nanometres.
pub open spec fn mid_ok_sp(s: SCurveSolver, len: int) -> bool {
    &&& mid_disc_sp(s, len) >= 0
    &&& 0 < mid_tv1_sp(s, len) <= 1_000_000_000
    &&& curve_checks_sp(s.m_j as int, s.m_a as int, s.t_j0 as int, mid_tv1_sp(s, len), 0, len)
}

/// The short regime's jerk-phase duration: half the cube root of the
/// remaining equation, in nanoseconds.
pub open spec fn short_tj0_sp(s: SCurveSolver, len: int) -> int {
    div_round(cbrt_floor(
        div_round(4 * len * 1_000_000_000_000_000_000, s.m_j as int) * 1_000_000_000), 2)
}

/// When the short regime solves a segment of `len` nanometres.
pub open spec fn short_ok_sp(s: SCurveSolver, len: int) -> bool {
    &&& div_round(4 * len * 1_000_000_000_000_000_000, s.m_j as int) <= 10_000_000_000_000_000
    &&& 1 <= short_tj0_sp(s, len) <= 100_000_000
    &&& curve_checks_sp(s.m_j as int, s.m_a as int, short_tj0_sp(s, len), 0, 0, len)
}

/// Margin kept free at the edge of the coordinate range so that the
/// interpolated pen position always stays representable.
pub const COORD_MARGIN: i64 = 3_000;

/// Solver for 7-phase S-curve trajectories: precomputed phase durations and
/// the two critical distances that pick the regime of a segment.
pub struct SCurveSolver {
    /// Maximum acceleration, nm/s^2.
    pub m_a: i64,
    /// Maximum jerk, nm/s^3.
    pub m_j: i64,
    /// Duration of each constant-jerk phase, ns.
    pub t_j0: i64,
    /// Duration of each constant-acceleration phase, ns.
    pub t_v1: i64,
    /// Shortest distance (nm) of a full curve with a coast phase.
    pub min_dist_truncated_coast: i64,
    /// Shortest distance (nm) of a curve that reaches peak acceleration.
    pub min_dist_truncated_max_acceleration: i64,
}

impl SCurveSolver {
    pub open spec fn wf(self) -> bool {
        &&& 1 <= self.m_a <= 100_000_000_000_000
        &&& 1 <= self.m_j <= 2_000_000_000_000_000_000
        &&& 1 <= self.t_j0 <= 100_000_000
        &&& 0 <= self.t_v1 <= 1_000_000_000
        &&& self.m_j * self.t_j0 <= 100_000_000_000_000_000_000_000
        &&& self.m_j * self.t_j0 * self.t_j0 <= 22_000_000_000_000_000_000_000_000_000
        &&& self.m_j * self.t_j0 <= 1_000_000_000 * self.m_a + 1_000_000_000
        &&& self.m_a * self.t_v1 * self.t_v1 <= 2_000_000_000_000_000_000_000_000_000
        &&& self.min_dist_truncated_max_acceleration <= self.min_dist_truncated_coast
        &&& -1_000_000_000_000_000 <= self.min_dist_truncated_max_acceleration
        &&& self.min_dist_truncated_coast <= 1_000_000_000_000_000
    }

    /// Build the solver from the machine's velocity ceiling and the given
    /// acceleration and jerk ceilings: the jerk phase lasts until peak
    /// acceleration or until half the peak velocity is reached, whichever
    /// is shorter, and the acceleration phase covers the remaining
    /// velocity.  Fails when the resulting durations leave the ranges the
    /// fixed-point arithmetic is sized for.
    pub fn new(physical: &Physical, m_a: i64, m_j: i64) -> (r: Result<SCurveSolver, &'static str>)
        requires
            physical.wf(),
            1 <= m_a <= 100_000_000_000_000,
            1 <= m_j <= 2_000_000_000_000_000_000,
        ensures
            (r is Ok <==> solver_ok_sp(physical.max_velocity as int, m_a as int, m_j as int)),
            (r matches Ok(s) ==> s.wf() && s.m_a == m_a && s.m_j == m_j
                && s.t_j0 == solver_tj0_sp(physical.max_velocity as int, m_a as int, m_j as int)
                && s.t_v1 == solver_tv1_sp(physical.max_velocity as int, m_a as int, m_j as int)
                && s.min_dist_truncated_coast
                    == solver_mdc_sp(physical.max_velocity as int, m_a as int, m_j as int)
                && s.min_dist_truncated_max_acceleration
                    == solver_mdm_sp(physical.max_velocity as int, m_a as int, m_j as int)),
    {
        let m_v: i64 = physical.get_max_velocity();
        let tj0_a: i128 = div_round_i128(m_a as i128 * 1_000_000_000, m_j as i128);
        let n2: i128 = div_round_i128(2 * m_v as i128 * 1_000_000_000_000_000_000, m_j as i128);
        proof {
            lemma_div_round_range(m_a as int * 1_000_000_000, m_j as int,
                0, 100_000_000_000_000_000_000_000);
            lemma_div_round_range(2 * physical.max_velocity * 1_000_000_000_000_000_000,
                m_j as int, 0, 20_000_000_000_000_000_000_000_000_000);
        }
        let tj0_v: i128 = isqrt_u128(n2 as u128) as i128;
        proof {
            lemma_sqrt_floor_is(n2 as int, tj0_v as int);
        }
        let t_j0_w: i128 = if tj0_a < tj0_v { tj0_a } else { tj0_v };
        if t_j0_w < 1 || t_j0_w > 100_000_000 {
            return Err("jerk phase duration out of range");
        }
        let t_j0: i64 = t_j0_w as i64;
        proof {
            assert(0 <= m_j as int * t_j0 as int <= 200_000_000_000_000_000_000_000_000
                && m_j as int * t_j0 as int * t_j0 as int
                    <= 20_000_000_000_000_000_000_000_000_000_000_000)
                by (nonlinear_arith)
                requires 1 <= m_j <= 2_000_000_000_000_000_000, 1 <= t_j0 <= 100_000_000;
        }
        let c1: i128 = m_j as i128 * t_j0 as i128;
        let c2: i128 = c1 * t_j0 as i128;
        if c1 > 100_000_000_000_000_000_000_000 {
            return Err("peak acceleration out of range");
        }
        if c2 > 22_000_000_000_000_000_000_000_000_000 {
            return Err("jerk ramp out of range");
        }
        if c1 > 1_000_000_000 * m_a as i128 + 1_000_000_000 {
            return Err("peak acceleration out of range");
        }
        let b: i128 = div_round_i128(c2, 1_000_000_000_000_000_000);
        proof {
            lemma_div_round_range(c2 as int, 1_000_000_000_000_000_000,
                0, 22_000_000_000_000_000_000_000_000_000);
        }
        let t_v1_w: i128 = div_round_i128((m_v as i128 - b) * 1_000_000_000, m_a as i128);
        proof {
            lemma_div_round_range((m_v as i128 - b) as int * 1_000_000_000, m_a as int,
                -22_000_000_000_000_000_000_000_000_000_000,
                22_000_000_000_000_000_000_000_000_000_000);
        }
        if t_v1_w < 0 || t_v1_w > 1_000_000_000 {
            return Err("acceleration phase duration out of range");
        }
        let t_v1: i64 = t_v1_w as i64;
        proof {
            assert(0 <= m_a as int * t_v1 as int <= 100_000_000_000_000_000_000_000
                && 0 <= m_a as int * t_v1 as int * t_v1 as int
                    <= 100_000_000_000_000_000_000_000_000_000_000) by (nonlinear_arith)
                requires 1 <= m_a <= 100_000_000_000_000, 0 <= t_v1 <= 1_000_000_000;
        }
        if m_a as i128 * t_v1 as i128 * t_v1 as i128 > 2_000_000_000_000_000_000_000_000_000 {
            return Err("acceleration travel out of range");
        }
        // the two critical distances, term by term, nanometres
        proof {
            assert(0 <= m_a as int * t_j0 as int <= 10_000_000_000_000_000_000_000
                && 0 <= m_a as int * t_j0 as int * t_j0 as int
                <= 1_000_000_000_000_000_000_000_000_000_000
                && 0 <= c2 as int * t_j0 as int
                    <= 2_200_000_000_000_000_000_000_000_000_000_000_000
                && 0 <= c2 as int * t_v1 as int
                    <= 22_000_000_000_000_000_000_000_000_000_000_000_000
                && 0 <= m_a as int * t_v1 as int * t_j0 as int
                    <= 10_000_000_000_000_000_000_000_000_000_000) by (nonlinear_arith)
                requires 1 <= m_a <= 100_000_000_000_000, 1 <= t_j0 <= 100_000_000,
                    0 <= t_v1 <= 1_000_000_000,
                    0 <= c2 <= 22_000_000_000_000_000_000_000_000_000;
            lemma_div_round_range(m_a as int * t_j0 as int * t_j0 as int,
                2_000_000_000_000_000_000, 0, 1_000_000_000_000_000_000_000_000_000_000);
            lemma_div_round_range(c2 as int * t_j0 as int, 1_000_000_000_000_000_000_000_000_000,
                0, 2_200_000_000_000_000_000_000_000_000_000_000_000);
            lemma_div_round_range(c2 as int * t_j0 as int, 2_000_000_000_000_000_000_000_000_000,
                0, 2_200_000_000_000_000_000_000_000_000_000_000_000);
            lemma_div_round_range(c2 as int * t_v1 as int, 2_000_000_000_000_000_000_000_000_000,
                0, 22_000_000_000_000_000_000_000_000_000_000_000_000);
            lemma_div_round_range(m_a as int * t_v1 as int * t_j0 as int,
                1_000_000_000_000_000_000, 0, 10_000_000_000_000_000_000_000_000_000_000);
            lemma_div_round_range(m_a as int * t_v1 as int * t_v1 as int,
                1_000_000_000_000_000_000, 0, 2_000_000_000_000_000_000_000_000_000);
        }
        let a_tj2: i128 = div_round_i128(m_a as i128 * t_j0 as i128 * t_j0 as i128,
            2_000_000_000_000_000_000);
        let c3: i128 = c2 * t_j0 as i128;
        let jerk_cubed: i128 = div_round_i128(c3, 1_000_000_000_000_000_000_000_000_000);
        let jerk_cubed_half: i128 = div_round_i128(c3, 2_000_000_000_000_000_000_000_000_000);
        let c2_tv1: i128 = c2 * t_v1 as i128;
        let c2_tv1_half: i128 = div_round_i128(c2_tv1, 2_000_000_000_000_000_000_000_000_000);
        let ma_tv1_tj0: i128 = m_a as i128 * t_v1 as i128 * t_j0 as i128;
        let ma_tv1_tv1: i128 = m_a as i128 * t_v1 as i128 * t_v1 as i128;
        let accel_travel: i128 = div_round_i128(ma_tv1_tj0, 1_000_000_000_000_000_000);
        let accel_travel_tv1: i128 = div_round_i128(ma_tv1_tv1, 1_000_000_000_000_000_000);
        let min_dist_truncated_coast: i128 = -a_tj2 + jerk_cubed + c2_tv1_half
            + accel_travel + jerk_cubed_half
            + accel_travel + jerk_cubed
            + accel_travel_tv1 + c2_tv1_half;
        let min_dist_truncated_max_acceleration: i128 =
            -a_tj2 + 5 * jerk_cubed_half;
        if min_dist_truncated_coast < min_dist_truncated_max_acceleration {
            return Err("inconsistent regime thresholds");
        }
        if min_dist_truncated_coast > 1_000_000_000_000_000
            || min_dist_truncated_max_acceleration < -1_000_000_000_000_000 {
            return Err("regime thresholds out of range");
        }
        Ok(SCurveSolver {
            m_a,
            m_j,
            t_j0,
            t_v1,
            min_dist_truncated_coast: min_dist_truncated_coast as i64,
            min_dist_truncated_max_acceleration: min_dist_truncated_max_acceleration as i64,
        })
    }
}

/// The smaller of two integers.
pub open spec fn min_int(a: int, b: int) -> int {
    if a < b { a } else { b }
}


/// A solved trajectory for one straight segment: start point and
/// micrometre delta to the end, segment length in nanometres, cumulative
/// phase boundary times (ns), boundary velocities (nm/s), boundary
/// displacements (nm), and the jerk/acceleration ceilings it was solved
/// with.
/// Evaluate the boundary velocities and displacements of a profile with
/// the given ceilings and phase durations, checking every range the
/// fixed-point arithmetic needs.  `Err` exactly when a range check fails.
#[verifier::rlimit(100)]
fn eval_profile(m_j: i64, m_a: i64, t_j0: i64, t_v1: i64, t_c3: i64)
    -> (r: Result<([i64; 3], [i64; 7]), &'static str>)
    requires
        1 <= m_a <= 100_000_000_000_000,
        1 <= m_j <= 2_000_000_000_000_000_000,
    ensures
        (r is Ok <==> param_checks_sp(m_j as int, m_a as int, t_j0 as int, t_v1 as int,
            t_c3 as int)),
        (r matches Ok(vp) ==> ({
            let mj = m_j as int;
            let ma = m_a as int;
            &&& vp.0[0] == v0_sp(mj, t_j0 as int)
            &&& vp.0[1] == v1_sp(mj, ma, t_j0 as int, t_v1 as int)
            &&& vp.0[2] == v2_sp(mj, ma, t_j0 as int, t_v1 as int)
            &&& vp.1[0] == p0_sp(mj, t_j0 as int)
            &&& vp.1[1] == p1_sp(mj, ma, t_j0 as int, t_v1 as int)
            &&& vp.1[2] == p2_sp(mj, ma, t_j0 as int, t_v1 as int)
            &&& vp.1[3] == p3_sp(mj, ma, t_j0 as int, t_v1 as int, t_c3 as int)
            &&& vp.1[4] == p4_sp(mj, ma, t_j0 as int, t_v1 as int, t_c3 as int)
            &&& vp.1[5] == p5_sp(mj, ma, t_j0 as int, t_v1 as int, t_c3 as int)
            &&& vp.1[6] == p6_sp(mj, ma, t_j0 as int, t_v1 as int, t_c3 as int)
        })),
{
        if t_j0 < 1 || t_j0 > 100_000_000 {
            return Err("jerk phase duration out of range");
        }
        if t_v1 < 0 || t_v1 > 1_000_000_000 {
            return Err("acceleration phase duration out of range");
        }
        if t_c3 < 0 || t_c3 > 100_000_000_000 {
            return Err("coast duration out of range");
        }
        proof {
            assert(0 <= m_j as int * t_j0 as int <= 200_000_000_000_000_000_000_000_000
                && 0 <= m_j as int * t_j0 as int * t_j0 as int
                    <= 20_000_000_000_000_000_000_000_000_000_000_000
                && 0 <= m_a as int * t_v1 as int <= 100_000_000_000_000_000_000_000
                && 0 <= m_a as int * t_v1 as int * t_v1 as int
                    <= 100_000_000_000_000_000_000_000_000_000_000) by (nonlinear_arith)
                requires 1 <= m_j <= 2_000_000_000_000_000_000, 1 <= t_j0 <= 100_000_000,
                    1 <= m_a <= 100_000_000_000_000, 0 <= t_v1 <= 1_000_000_000;
        }
        let c1: i128 = m_j as i128 * t_j0 as i128;
        let c2: i128 = c1 * t_j0 as i128;
        if c1 > 100_000_000_000_000_000_000_000 {
            return Err("peak acceleration out of range");
        }
        if c2 > 22_000_000_000_000_000_000_000_000_000 {
            return Err("jerk ramp out of range");
        }
        if c1 > 1_000_000_000 * m_a as i128 + 1_000_000_000 {
            return Err("peak acceleration out of range");
        }
        if m_a as i128 * t_v1 as i128 * t_v1 as i128 > 2_000_000_000_000_000_000_000_000_000 {
            return Err("acceleration travel out of range");
        }
        proof {
            lemma_div_round_range(c2 as int, 2_000_000_000_000_000_000,
                0, 22_000_000_000_000_000_000_000_000_000);
            crate::num::lemma_div_up_range(c2 as int, 2_000_000_000_000_000_000,
                0, 22_000_000_000_000_000_000_000_000_000);
            crate::num::lemma_div_up_range(m_a as int * t_v1 as int, 1_000_000_000,
                0, 100_000_000_000_000_000_000_000);
        }
        let v0w: i128 = div_up_i128(c2, 2_000_000_000_000_000_000);
        let dvw: i128 = div_up_i128(m_a as i128 * t_v1 as i128, 1_000_000_000);
        let v1w: i128 = v0w + dvw;
        let v2w: i128 = v0w + v1w;
        if v2w > 42_000_000_000 {
            return Err("peak velocity out of range");
        }
        let v0: i64 = v0w as i64;
        let v1: i64 = v1w as i64;
        let v2: i64 = v2w as i64;
        proof {
            assert(0 <= v2 as int * t_c3 as int <= 4_200_000_000_000_000_000_000
                && 0 <= v1 as int * t_v1 as int <= 42_000_000_000_000_000_000) by (nonlinear_arith)
                requires 0 <= v1 <= 42_000_000_000, 0 <= v2 <= 42_000_000_000,
                    0 <= t_c3 <= 100_000_000_000, 0 <= t_v1 <= 1_000_000_000;
        }
        if v2 as i128 * t_c3 as i128 > 2_000_000_000_000_000_000 {
            return Err("coast travel out of range");
        }
        if v1 as i128 * t_v1 as i128 > 2_000_000_000_000_000_000 {
            return Err("acceleration stretch out of range");
        }
        proof {
            assert(0 <= c2 as int * t_j0 as int
                <= 2_200_000_000_000_000_000_000_000_000_000_000_000) by (nonlinear_arith)
                requires 0 <= c2 <= 22_000_000_000_000_000_000_000_000_000,
                    1 <= t_j0 <= 100_000_000;
            assert(0 <= v0 as int * t_v1 as int <= 42_000_000_000_000_000_000
                && 0 <= v1 as int * t_j0 as int <= 4_200_000_000_000_000_000
                && 0 <= v2 as int * t_j0 as int <= 4_200_000_000_000_000_000
                && 0 <= v0 as int * t_j0 as int <= 4_200_000_000_000_000_000) by (nonlinear_arith)
                requires 0 <= v0 <= 42_000_000_000, 0 <= v1 <= 42_000_000_000,
                    0 <= v2 <= 42_000_000_000, 1 <= t_j0 <= 100_000_000,
                    0 <= t_v1 <= 1_000_000_000, v0 <= v1,
                    v1 as int * t_v1 as int <= 2_000_000_000_000_000_000;
            assert(v0 as int * t_v1 as int <= v1 as int * t_v1 as int) by (nonlinear_arith)
                requires 0 <= v0 <= v1, 0 <= t_v1;
            assert(0 <= m_a as int * t_v1 as int * t_v1 as int) by (nonlinear_arith)
                requires 0 <= m_a, 0 <= t_v1;
            lemma_div_round_range(c2 as int * t_j0 as int, D_POS as int,
                0, 2_200_000_000_000_000_000_000_000_000_000_000_000);
        }
        let c3: i128 = c2 * t_j0 as i128;
        let p0w: i128 = div_round_i128(c3, D_POS);
        if p0w < 0 || p0w > 20_000_000_000 {
            return Err("phase displacement out of range");
        }
        let p0: i64 = p0w as i64;
        let n1: i128 = D_POS * p0 as i128 + VEL_COEF * (v0 as i128 * t_v1 as i128)
            + ACC_COEF * (m_a as i128 * t_v1 as i128 * t_v1 as i128);
        proof {
            lemma_div_round_range(n1 as int, D_POS as int,
                -200_000_000_000_000_000_000_000_000_000_000_000_000,
                200_000_000_000_000_000_000_000_000_000_000_000_000);
        }
        let p1w: i128 = div_round_i128(n1, D_POS);
        if p1w < 0 || p1w > 20_000_000_000 {
            return Err("phase displacement out of range");
        }
        let p1: i64 = p1w as i64;
        let n2: i128 = D_POS * p1 as i128 + VEL_COEF * (v1 as i128 * t_j0 as i128) + 2 * c3;
        proof {
            lemma_div_round_range(n2 as int, D_POS as int,
                -200_000_000_000_000_000_000_000_000_000_000_000_000,
                200_000_000_000_000_000_000_000_000_000_000_000_000);
        }
        let p2w: i128 = div_round_i128(n2, D_POS);
        if p2w < 0 || p2w > 20_000_000_000 {
            return Err("phase displacement out of range");
        }
        let p2: i64 = p2w as i64;
        let n3: i128 = D_POS * p2 as i128 + VEL_COEF * (v2 as i128 * t_c3 as i128);
        proof {
            lemma_div_round_range(n3 as int, D_POS as int,
                -200_000_000_000_000_000_000_000_000_000_000_000_000,
                200_000_000_000_000_000_000_000_000_000_000_000_000);
        }
        let p3w: i128 = div_round_i128(n3, D_POS);
        if p3w < 0 || p3w > 20_000_000_000 {
            return Err("phase displacement out of range");
        }
        let p3: i64 = p3w as i64;
        let n4: i128 = D_POS * p3 as i128 + VEL_COEF * (v2 as i128 * t_j0 as i128) - c3;
        proof {
            lemma_div_round_range(n4 as int, D_POS as int,
                -200_000_000_000_000_000_000_000_000_000_000_000_000,
                200_000_000_000_000_000_000_000_000_000_000_000_000);
        }
        let p4w: i128 = div_round_i128(n4, D_POS);
        if p4w < 0 || p4w > 20_000_000_000 {
            return Err("phase displacement out of range");
        }
        let p4: i64 = p4w as i64;
        let n5: i128 = D_POS * p4 as i128 + VEL_COEF * (v1 as i128 * t_v1 as i128)
            - ACC_COEF * (m_a as i128 * t_v1 as i128 * t_v1 as i128);
        proof {
            lemma_div_round_range(n5 as int, D_POS as int,
                -200_000_000_000_000_000_000_000_000_000_000_000_000,
                200_000_000_000_000_000_000_000_000_000_000_000_000);
        }
        let p5w: i128 = div_round_i128(n5, D_POS);
        if p5w < 0 || p5w > 20_000_000_000 {
            return Err("phase displacement out of range");
        }
        let p5: i64 = p5w as i64;
        let n6: i128 = D_POS * p5 as i128 + VEL_COEF * (v0 as i128 * t_j0 as i128) - 2 * c3;
        proof {
            lemma_div_round_range(n6 as int, D_POS as int,
                -200_000_000_000_000_000_000_000_000_000_000_000_000,
                200_000_000_000_000_000_000_000_000_000_000_000_000);
        }
        let p6w: i128 = div_round_i128(n6, D_POS);
        if p6w < 0 || p6w > 20_000_000_000 {
            return Err("phase displacement out of range");
        }
        let p6: i64 = p6w as i64;
        Ok(([v0, v1, v2], [p0, p1, p2, p3, p4, p5, p6]))
}

pub struct SCurve {
    pub start: PositionMM,
    pub delta: [i64; 2],
    pub len: i64,
    pub t: [i64; 7],
    pub t_j0: i64,
    pub t_v1: i64,
    pub t_c3: i64,
    pub v0: i64,
    pub v1: i64,
    pub v2: i64,
    pub p: [i64; 7],
    pub m_j: i64,
    pub m_a: i64,
}

/// The end point of a curve's segment.
pub open spec fn end_of(c: SCurve) -> PositionMM {
    PositionMM { xy: [(c.start.xy[0] + c.delta[0]) as i64, (c.start.xy[1] + c.delta[1]) as i64] }
}

impl SCurve {
    /// The stored fields are exactly the solved values: boundary times
    /// accumulate the three durations, velocities and displacements equal
    /// their defining formulas, the parameter checks hold, the segment
    /// length is the distance from start to end, and both endpoints leave
    /// a margin inside the representable range.
    pub open spec fn wf(self) -> bool {
        &&& 1 <= self.m_a <= 100_000_000_000_000
        &&& 1 <= self.m_j <= 2_000_000_000_000_000_000
        &&& curve_checks_sp(self.m_j as int, self.m_a as int, self.t_j0 as int,
                self.t_v1 as int, self.t_c3 as int, self.len as int)
        &&& self.t[0] == self.t_j0
        &&& self.t[1] == self.t[0] + self.t_v1
        &&& self.t[2] == self.t[1] + self.t_j0
        &&& self.t[3] == self.t[2] + self.t_c3
        &&& self.t[4] == self.t[3] + self.t_j0
        &&& self.t[5] == self.t[4] + self.t_v1
        &&& self.t[6] == self.t[5] + self.t_j0
        &&& self.v0 == v0_sp(self.m_j as int, self.t_j0 as int)
        &&& self.v1 == v1_sp(self.m_j as int, self.m_a as int, self.t_j0 as int, self.t_v1 as int)
        &&& self.v2 == v2_sp(self.m_j as int, self.m_a as int, self.t_j0 as int, self.t_v1 as int)
        &&& self.p[0] == p0_sp(self.m_j as int, self.t_j0 as int)
        &&& self.p[1] == p1_sp(self.m_j as int, self.m_a as int, self.t_j0 as int, self.t_v1 as int)
        &&& self.p[2] == p2_sp(self.m_j as int, self.m_a as int, self.t_j0 as int, self.t_v1 as int)
        &&& self.p[3] == p3_sp(self.m_j as int, self.m_a as int, self.t_j0 as int,
                self.t_v1 as int, self.t_c3 as int)
        &&& self.p[4] == p4_sp(self.m_j as int, self.m_a as int, self.t_j0 as int,
                self.t_v1 as int, self.t_c3 as int)
        &&& self.p[5] == p5_sp(self.m_j as int, self.m_a as int, self.t_j0 as int,
                self.t_v1 as int, self.t_c3 as int)
        &&& self.p[6] == p6_sp(self.m_j as int, self.m_a as int, self.t_j0 as int,
                self.t_v1 as int, self.t_c3 as int)
        &&& self.len == dist_nm_sp(self.start, end_of(self))
        &&& -(self.len) <= self.delta[0] * 1000 <= self.len
        &&& -(self.len) <= self.delta[1] * 1000 <= self.len
        &&& -(crate::position::COORD_MAX - COORD_MARGIN) <= self.start.xy[0]
                <= crate::position::COORD_MAX - COORD_MARGIN
        &&& -(crate::position::COORD_MAX - COORD_MARGIN) <= self.start.xy[1]
                <= crate::position::COORD_MAX - COORD_MARGIN
        &&& -(crate::position::COORD_MAX - COORD_MARGIN) <= self.start.xy[0] + self.delta[0]
                <= crate::position::COORD_MAX - COORD_MARGIN
        &&& -(crate::position::COORD_MAX - COORD_MARGIN) <= self.start.xy[1] + self.delta[1]
                <= crate::position::COORD_MAX - COORD_MARGIN
    }

    /// Build a trajectory from a segment and phase durations: accumulate
    /// boundary times, derive boundary velocities (the deceleration ramps
    /// reuse the acceleration ramps' values, so the curve ends at rest by
    /// construction), and evaluate each phase's displacement polynomial at
    /// its end with a single rounding.  Fails exactly when a parameter or
    /// a derived value leaves the checked ranges, or the end displacement
    /// misses the segment length by more than the endpoint tolerance.
    #[verifier::rlimit(100)]
    pub fn new(start: PositionMM, end: PositionMM, t_j0: i64, t_v1: i64, t_c3: i64,
        solver: &SCurveSolver) -> (r: Result<SCurve, &'static str>)
        requires
            solver.wf(),
            -(crate::position::COORD_MAX - COORD_MARGIN) <= start.xy[0]
                <= crate::position::COORD_MAX - COORD_MARGIN,
            -(crate::position::COORD_MAX - COORD_MARGIN) <= start.xy[1]
                <= crate::position::COORD_MAX - COORD_MARGIN,
            -(crate::position::COORD_MAX - COORD_MARGIN) <= end.xy[0]
                <= crate::position::COORD_MAX - COORD_MARGIN,
            -(crate::position::COORD_MAX - COORD_MARGIN) <= end.xy[1]
                <= crate::position::COORD_MAX - COORD_MARGIN,
        ensures
            (r matches Ok(c) ==> c.wf()
                && c.start == start
                && c.delta[0] == end.xy[0] - start.xy[0]
                && c.delta[1] == end.xy[1] - start.xy[1]
                && c.m_j == solver.m_j && c.m_a == solver.m_a
                && c.t_j0 == t_j0 && c.t_v1 == t_v1 && c.t_c3 == t_c3
                && c.len == dist_nm_sp(start, end)),
            (r is Ok <==> curve_checks_sp(solver.m_j as int, solver.m_a as int,
                t_j0 as int, t_v1 as int, t_c3 as int, dist_nm_sp(start, end))),
    {
        let m_j: i64 = solver.m_j;
        let m_a: i64 = solver.m_a;
        let len: i64 = start.dist(&end);
        if len < 1 {
            return Err("zero-length segment");
        }
        let (v, p) = match eval_profile(m_j, m_a, t_j0, t_v1, t_c3) {
            Ok(vp) => vp,
            Err(e) => {
                return Err(e);
            }
        };
        let tol: i64 = len / 1_000_000 + 4;
        if p[6] - len > tol || len - p[6] > tol {
            return Err("endpoint misses the segment length");
        }
        let t0: i64 = t_j0;
        let t1: i64 = t0 + t_v1;
        let t2: i64 = t1 + t_j0;
        let t3: i64 = t2 + t_c3;
        let t4: i64 = t3 + t_j0;
        let t5: i64 = t4 + t_v1;
        let t6: i64 = t5 + t_j0;
        proof {
            crate::position::lemma_component_le_dist(end.xy[0] - start.xy[0],
                end.xy[1] - start.xy[1], len as int);
        }
        Ok(SCurve {
            start,
            delta: [end.x() - start.x(), end.y() - start.y()],
            len,
            t: [t0, t1, t2, t3, t4, t5, t6],
            t_j0,
            t_v1,
            t_c3,
            v0: v[0],
            v1: v[1],
            v2: v[2],
            p,
            m_j,
            m_a,
        })
    }

    /// Is the trajectory finished at `elapsed_ns` nanoseconds after its
    /// start?
    pub fn get_move_status(&self, elapsed_ns: i64) -> (r: MoveStatus)
        ensures
            r == (if elapsed_ns >= self.t[6] { MoveStatus::Stopped } else { MoveStatus::Moving }),
    {
        if elapsed_ns >= self.t[6] {
            MoveStatus::Stopped
        } else {
            MoveStatus::Moving
        }
    }
}


/// Which phase contains trajectory time `t`.
pub open spec fn stage_of(c: SCurve, t: int) -> int {
    if t < c.t[0] { 0 }
    else if t < c.t[1] { 1 }
    else if t < c.t[2] { 2 }
    else if t < c.t[3] { 3 }
    else if t < c.t[4] { 4 }
    else if t < c.t[5] { 5 }
    else { 6 }
}

/// The displacement numerator of phase `k` of curve `c` at local time
/// `tau`, over the common denominator `D_POS`.
pub open spec fn stage_num(c: SCurve, k: int, tau: int) -> int {
    let mj = c.m_j as int;
    let ma = c.m_a as int;
    let tj0 = c.t_j0 as int;
    if k == 0 {
        mj * tau * tau * tau
    } else if k == 1 {
        (D_POS as int) * c.p[0] + (VEL_COEF as int) * (c.v0 * tau)
            + (ACC_COEF as int) * (ma * tau * tau)
    } else if k == 2 {
        (D_POS as int) * c.p[1] + (VEL_COEF as int) * (c.v1 * tau)
            + 3 * (mj * tj0) * (tau * tau) - mj * tau * tau * tau
    } else if k == 3 {
        (D_POS as int) * c.p[2] + (VEL_COEF as int) * (c.v2 * tau)
    } else if k == 4 {
        (D_POS as int) * c.p[3] + (VEL_COEF as int) * (c.v2 * tau) - mj * tau * tau * tau
    } else if k == 5 {
        (D_POS as int) * c.p[4] + (VEL_COEF as int) * (c.v1 * tau)
            - (ACC_COEF as int) * (ma * tau * tau)
    } else {
        (D_POS as int) * c.p[5] + (VEL_COEF as int) * (c.v0 * tau)
            - 3 * (mj * tj0) * (tau * tau) + mj * tau * tau * tau
    }
}

/// Local time within the phase containing `t`.
pub open spec fn stage_tau(c: SCurve, t: int) -> int {
    let k = stage_of(c, t);
    if k == 0 { t } else { t - c.t[k - 1] }
}

/// The scalar displacement of curve `c` at time `t`, nanometres: the
/// containing phase's numerator, rounded once over the common denominator.
pub open spec fn scurve_scalar(c: SCurve, t: int) -> int {
    div_round(stage_num(c, stage_of(c, t), stage_tau(c, t)), D_POS as int)
}

/// The velocity numerator at phase `k`, local time `tau`, scaled so that
/// `2 * 10^18` numerator units are one nm/s.
pub open spec fn svel_num(c: SCurve, k: int, tau: int) -> int {
    let mj = c.m_j as int;
    let ma = c.m_a as int;
    let tj0 = c.t_j0 as int;
    if k == 0 {
        mj * tau * tau
    } else if k == 1 {
        2_000_000_000_000_000_000 * c.v0 + 2_000_000_000 * (ma * tau)
    } else if k == 2 {
        2_000_000_000_000_000_000 * c.v1 + 2 * (mj * tj0) * tau - mj * tau * tau
    } else if k == 3 {
        2_000_000_000_000_000_000 * c.v2
    } else if k == 4 {
        2_000_000_000_000_000_000 * c.v2 - mj * tau * tau
    } else if k == 5 {
        2_000_000_000_000_000_000 * c.v1 - 2_000_000_000 * (ma * tau)
    } else {
        2_000_000_000_000_000_000 * c.v0 - 2 * (mj * tj0) * tau + mj * tau * tau
    }
}

/// The acceleration numerator at phase `k`, local time `tau`, scaled so
/// that `10^9` numerator units are one nm/s^2.
pub open spec fn sacc_num(c: SCurve, k: int, tau: int) -> int {
    let mj = c.m_j as int;
    let ma = c.m_a as int;
    let tj0 = c.t_j0 as int;
    if k == 0 {
        mj * tau
    } else if k == 1 {
        1_000_000_000 * ma
    } else if k == 2 {
        mj * tj0 - mj * tau
    } else if k == 3 {
        0
    } else if k == 4 {
        -(mj * tau)
    } else if k == 5 {
        -(1_000_000_000 * ma)
    } else {
        -(mj * tj0) + mj * tau
    }
}

/// The duration of phase `k`.
pub open spec fn stage_dur(c: SCurve, k: int) -> int {
    if k == 0 || k == 2 || k == 4 || k == 6 { c.t_j0 as int }
    else if k == 1 || k == 5 { c.t_v1 as int }
    else { c.t_c3 as int }
}

/// A phase's numerator at its end equals `D_POS` times the stored boundary
/// displacement, rounded: the stored `p` values are the phase-end samples
/// of the profile.
pub proof fn lemma_stage_end_is_p(c: SCurve, k: int)
    requires
        c.wf(),
        0 <= k <= 6,
    ensures
        div_round(stage_num(c, k, stage_dur(c, k)), D_POS as int) == c.p[k],
{
    let mj = c.m_j as int;
    let ma = c.m_a as int;
    let tj0 = c.t_j0 as int;
    let tv1 = c.t_v1 as int;
    let tc3 = c.t_c3 as int;
    if k == 0 {
        assert(stage_num(c, 0, tj0) == mj * tj0 * tj0 * tj0);
        assert(c.p[0] == p0_sp(mj, tj0));
    } else if k == 1 {
        assert(stage_num(c, 1, tv1) == (D_POS as int) * c.p[0]
            + (VEL_COEF as int) * (c.v0 * tv1) + (ACC_COEF as int) * (ma * tv1 * tv1));
        assert(c.p[1] == p1_sp(mj, ma, tj0, tv1));
    } else if k == 2 {
        assert(3 * (mj * tj0) * (tj0 * tj0) - mj * tj0 * tj0 * tj0
            == 2 * (mj * tj0 * tj0 * tj0)) by (nonlinear_arith);
        assert(stage_num(c, 2, tj0) == (D_POS as int) * c.p[1]
            + (VEL_COEF as int) * (c.v1 * tj0) + 2 * (mj * tj0 * tj0 * tj0));
        assert(c.p[2] == p2_sp(mj, ma, tj0, tv1));
    } else if k == 3 {
        assert(stage_num(c, 3, tc3) == (D_POS as int) * c.p[2]
            + (VEL_COEF as int) * (c.v2 * tc3));
        assert(c.p[3] == p3_sp(mj, ma, tj0, tv1, tc3));
    } else if k == 4 {
        assert(stage_num(c, 4, tj0) == (D_POS as int) * c.p[3]
            + (VEL_COEF as int) * (c.v2 * tj0) - mj * tj0 * tj0 * tj0);
        assert(c.p[4] == p4_sp(mj, ma, tj0, tv1, tc3));
    } else if k == 5 {
        assert(stage_num(c, 5, tv1) == (D_POS as int) * c.p[4]
            + (VEL_COEF as int) * (c.v1 * tv1) - (ACC_COEF as int) * (ma * tv1 * tv1));
        assert(c.p[5] == p5_sp(mj, ma, tj0, tv1, tc3));
    } else {
        assert(3 * (mj * tj0) * (tj0 * tj0) - mj * tj0 * tj0 * tj0
            == 2 * (mj * tj0 * tj0 * tj0)) by (nonlinear_arith);
        assert(stage_num(c, 6, tj0) == (D_POS as int) * c.p[5]
            + (VEL_COEF as int) * (c.v0 * tj0) - 2 * (mj * tj0 * tj0 * tj0));
        assert(c.p[6] == p6_sp(mj, ma, tj0, tv1, tc3));
    }
}

/// A phase's numerator at local time zero is `D_POS` times the previous
/// boundary displacement (zero before the first phase).
pub proof fn lemma_stage_start(c: SCurve, k: int)
    requires
        c.wf(),
        0 <= k <= 6,
    ensures
        div_round(stage_num(c, k, 0), D_POS as int) == (if k == 0 { 0int } else { c.p[k - 1] as int }),
{
    let mj = c.m_j as int;
    if k == 0 {
        assert(mj * 0 * 0 * 0 == 0) by (nonlinear_arith);
        lemma_div_round_exact(0, D_POS as int);
        assert(0 * (D_POS as int) == 0) by (nonlinear_arith);
    } else {
        assert((VEL_COEF as int) * (c.v0 as int * 0) == 0
            && (VEL_COEF as int) * (c.v1 as int * 0) == 0
            && (VEL_COEF as int) * (c.v2 as int * 0) == 0
            && (ACC_COEF as int) * (c.m_a as int * 0 * 0) == 0
            && 3 * (c.m_j as int * c.t_j0 as int) * (0 * 0) == 0
            && c.m_j as int * 0 * 0 * 0 == 0) by (nonlinear_arith);
        assert(stage_num(c, k, 0) == (D_POS as int) * c.p[k - 1]);
        lemma_div_round_exact(c.p[k - 1] as int, D_POS as int);
        assert(c.p[k - 1] as int * (D_POS as int) == (D_POS as int) * (c.p[k - 1] as int))
            by (nonlinear_arith);
    }
}

/// Within one phase the displacement numerator is non-decreasing in the
/// local time.
pub proof fn lemma_stage_num_mono(c: SCurve, k: int, ta: int, tb: int)
    requires
        c.wf(),
        0 <= k <= 6,
        0 <= ta <= tb <= stage_dur(c, k),
    ensures
        stage_num(c, k, ta) <= stage_num(c, k, tb),
{
    let mj = c.m_j as int;
    let ma = c.m_a as int;
    let tj0 = c.t_j0 as int;
    let v0 = c.v0 as int;
    let v1 = c.v1 as int;
    let v2 = c.v2 as int;
    if k == 0 {
        assert(mj * ta * ta * ta <= mj * tb * tb * tb) by (nonlinear_arith)
            requires mj >= 0, 0 <= ta <= tb;
    } else if k == 1 {
        assert(v0 * ta <= v0 * tb && ma * ta * ta <= ma * tb * tb) by (nonlinear_arith)
            requires v0 >= 0, ma >= 0, 0 <= ta <= tb;
    } else if k == 2 {
        assert((VEL_COEF as int) * (v1 * ta) + 3 * (mj * tj0) * (ta * ta) - mj * ta * ta * ta
            <= (VEL_COEF as int) * (v1 * tb) + 3 * (mj * tj0) * (tb * tb) - mj * tb * tb * tb)
            by (nonlinear_arith)
            requires v1 >= 0, mj >= 0, 0 <= ta <= tb <= tj0,
                VEL_COEF == 6_000_000_000_000_000_000i128;
    } else if k == 3 {
        assert(v2 * ta <= v2 * tb) by (nonlinear_arith)
            requires v2 >= 0, ta <= tb;
    } else if k == 4 {
        assert((VEL_COEF as int) * (v2 * ta) - mj * ta * ta * ta
            <= (VEL_COEF as int) * (v2 * tb) - mj * tb * tb * tb) by (nonlinear_arith)
            requires mj >= 0, 0 <= ta <= tb <= tj0,
                2_000_000_000_000_000_000 * v2 >= mj * tj0 * tj0,
                VEL_COEF == 6_000_000_000_000_000_000i128;
    } else if k == 5 {
        let tv1 = c.t_v1 as int;
        assert(ma * tb * tb - ma * ta * ta == (ma * (ta + tb)) * (tb - ta)) by (nonlinear_arith);
        assert(ma * (ta + tb) <= 2 * (ma * tv1)) by (nonlinear_arith)
            requires ma >= 0, 0 <= ta <= tb <= tv1;
        assert((ma * (ta + tb)) * (tb - ta) <= (2 * (1_000_000_000 * v1)) * (tb - ta))
            by (nonlinear_arith)
            requires ma * (ta + tb) <= 2 * (ma * tv1), ma * tv1 <= 1_000_000_000 * v1,
                ta <= tb;
        assert((ACC_COEF as int) * (ma * tb * tb) - (ACC_COEF as int) * (ma * ta * ta)
            <= (VEL_COEF as int) * (v1 * tb) - (VEL_COEF as int) * (v1 * ta))
            by (nonlinear_arith)
            requires ma * tb * tb - ma * ta * ta
                    <= (2 * (1_000_000_000 * v1)) * (tb - ta),
                ma * tb * tb - ma * ta * ta >= 0 || true,
                VEL_COEF == 6_000_000_000_000_000_000i128,
                ACC_COEF == 3_000_000_000i128;
    } else {
        lemma_mono_jerk_tail(mj, tj0, v0, ta, tb);
    }
}

/// The final jerk ramp's displacement numerator is non-decreasing: the
/// velocity floor keeps the cubic's slope non-negative up to the ramp's
/// end.
proof fn lemma_mono_jerk_tail(mj: int, tj0: int, v0: int, ta: int, tb: int)
    requires
        mj >= 0,
        0 <= ta <= tb <= tj0,
        2_000_000_000_000_000_000 * v0 >= mj * tj0 * tj0,
    ensures
        (VEL_COEF as int) * (v0 * ta) - 3 * (mj * tj0) * (ta * ta) + mj * ta * ta * ta
            <= (VEL_COEF as int) * (v0 * tb) - 3 * (mj * tj0) * (tb * tb) + mj * tb * tb * tb,
{
    let s = ta * ta + ta * tb + tb * tb;
    let u = tj0 * (ta + tb);
    let x = tj0 - ta;
    let y = tj0 - tb;
    assert(mj * tb * tb * tb - mj * ta * ta * ta == mj * ((tb - ta) * s)) by (nonlinear_arith)
        requires s == ta * ta + ta * tb + tb * tb;
    assert(3 * (mj * tj0) * (tb * tb) - 3 * (mj * tj0) * (ta * ta)
        == mj * ((tb - ta) * (3 * u))) by (nonlinear_arith)
        requires u == tj0 * (ta + tb);
    assert(mj * ((tb - ta) * s) - mj * ((tb - ta) * (3 * u))
        == mj * ((tb - ta) * (s - 3 * u))) by (nonlinear_arith);
    assert(s - 3 * u == (x * x + y * y + x * y) - 3 * (tj0 * tj0)) by (nonlinear_arith)
        requires x == tj0 - ta, y == tj0 - tb, s == ta * ta + ta * tb + tb * tb,
            u == tj0 * (ta + tb);
    assert(x * x + y * y + x * y >= 0) by (nonlinear_arith);
    assert(mj * ((tb - ta) * (s - 3 * u)) >= mj * ((tb - ta) * (-3 * (tj0 * tj0))))
        by (nonlinear_arith)
        requires mj >= 0, tb >= ta,
            s - 3 * u == (x * x + y * y + x * y) - 3 * (tj0 * tj0),
            x * x + y * y + x * y >= 0;
    assert(mj * ((tb - ta) * (-3 * (tj0 * tj0))) == -3 * ((mj * tj0 * tj0) * (tb - ta)))
        by (nonlinear_arith);
    assert((mj * tj0 * tj0) * (tb - ta) <= (2_000_000_000_000_000_000 * v0) * (tb - ta))
        by (nonlinear_arith)
        requires mj * tj0 * tj0 <= 2_000_000_000_000_000_000 * v0, tb >= ta;
    assert((VEL_COEF as int) * (v0 * tb) - (VEL_COEF as int) * (v0 * ta)
        == 3 * ((2_000_000_000_000_000_000 * v0) * (tb - ta))) by (nonlinear_arith)
        requires VEL_COEF == 6_000_000_000_000_000_000i128;
}

/// The wf conditions imply the velocity floor facts the monotonicity
/// proofs use.
proof fn lemma_vel_floors(c: SCurve)
    requires
        c.wf(),
    ensures
        2_000_000_000_000_000_000 * c.v0 >= c.m_j * c.t_j0 * c.t_j0,
        2_000_000_000_000_000_000 * c.v2 >= c.m_j * c.t_j0 * c.t_j0,
        1_000_000_000 * c.v1 >= c.m_a * c.t_v1,
        c.v0 >= 0,
        c.v0 <= c.v1 <= c.v2,
{
    let mj = c.m_j as int;
    let ma = c.m_a as int;
    let tj0 = c.t_j0 as int;
    let tv1 = c.t_v1 as int;
    let c2 = mj * tj0 * tj0;
    assert(c2 >= 0) by (nonlinear_arith)
        requires mj >= 0, tj0 >= 0, c2 == mj * tj0 * tj0;
    assert(ma * tv1 >= 0) by (nonlinear_arith)
        requires ma >= 0, tv1 >= 0;
    crate::num::lemma_div_up_range(c2, 2_000_000_000_000_000_000, 0,
        22_000_000_000_000_000_000_000_000_000);
    crate::num::lemma_div_up_range(ma * tv1, 1_000_000_000, 0,
        100_000_000_000_000_000_000_000_000);
    assert(c.v0 == div_up(c2, 2_000_000_000_000_000_000));
    vstd::arithmetic::div_mod::lemma_fundamental_div_mod(
        c2 + 2_000_000_000_000_000_000 - 1, 2_000_000_000_000_000_000);
    vstd::arithmetic::div_mod::lemma_mod_bound(
        c2 + 2_000_000_000_000_000_000 - 1, 2_000_000_000_000_000_000);
    assert(2_000_000_000_000_000_000 * c.v0 >= c2) by {
        let q = div_up(c2, 2_000_000_000_000_000_000);
        assert(2_000_000_000_000_000_000 * q
            == c2 + 2_000_000_000_000_000_000 - 1
                - (c2 + 2_000_000_000_000_000_000 - 1) % 2_000_000_000_000_000_000);
    }
    vstd::arithmetic::div_mod::lemma_fundamental_div_mod(
        ma * tv1 + 1_000_000_000 - 1, 1_000_000_000);
    vstd::arithmetic::div_mod::lemma_mod_bound(
        ma * tv1 + 1_000_000_000 - 1, 1_000_000_000);
    assert(1_000_000_000 * (c.v1 - c.v0) >= ma * tv1) by {
        let q = div_up(ma * tv1, 1_000_000_000);
        assert(1_000_000_000 * q
            == ma * tv1 + 1_000_000_000 - 1 - (ma * tv1 + 1_000_000_000 - 1) % 1_000_000_000);
    }
    assert(1_000_000_000 * c.v1 >= 1_000_000_000 * (c.v1 - c.v0) + 1_000_000_000 * c.v0);
    assert(1_000_000_000 * c.v0 >= 0);
}

/// The boundary displacements never decrease from one phase to the next.
pub proof fn lemma_p_chain(c: SCurve, i: int, j: int)
    requires
        c.wf(),
        0 <= i <= j <= 6,
    ensures
        c.p[i] <= c.p[j],
    decreases j - i,
{
    if i < j {
        lemma_vel_floors(c);
        lemma_stage_start(c, i + 1);
        lemma_stage_num_mono(c, i + 1, 0, stage_dur(c, i + 1));
        lemma_stage_end_is_p(c, i + 1);
        lemma_div_round_mono(stage_num(c, i + 1, 0),
            stage_num(c, i + 1, stage_dur(c, i + 1)), D_POS as int);
        lemma_p_chain(c, i + 1, j);
    }
}

/// The first boundary displacement is not negative.
proof fn lemma_p0_nonneg(c: SCurve)
    requires
        c.wf(),
    ensures
        c.p[0] >= 0,
{
    lemma_vel_floors(c);
    lemma_stage_start(c, 0);
    lemma_stage_num_mono(c, 0, 0, stage_dur(c, 0));
    lemma_stage_end_is_p(c, 0);
    lemma_div_round_mono(stage_num(c, 0, 0), stage_num(c, 0, stage_dur(c, 0)), D_POS as int);
}

/// S-curve monotonicity: the scalar displacement never decreases with
/// trajectory time.
pub proof fn lemma_scurve_monotone(c: SCurve, ta: int, tb: int)
    requires
        c.wf(),
        0 <= ta <= tb <= c.t[6],
    ensures
        scurve_scalar(c, ta) <= scurve_scalar(c, tb),
{
    lemma_vel_floors(c);
    let ka = stage_of(c, ta);
    let kb = stage_of(c, tb);
    if ka == kb {
        lemma_stage_num_mono(c, ka, stage_tau(c, ta), stage_tau(c, tb));
        lemma_div_round_mono(stage_num(c, ka, stage_tau(c, ta)),
            stage_num(c, ka, stage_tau(c, tb)), D_POS as int);
    } else {
        // scalar(ta) <= p[ka] <= p[kb - 1] <= scalar(tb)
        lemma_stage_num_mono(c, ka, stage_tau(c, ta), stage_dur(c, ka));
        lemma_stage_end_is_p(c, ka);
        lemma_div_round_mono(stage_num(c, ka, stage_tau(c, ta)),
            stage_num(c, ka, stage_dur(c, ka)), D_POS as int);
        lemma_p_chain(c, ka, kb - 1);
        lemma_stage_start(c, kb);
        lemma_stage_num_mono(c, kb, 0, stage_tau(c, tb));
        lemma_div_round_mono(stage_num(c, kb, 0), stage_num(c, kb, stage_tau(c, tb)),
            D_POS as int);
    }
}

/// The scalar displacement stays between zero and the final boundary
/// displacement.
pub proof fn lemma_scalar_in_range(c: SCurve, t: int)
    requires
        c.wf(),
        0 <= t <= c.t[6],
    ensures
        0 <= scurve_scalar(c, t) <= c.p[6],
{
    lemma_scurve_monotone(c, 0, t);
    lemma_scurve_monotone(c, t, c.t[6] as int);
    lemma_stage_start(c, 0);
    assert(stage_of(c, 0) == 0);
    assert(scurve_scalar(c, 0) == div_round(stage_num(c, 0, 0), D_POS as int));
    lemma_stage_end_is_p(c, 6);
    assert(stage_of(c, c.t[6] as int) == 6);
    assert(stage_tau(c, c.t[6] as int) == stage_dur(c, 6));
}

/// Rest conditions at the ends of the trajectory: velocity and
/// acceleration both start at exactly zero; at the total time the
/// acceleration is exactly zero again and the velocity is non-negative and
/// below one nm/s (the residue of rounding the ramp velocity up).
pub proof fn lemma_scurve_rest(c: SCurve)
    requires
        c.wf(),
    ensures
        svel_num(c, 0, 0) == 0,
        sacc_num(c, 0, 0) == 0,
        0 <= svel_num(c, 6, c.t_j0 as int) < 2_000_000_000_000_000_000,
        sacc_num(c, 6, c.t_j0 as int) == 0,
{
    let mj = c.m_j as int;
    let tj0 = c.t_j0 as int;
    assert(mj * 0 * 0 == 0) by (nonlinear_arith);
    assert(mj * 0 == 0) by (nonlinear_arith);
    lemma_vel_floors(c);
    assert(svel_num(c, 6, tj0) == 2_000_000_000_000_000_000 * c.v0 - 2 * (mj * tj0) * tj0
        + mj * tj0 * tj0);
    assert(2 * (mj * tj0) * tj0 == 2 * (mj * tj0 * tj0) && mj * tj0 * tj0 == (mj * tj0) * tj0)
        by (nonlinear_arith);
    assert(2_000_000_000_000_000_000 * c.v0 < mj * tj0 * tj0 + 2_000_000_000_000_000_000) by {
        let c2 = mj * tj0 * tj0;
        assert(c2 >= 0) by (nonlinear_arith)
            requires mj >= 0, tj0 >= 0, c2 == mj * tj0 * tj0;
        vstd::arithmetic::div_mod::lemma_fundamental_div_mod(
            c2 + 2_000_000_000_000_000_000 - 1, 2_000_000_000_000_000_000);
        vstd::arithmetic::div_mod::lemma_mod_bound(
            c2 + 2_000_000_000_000_000_000 - 1, 2_000_000_000_000_000_000);
        let q = div_up(c2, 2_000_000_000_000_000_000);
        assert(2_000_000_000_000_000_000 * q
            == c2 + 2_000_000_000_000_000_000 - 1
                - (c2 + 2_000_000_000_000_000_000 - 1) % 2_000_000_000_000_000_000);
    }
}


/// The velocity stays between rest and the peak velocity throughout the
/// profile: in every phase the velocity numerator (at 2 * 10^18 units per
/// nm/s) lies in [0, 2 * 10^18 * v2].
pub proof fn lemma_scurve_velocity_bounded(c: SCurve, k: int, tau: int)
    requires
        c.wf(),
        0 <= k <= 6,
        0 <= tau <= stage_dur(c, k),
    ensures
        0 <= svel_num(c, k, tau) <= 2_000_000_000_000_000_000 * c.v2,
{
    lemma_vel_floors(c);
    let mj = c.m_j as int;
    let ma = c.m_a as int;
    let tj0 = c.t_j0 as int;
    let tv1 = c.t_v1 as int;
    if k == 0 {
        assert(0 <= mj * tau * tau <= mj * tj0 * tj0) by (nonlinear_arith)
            requires mj >= 0, 0 <= tau <= tj0;
    } else if k == 1 || k == 5 {
        assert(0 <= ma * tau <= ma * tv1) by (nonlinear_arith)
            requires ma >= 0, 0 <= tau <= tv1;
        assert(1_000_000_000 * (c.v1 - c.v0) >= ma * tv1);
    } else if k == 2 || k == 6 {
        assert(0 <= 2 * (mj * tj0) * tau - mj * tau * tau
            && 2 * (mj * tj0) * tau - mj * tau * tau <= mj * tj0 * tj0) by (nonlinear_arith)
            requires mj >= 0, 0 <= tau <= tj0;
    } else if k == 4 {
        assert(0 <= mj * tau * tau <= mj * tj0 * tj0) by (nonlinear_arith)
            requires mj >= 0, 0 <= tau <= tj0;
    }
}

/// The acceleration magnitude never exceeds the configured ceiling by more
/// than one unit of rounding: in every phase the acceleration numerator
/// (at 10^9 units per nm/s^2) lies within +/- (10^9 * m_a + 10^9).
pub proof fn lemma_scurve_acceleration_bounded(c: SCurve, k: int, tau: int)
    requires
        c.wf(),
        0 <= k <= 6,
        0 <= tau <= stage_dur(c, k),
    ensures
        -(1_000_000_000 * c.m_a + 1_000_000_000) <= sacc_num(c, k, tau)
            <= 1_000_000_000 * c.m_a + 1_000_000_000,
{
    let mj = c.m_j as int;
    let tj0 = c.t_j0 as int;
    if k == 0 || k == 4 {
        assert(0 <= mj * tau <= mj * tj0) by (nonlinear_arith)
            requires mj >= 0, 0 <= tau <= tj0;
    } else if k == 2 || k == 6 {
        assert(0 <= mj * tau <= mj * tj0) by (nonlinear_arith)
            requires mj >= 0, 0 <= tau <= tj0;
    }
}

/// The interpolated offset along one axis: the axis delta scaled by the
/// travelled fraction of the segment, rounded once.
pub open spec fn interp_off_sp(delta: int, s_nm: int, len: int) -> int {
    div_round(delta * s_nm, len)
}

/// The pen position of curve `c` at scalar displacement `s_nm`.
pub open spec fn curve_pos_sp(c: SCurve, s_nm: int) -> PositionMM {
    PositionMM { xy: [
        (c.start.xy[0] + interp_off_sp(c.delta[0] as int, s_nm, c.len as int)) as i64,
        (c.start.xy[1] + interp_off_sp(c.delta[1] as int, s_nm, c.len as int)) as i64,
    ] }
}

/// The interpolated offset never overshoots the axis delta by more than
/// the endpoint slack.
proof fn lemma_interp_bound(delta: int, s_nm: int, len: int)
    requires
        1 <= len <= 3_000_000_000_000,
        -2_000_000_000 <= delta <= 2_000_000_000,
        -len <= delta * 1000 <= len,
        0 <= s_nm <= len + len / 1_000_000 + 4,
    ensures
        delta >= 0 ==> 0 <= interp_off_sp(delta, s_nm, len) <= delta + 2_003,
        delta < 0 ==> delta - 2_003 <= interp_off_sp(delta, s_nm, len) <= 0,
{
    let q = div_round(delta * s_nm, len);
    crate::num::lemma_div_round_err(delta * s_nm, len);
    assert(1_000_000 * (len / 1_000_000) <= len && len / 1_000_000 >= 0) by {
        vstd::arithmetic::div_mod::lemma_fundamental_div_mod(len, 1_000_000);
        vstd::arithmetic::div_mod::lemma_mod_bound(len, 1_000_000);
    }
    assert(div_round(0, len) == 0) by {
        lemma_div_round_exact(0, len);
        assert(0 * len == 0) by (nonlinear_arith);
    }
    if delta >= 0 {
        assert(delta * s_nm >= 0) by (nonlinear_arith)
            requires delta >= 0, s_nm >= 0;
        crate::num::lemma_div_round_mono(0, delta * s_nm, len);
        assert(delta * s_nm <= delta * len + delta * (len / 1_000_000) + 4 * delta)
            by (nonlinear_arith)
            requires delta >= 0, s_nm <= len + len / 1_000_000 + 4;
        assert(delta * (len / 1_000_000) <= 2_000_000_000 * (len / 1_000_000))
            by (nonlinear_arith)
            requires delta <= 2_000_000_000, len / 1_000_000 >= 0;
        assert(2_000_000_000 * (len / 1_000_000) <= 2_000 * len) by (nonlinear_arith)
            requires 1_000_000 * (len / 1_000_000) <= len, len / 1_000_000 >= 0;
        assert(4 * delta <= len) by (nonlinear_arith)
            requires delta * 1000 <= len, delta >= 0, len >= 1;
        if q > delta + 2_003 {
            assert(q * len >= delta * len + 2_004 * len) by (nonlinear_arith)
                requires q >= delta + 2_004, len >= 1;
            assert(q * len - delta * s_nm <= len / 2);
            assert(len / 2 <= len) by {
                vstd::arithmetic::div_mod::lemma_fundamental_div_mod(len, 2);
                vstd::arithmetic::div_mod::lemma_mod_bound(len, 2);
            }
            assert(false);
        }
    } else {
        assert(delta * s_nm <= 0) by (nonlinear_arith)
            requires delta < 0, s_nm >= 0;
        crate::num::lemma_div_round_mono(delta * s_nm, 0, len);
        assert(delta * s_nm >= delta * len + delta * (len / 1_000_000) + 4 * delta)
            by (nonlinear_arith)
            requires delta < 0, s_nm <= len + len / 1_000_000 + 4, s_nm >= 0;
        assert(delta * (len / 1_000_000) >= -(2_000_000_000 * (len / 1_000_000)))
            by (nonlinear_arith)
            requires delta >= -2_000_000_000, len / 1_000_000 >= 0;
        assert(2_000_000_000 * (len / 1_000_000) <= 2_000 * len) by (nonlinear_arith)
            requires 1_000_000 * (len / 1_000_000) <= len, len / 1_000_000 >= 0;
        assert(4 * delta >= -len) by (nonlinear_arith)
            requires -len <= delta * 1000, delta < 0, len >= 1;
        if q < delta - 2_003 {
            assert(q * len <= delta * len - 2_004 * len) by (nonlinear_arith)
                requires q <= delta - 2_004, len >= 1;
            assert(delta * s_nm - q * len <= len / 2);
            assert(len / 2 <= len) by {
                vstd::arithmetic::div_mod::lemma_fundamental_div_mod(len, 2);
                vstd::arithmetic::div_mod::lemma_mod_bound(len, 2);
            }
            assert(false);
        }
    }
}

impl SCurve {
    /// The ideal fine step counts at `elapsed_ns` nanoseconds into the
    /// trajectory: evaluate the scalar profile, move that far from the
    /// start towards the end, and take the inverse kinematics of the
    /// resulting point.
    pub fn get_desired(&self, solver: &SCurveSolver, physical: &Physical, elapsed_ns: i64)
        -> (r: PositionStepFine)
        requires
            self.wf(),
            physical.wf(),
            solver.m_j == self.m_j,
            solver.m_a == self.m_a,
            0 <= elapsed_ns <= self.t[6],
        ensures
            r.rr[0] == physical.motor_fine_sp(
                curve_pos_sp(*self, scurve_scalar(*self, elapsed_ns as int)), 0),
            r.rr[1] == physical.motor_fine_sp(
                curve_pos_sp(*self, scurve_scalar(*self, elapsed_ns as int)), 1),
            0 <= r.rr[0] <= 3_000_000_000_000_000,
            0 <= r.rr[1] <= 3_000_000_000_000_000,
    {
        let ghost t = elapsed_ns as int;
        proof {
            lemma_vel_floors(*self);
        }
        let mj: i64 = self.m_j;
        let ma: i64 = self.m_a;
        let tj0: i64 = self.t_j0;
        proof {
            assert(0 <= mj as int * tj0 as int
                && mj as int * tj0 as int <= 100_000_000_000_000_000_000_000) by (nonlinear_arith)
                requires 1 <= mj, 1 <= tj0, mj as int * tj0 as int
                    <= 100_000_000_000_000_000_000_000 || mj * tj0 <= 100_000_000_000_000_000_000_000;
        }
        let c1: i128 = mj as i128 * tj0 as i128;
        let n: i128 = if elapsed_ns < self.t[0] {
            let tau: i64 = elapsed_ns;
            proof {
                lemma_jerk_term_bounds(mj as int, tj0 as int, tau as int);
            }
            mj as i128 * tau as i128 * tau as i128 * tau as i128
        } else if elapsed_ns < self.t[1] {
            let tau: i64 = elapsed_ns - self.t[0];
            proof {
                lemma_vel_acc_term_bounds(self.v0 as int, self.v1 as int, self.v2 as int,
                    ma as int, tau as int, self.t_v1 as int, self.t_c3 as int);
            }
            D_POS * self.p[0] as i128 + VEL_COEF * (self.v0 as i128 * tau as i128)
                + ACC_COEF * (ma as i128 * tau as i128 * tau as i128)
        } else if elapsed_ns < self.t[2] {
            let tau: i64 = elapsed_ns - self.t[1];
            proof {
                lemma_jerk_term_bounds(mj as int, tj0 as int, tau as int);
                lemma_vel_acc_term_bounds(self.v0 as int, self.v1 as int, self.v2 as int,
                    ma as int, tau as int, self.t_v1 as int, self.t_c3 as int);
            }
            proof {
                assert(3 * ((mj as int * tj0 as int) * (tau as int * tau as int))
                    == 3 * (mj as int * tj0 as int) * (tau as int * tau as int))
                    by (nonlinear_arith);
            }
            D_POS * self.p[1] as i128 + VEL_COEF * (self.v1 as i128 * tau as i128)
                + 3 * (c1 * (tau as i128 * tau as i128))
                - mj as i128 * tau as i128 * tau as i128 * tau as i128
        } else if elapsed_ns < self.t[3] {
            let tau: i64 = elapsed_ns - self.t[2];
            proof {
                lemma_vel_acc_term_bounds(self.v0 as int, self.v1 as int, self.v2 as int,
                    ma as int, tau as int, self.t_v1 as int, self.t_c3 as int);
                assert(self.v2 as int * tau as int <= self.v2 as int * self.t_c3 as int)
                    by (nonlinear_arith)
                    requires 0 <= tau <= self.t_c3, self.v2 >= 0;
            }
            D_POS * self.p[2] as i128 + VEL_COEF * (self.v2 as i128 * tau as i128)
        } else if elapsed_ns < self.t[4] {
            let tau: i64 = elapsed_ns - self.t[3];
            proof {
                lemma_jerk_term_bounds(mj as int, tj0 as int, tau as int);
                lemma_vel_acc_term_bounds(self.v0 as int, self.v1 as int, self.v2 as int,
                    ma as int, tau as int, self.t_v1 as int, self.t_c3 as int);
            }
            D_POS * self.p[3] as i128 + VEL_COEF * (self.v2 as i128 * tau as i128)
                - mj as i128 * tau as i128 * tau as i128 * tau as i128
        } else if elapsed_ns < self.t[5] {
            let tau: i64 = elapsed_ns - self.t[4];
            proof {
                lemma_vel_acc_term_bounds(self.v0 as int, self.v1 as int, self.v2 as int,
                    ma as int, tau as int, self.t_v1 as int, self.t_c3 as int);
            }
            D_POS * self.p[4] as i128 + VEL_COEF * (self.v1 as i128 * tau as i128)
                - ACC_COEF * (ma as i128 * tau as i128 * tau as i128)
        } else {
            let tau: i64 = elapsed_ns - self.t[5];
            proof {
                lemma_jerk_term_bounds(mj as int, tj0 as int, tau as int);
                lemma_vel_acc_term_bounds(self.v0 as int, self.v1 as int, self.v2 as int,
                    ma as int, tau as int, self.t_v1 as int, self.t_c3 as int);
            }
            proof {
                assert(3 * ((mj as int * tj0 as int) * (tau as int * tau as int))
                    == 3 * (mj as int * tj0 as int) * (tau as int * tau as int))
                    by (nonlinear_arith);
            }
            D_POS * self.p[5] as i128 + VEL_COEF * (self.v0 as i128 * tau as i128)
                - 3 * (c1 * (tau as i128 * tau as i128))
                + mj as i128 * tau as i128 * tau as i128 * tau as i128
        };
        proof {
            assert(n == stage_num(*self, stage_of(*self, t), stage_tau(*self, t)));
            lemma_div_round_range(n as int, D_POS as int,
                -160_000_000_000_000_000_000_000_000_000_000_000_000,
                160_000_000_000_000_000_000_000_000_000_000_000_000);
        }
        let sq: i128 = div_round_i128(n, D_POS);
        proof {
            lemma_scalar_in_range(*self, t);
        }
        let s_nm: i64 = sq as i64;
        proof {
            lemma_interp_bound(self.delta[0] as int, s_nm as int, self.len as int);
            lemma_interp_bound(self.delta[1] as int, s_nm as int, self.len as int);
            assert(-8_000_000_000_000_000_000_000_000 <= self.delta[0] as int * s_nm as int
                <= 8_000_000_000_000_000_000_000_000
                && -8_000_000_000_000_000_000_000_000 <= self.delta[1] as int * s_nm as int
                <= 8_000_000_000_000_000_000_000_000) by (nonlinear_arith)
                requires -2_000_000_000 <= self.delta[0] <= 2_000_000_000,
                    -2_000_000_000 <= self.delta[1] <= 2_000_000_000,
                    0 <= s_nm <= 4_000_000_000_000;
        }
        let off_x: i128 = div_round_i128(self.delta[0] as i128 * s_nm as i128, self.len as i128);
        let off_y: i128 = div_round_i128(self.delta[1] as i128 * s_nm as i128, self.len as i128);
        let pos = PositionMM::new([
            self.start.x() + off_x as i64,
            self.start.y() + off_y as i64,
        ]);
        physical.get_motor_dist_fine(&pos)
    }
}

/// Bounds of the jerk term of a displacement numerator.
proof fn lemma_jerk_term_bounds(mj: int, tj0: int, tau: int)
    requires
        1 <= mj,
        1 <= tj0 <= 100_000_000,
        0 <= tau <= tj0,
        mj * tj0 <= 100_000_000_000_000_000_000_000,
        mj * tj0 * tj0 <= 22_000_000_000_000_000_000_000_000_000,
    ensures
        0 <= mj * tau <= mj * tj0,
        0 <= mj * tau * tau <= mj * tj0 * tj0,
        0 <= mj * tau * tau * tau <= 2_200_000_000_000_000_000_000_000_000_000_000_000,
        0 <= (mj * tj0) * (tau * tau) <= 2_200_000_000_000_000_000_000_000_000_000_000_000,
        0 <= tau * tau <= 10_000_000_000_000_000,
{
    assert(0 <= mj * tau <= mj * tj0
        && 0 <= mj * tau * tau <= mj * tj0 * tj0
        && mj * tau * tau * tau <= (mj * tj0 * tj0) * tj0
        && 0 <= mj * tau * tau * tau
        && (mj * tj0) * (tau * tau) <= (mj * tj0 * tj0) * tj0
        && 0 <= (mj * tj0) * (tau * tau)
        && 0 <= tau * tau <= 10_000_000_000_000_000
        && (mj * tj0 * tj0) * tj0 <= 2_200_000_000_000_000_000_000_000_000_000_000_000)
        by (nonlinear_arith)
        requires 1 <= mj, 1 <= tj0 <= 100_000_000, 0 <= tau <= tj0,
            mj * tj0 * tj0 <= 22_000_000_000_000_000_000_000_000_000;
}

/// Bounds of the velocity and acceleration terms of a displacement
/// numerator, by the phase the local time lies in.
proof fn lemma_vel_acc_term_bounds(v0: int, v1: int, v2: int, ma: int, tau: int, tv1: int,
    tc3: int)
    requires
        0 <= v0 <= v1 <= v2 <= 42_000_000_000,
        1 <= ma <= 100_000_000_000_000,
        0 <= tau,
        0 <= tv1 <= 1_000_000_000,
        0 <= tc3 <= 100_000_000_000,
        v2 * tc3 <= 2_000_000_000_000_000_000,
        v1 * tv1 <= 2_000_000_000_000_000_000,
        ma * tv1 * tv1 <= 2_000_000_000_000_000_000_000_000_000,
    ensures
        tau <= 100_000_000 ==> 0 <= v0 * tau <= 4_200_000_000_000_000_000
            && 0 <= v1 * tau <= 4_200_000_000_000_000_000
            && 0 <= v2 * tau <= 4_200_000_000_000_000_000,
        tau <= tv1 ==> 0 <= v0 * tau <= 2_000_000_000_000_000_000
            && 0 <= v1 * tau <= 2_000_000_000_000_000_000
            && 0 <= ma * tau <= 100_000_000_000_000_000_000_000
            && 0 <= ma * tau * tau <= 2_000_000_000_000_000_000_000_000_000,
        tau <= tc3 ==> 0 <= v2 * tau <= 2_000_000_000_000_000_000,
{
    if tau <= 100_000_000 {
        assert(0 <= v0 * tau <= 4_200_000_000_000_000_000
            && 0 <= v1 * tau <= 4_200_000_000_000_000_000
            && 0 <= v2 * tau <= 4_200_000_000_000_000_000) by (nonlinear_arith)
            requires 0 <= v0 <= v1 <= v2 <= 42_000_000_000, 0 <= tau <= 100_000_000;
    }
    if tau <= tv1 {
        assert(0 <= v0 * tau <= v1 * tv1 && 0 <= v1 * tau <= v1 * tv1
            && 0 <= ma * tau <= 100_000_000_000_000_000_000_000
            && 0 <= ma * tau * tau <= ma * tv1 * tv1) by (nonlinear_arith)
            requires 0 <= v0 <= v1, 0 <= tau <= tv1, 1 <= ma <= 100_000_000_000_000,
                tv1 <= 1_000_000_000, v1 * tv1 >= v0 * tau || true;
    }
    if tau <= tc3 {
        assert(0 <= v2 * tau <= v2 * tc3) by (nonlinear_arith)
            requires 0 <= v2, 0 <= tau <= tc3;
    }
}


impl SCurveSolver {
    /// Solve a trajectory for the segment from `start` to `end`.
    ///
    /// The regime is picked by the segment length: at or above the coast
    /// threshold, the solver's phase durations are kept and the coast time
    /// is solved so that the profile's end lands on the segment length;
    /// between the two thresholds the coast is dropped and the
    /// constant-acceleration time is solved from the discriminant of the
    /// remaining quadratic; below the lower threshold both middle phases
    /// are dropped and the jerk time is the cube root of the remaining
    /// equation.  Fails when the segment is degenerate, a derived duration
    /// leaves its range, or the solved profile misses the segment end by
    /// more than the endpoint tolerance.
    pub fn solve_curve(&self, start: PositionMM, end: PositionMM)
        -> (r: Result<SCurve, &'static str>)
        requires
            self.wf(),
            -(crate::position::COORD_MAX - COORD_MARGIN) <= start.xy[0]
                <= crate::position::COORD_MAX - COORD_MARGIN,
            -(crate::position::COORD_MAX - COORD_MARGIN) <= start.xy[1]
                <= crate::position::COORD_MAX - COORD_MARGIN,
            -(crate::position::COORD_MAX - COORD_MARGIN) <= end.xy[0]
                <= crate::position::COORD_MAX - COORD_MARGIN,
            -(crate::position::COORD_MAX - COORD_MARGIN) <= end.xy[1]
                <= crate::position::COORD_MAX - COORD_MARGIN,
        ensures
            (r matches Ok(c) ==> c.wf()
                && c.start == start
                && c.delta[0] == end.xy[0] - start.xy[0]
                && c.delta[1] == end.xy[1] - start.xy[1]
                && c.m_j == self.m_j && c.m_a == self.m_a
                && c.len == dist_nm_sp(start, end)
                && c.p[6] - c.len <= endpoint_tol_sp(c.len as int)
                && c.len - c.p[6] <= endpoint_tol_sp(c.len as int)),
            (r is Ok <==> ({
                let len = dist_nm_sp(start, end);
                if len >= self.min_dist_truncated_coast {
                    coast_ok_sp(*self, len)
                } else if len > self.min_dist_truncated_max_acceleration {
                    mid_ok_sp(*self, len)
                } else {
                    short_ok_sp(*self, len)
                }
            })),
            (r is Ok && dist_nm_sp(start, end) >= self.min_dist_truncated_coast
                ==> r->Ok_0.t_j0 == self.t_j0 && r->Ok_0.t_v1 == self.t_v1
                    && r->Ok_0.t_c3 == coast_tc3_sp(*self, dist_nm_sp(start, end))),
            (r is Ok && dist_nm_sp(start, end) < self.min_dist_truncated_coast
                && dist_nm_sp(start, end) > self.min_dist_truncated_max_acceleration
                ==> r->Ok_0.t_j0 == self.t_j0 && r->Ok_0.t_c3 == 0
                    && r->Ok_0.t_v1 == mid_tv1_sp(*self, dist_nm_sp(start, end))
                    && r->Ok_0.t_v1 > 0),
            (r is Ok && dist_nm_sp(start, end) < self.min_dist_truncated_coast
                && dist_nm_sp(start, end) <= self.min_dist_truncated_max_acceleration
                ==> r->Ok_0.t_v1 == 0 && r->Ok_0.t_c3 == 0
                    && r->Ok_0.t_j0 == short_tj0_sp(*self, dist_nm_sp(start, end))),
    {
        let dist: i64 = start.dist(&end);
        if dist >= self.min_dist_truncated_coast {
            self.solve_truncated_coast_curve(start, end)
        } else if dist > self.min_dist_truncated_max_acceleration {
            self.solve_truncated_max_acceleration_curve(start, end)
        } else {
            self.solve_truncated_max_jerk_curve(start, end)
        }
    }

    /// Solve the full regime: keep the solver's phase durations and choose
    /// the coast time that puts the profile's end on the segment length.
    fn solve_truncated_coast_curve(&self, start: PositionMM, end: PositionMM)
        -> (r: Result<SCurve, &'static str>)
        requires
            self.wf(),
            -(crate::position::COORD_MAX - COORD_MARGIN) <= start.xy[0]
                <= crate::position::COORD_MAX - COORD_MARGIN,
            -(crate::position::COORD_MAX - COORD_MARGIN) <= start.xy[1]
                <= crate::position::COORD_MAX - COORD_MARGIN,
            -(crate::position::COORD_MAX - COORD_MARGIN) <= end.xy[0]
                <= crate::position::COORD_MAX - COORD_MARGIN,
            -(crate::position::COORD_MAX - COORD_MARGIN) <= end.xy[1]
                <= crate::position::COORD_MAX - COORD_MARGIN,
        ensures
            (r is Ok <==> coast_ok_sp(*self, dist_nm_sp(start, end))),
            (r matches Ok(c) ==> c.wf()
                && c.start == start
                && c.delta[0] == end.xy[0] - start.xy[0]
                && c.delta[1] == end.xy[1] - start.xy[1]
                && c.m_j == self.m_j && c.m_a == self.m_a
                && c.t_j0 == self.t_j0 && c.t_v1 == self.t_v1
                && c.t_c3 == coast_tc3_sp(*self, dist_nm_sp(start, end))
                && c.len == dist_nm_sp(start, end)),
    {
        let p: i64 = start.dist(&end);
        // displacement of everything but the coast, from a zero-length coast
        let (v, pr) = match eval_profile(self.m_j, self.m_a, self.t_j0, self.t_v1, 0) {
            Ok(vp) => vp,
            Err(e) => {
                return Err(e);
            }
        };
        if v[2] < 1 {
            return Err("no coast velocity");
        }
        let travelled: i64 = pr[6];
        if p < travelled {
            return Err("segment shorter than the coast threshold");
        }
        proof {
            assert(0 <= (p - travelled) as int * 1_000_000_000
                <= 4_000_000_000_000_000_000_000) by (nonlinear_arith)
                requires 0 <= p - travelled <= 3_100_000_000_000;
            lemma_div_round_range((p - travelled) as int * 1_000_000_000, v[2] as int,
                0, 4_000_000_000_000_000_000_000);
        }
        let t_c3_w: i128 = div_round_i128((p as i128 - travelled as i128) * 1_000_000_000,
            v[2] as i128);
        if t_c3_w > 100_000_000_000 {
            return Err("coast duration out of range");
        }
        let t_c3: i64 = t_c3_w as i64;
        SCurve::new(start, end, self.t_j0, self.t_v1, t_c3, self)
    }

    /// Solve the middle regime: no coast, and the constant-acceleration
    /// time from the positive root of the remaining quadratic.
    fn solve_truncated_max_acceleration_curve(&self, start: PositionMM, end: PositionMM)
        -> (r: Result<SCurve, &'static str>)
        requires
            self.wf(),
            -(crate::position::COORD_MAX - COORD_MARGIN) <= start.xy[0]
                <= crate::position::COORD_MAX - COORD_MARGIN,
            -(crate::position::COORD_MAX - COORD_MARGIN) <= start.xy[1]
                <= crate::position::COORD_MAX - COORD_MARGIN,
            -(crate::position::COORD_MAX - COORD_MARGIN) <= end.xy[0]
                <= crate::position::COORD_MAX - COORD_MARGIN,
            -(crate::position::COORD_MAX - COORD_MARGIN) <= end.xy[1]
                <= crate::position::COORD_MAX - COORD_MARGIN,
        ensures
            (r is Ok <==> mid_ok_sp(*self, dist_nm_sp(start, end))),
            (r matches Ok(c) ==> c.wf()
                && c.start == start
                && c.delta[0] == end.xy[0] - start.xy[0]
                && c.delta[1] == end.xy[1] - start.xy[1]
                && c.m_j == self.m_j && c.m_a == self.m_a
                && c.t_j0 == self.t_j0 && c.t_c3 == 0
                && c.t_v1 == mid_tv1_sp(*self, dist_nm_sp(start, end))
                && c.t_v1 > 0
                && c.len == dist_nm_sp(start, end)),
    {
        let p: i64 = start.dist(&end);
        proof {
            assert(0 <= self.m_a as int * self.t_j0 as int
                    <= 10_000_000_000_000_000_000_000
                && 0 <= self.m_a as int * p as int
                    <= 300_000_000_000_000_000_000_000_000) by (nonlinear_arith)
                requires 1 <= self.m_a <= 100_000_000_000_000, 1 <= self.t_j0 <= 100_000_000,
                    0 <= p <= 3_000_000_000_000;
            lemma_div_round_range(self.m_a as int * self.t_j0 as int, 1_000_000_000,
                0, 10_000_000_000_000_000_000_000);
            lemma_div_round_range(self.m_j * self.t_j0 * self.t_j0, 1_000_000_000_000_000_000,
                0, 22_000_000_000_000_000_000_000_000_000);
        }
        // ramp velocities in nm/s
        let a_vel: i128 = div_round_i128(self.m_a as i128 * self.t_j0 as i128, 1_000_000_000);
        let b_vel: i128 = div_round_i128(
            self.m_j as i128 * self.t_j0 as i128 * self.t_j0 as i128, 1_000_000_000_000_000_000);
        proof {
            assert(0 <= 6 * (a_vel as int * a_vel as int)
                    <= 600_000_000_000_000_000_000_000_000
                && 0 <= 6 * (a_vel as int * b_vel as int)
                    <= 1_400_000_000_000_000_000_000_000_000_000
                && 0 <= b_vel as int * b_vel as int
                    <= 500_000_000_000_000_000_000_000) by (nonlinear_arith)
                requires 0 <= a_vel <= 10_000_000_000_000, 0 <= b_vel <= 22_000_000_000;
        }
        let disc: i128 = 6 * (a_vel * a_vel) - 6 * (a_vel * b_vel)
            + 4 * (self.m_a as i128 * p as i128) + b_vel * b_vel;
        if disc < 0 {
            return Err("no solution in the middle regime");
        }
        let x_u: u128 = isqrt_u128(disc as u128);
        proof {
            assert(disc < 2_100_000_000_000_000_000_000_000_000_000);
            assert(is_sqrt(disc as int, x_u as int));
            crate::position::lemma_sqrt_floor_is(disc as int, x_u as int);
            assert((x_u as int) * (x_u as int) <= disc as int);
            assert(x_u <= 46_000_000_000_000_000) by (nonlinear_arith)
                requires (x_u as int) * (x_u as int) <= disc as int, x_u >= 0,
                    disc < 2_100_000_000_000_000_000_000_000_000_000;
        }
        let x: i128 = x_u as i128;
        let num: i128 = (x - 2 * a_vel - b_vel) * 1_000_000_000;
        proof {
            lemma_div_round_range(num as int, 2 * self.m_a as int,
                -100_000_000_000_000_000_000_000_000_000,
                100_000_000_000_000_000_000_000_000_000);
        }
        let t_v1_w: i128 = div_round_i128(num, 2 * self.m_a as i128);
        if t_v1_w <= 0 {
            return Err("Need to add in second solution");
        }
        if t_v1_w > 1_000_000_000 {
            return Err("acceleration phase duration out of range");
        }
        SCurve::new(start, end, self.t_j0, t_v1_w as i64, 0, self)
    }

    /// Solve the short regime: only the four jerk ramps, with the jerk
    /// time the cube root of the remaining equation.
    fn solve_truncated_max_jerk_curve(&self, start: PositionMM, end: PositionMM)
        -> (r: Result<SCurve, &'static str>)
        requires
            self.wf(),
            -(crate::position::COORD_MAX - COORD_MARGIN) <= start.xy[0]
                <= crate::position::COORD_MAX - COORD_MARGIN,
            -(crate::position::COORD_MAX - COORD_MARGIN) <= start.xy[1]
                <= crate::position::COORD_MAX - COORD_MARGIN,
            -(crate::position::COORD_MAX - COORD_MARGIN) <= end.xy[0]
                <= crate::position::COORD_MAX - COORD_MARGIN,
            -(crate::position::COORD_MAX - COORD_MARGIN) <= end.xy[1]
                <= crate::position::COORD_MAX - COORD_MARGIN,
        ensures
            (r is Ok <==> short_ok_sp(*self, dist_nm_sp(start, end))),
            (r matches Ok(c) ==> c.wf()
                && c.start == start
                && c.delta[0] == end.xy[0] - start.xy[0]
                && c.delta[1] == end.xy[1] - start.xy[1]
                && c.m_j == self.m_j && c.m_a == self.m_a
                && c.t_v1 == 0 && c.t_c3 == 0
                && c.t_j0 == short_tj0_sp(*self, dist_nm_sp(start, end))
                && c.len == dist_nm_sp(start, end)),
    {
        let p: i64 = start.dist(&end);
        proof {
            assert(0 <= 4 * (p as int) * 1_000_000_000_000_000_000
                <= 12_000_000_000_000_000_000_000_000_000_000) by (nonlinear_arith)
                requires 0 <= p <= 3_000_000_000_000;
            lemma_div_round_range(4 * (p as int) * 1_000_000_000_000_000_000, self.m_j as int,
                0, 12_000_000_000_000_000_000_000_000_000_000);
        }
        let scaled: i128 = div_round_i128(4 * p as i128 * 1_000_000_000_000_000_000,
            self.m_j as i128);
        if scaled > 10_000_000_000_000_000 {
            return Err("segment too long for the short regime");
        }
        // remaining factor of 10^9 to reach cubic nanosecond scale
        let m: u128 = (scaled as u128) * 1_000_000_000;
        let c: u128 = icbrt_u128(m);
        proof {
            lemma_cbrt_floor_is(m as int, c as int);
            lemma_div_round_range(c as int, 2, 0, 220_000_000_000);
        }
        let t_j0_w: i128 = div_round_i128(c as i128, 2);
        if t_j0_w < 1 || t_j0_w > 100_000_000 {
            return Err("jerk phase duration out of range");
        }
        SCurve::new(start, end, t_j0_w as i64, 0, 0, self)
    }
}

} // verus!
