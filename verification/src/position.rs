//! Pen positions in three coordinate systems: Cartesian millimetre space
//! (held at micrometre resolution), whole motor steps, and fine motor steps
//! (steps scaled by 10^6).  A `Position` keeps a millimetre point and its
//! step image consistent through the machine's kinematics.

use vstd::prelude::*;

use crate::motor::StepInstruction;
use crate::num::{div_round, div_round_i128, is_sqrt, isqrt_u128, lemma_div_round_range};
use crate::physical::Physical;

verus! {

/// Coordinates are kept within +/- 1 km so that squares and scaled products
/// stay far inside `i128` and step counts inside `usize`.
pub const COORD_MAX: i64 = 1_000_000_000;

/// Scale of a direction vector: a unit vector's components multiplied by
/// 10^6.
pub const DIR_SCALE: i64 = 1_000_000;

/// The integer square root of `n`, rounded down.
pub open spec fn sqrt_floor(n: int) -> int {
    choose|r: int| is_sqrt(n, r)
}

/// Two integers satisfying the square-root characterization are equal, so
/// `sqrt_floor` names the one square root.
pub proof fn lemma_sqrt_floor_is(n: int, r: int)
    requires
        is_sqrt(n, r),
    ensures
        sqrt_floor(n) == r,
{
    let s = sqrt_floor(n);
    assert(is_sqrt(n, s));
    if s < r {
        assert((s + 1) * (s + 1) <= r * r) by (nonlinear_arith)
            requires 0 <= s, 0 <= r, s + 1 <= r;
        assert(false);
    }
    if r < s {
        assert((r + 1) * (r + 1) <= s * s) by (nonlinear_arith)
            requires 0 <= s, 0 <= r, r + 1 <= s;
        assert(false);
    }
}

/// Every non-negative integer has a square root: `sqrt_floor` of it
/// satisfies the characterization.
pub proof fn lemma_sqrt_floor_exists(n: int)
    requires
        n >= 0,
    ensures
        is_sqrt(n, sqrt_floor(n)),
        0 <= sqrt_floor(n),
    decreases n,
{
    if n == 0 {
        assert(is_sqrt(0, 0)) by (nonlinear_arith);
        lemma_sqrt_floor_is(0, 0);
    } else {
        lemma_sqrt_floor_exists(n - 1);
        let r0 = sqrt_floor(n - 1);
        if (r0 + 1) * (r0 + 1) <= n {
            assert(n < (r0 + 2) * (r0 + 2)) by (nonlinear_arith)
                requires 0 <= r0, n - 1 < (r0 + 1) * (r0 + 1);
            assert(is_sqrt(n, r0 + 1));
            lemma_sqrt_floor_is(n, r0 + 1);
        } else {
            assert(is_sqrt(n, r0));
            lemma_sqrt_floor_is(n, r0);
        }
    }
}

/// A pen position in the Cartesian plane, micrometres.
#[derive(Clone, Copy, Debug, PartialEq, Eq)]
pub struct PositionMM {
    pub xy: [i64; 2],
}

/// Distance between two points in nanometres, rounded down.
pub open spec fn dist_nm_sp(a: PositionMM, b: PositionMM) -> int {
    let dx = (b.xy[0] - a.xy[0]) * 1000;
    let dy = (b.xy[1] - a.xy[1]) * 1000;
    sqrt_floor(dx * dx + dy * dy)
}

impl PositionMM {
    pub open spec fn bounded(self) -> bool {
        &&& -COORD_MAX <= self.xy[0] <= COORD_MAX
        &&& -COORD_MAX <= self.xy[1] <= COORD_MAX
    }

    pub fn new(xy: [i64; 2]) -> (r: Self)
        ensures
            r.xy == xy,
    {
        PositionMM { xy }
    }

    /// The pair of coordinates, x first.
    pub fn iter(&self) -> (r: [i64; 2])
        ensures
            r == self.xy,
    {
        self.xy
    }

    /// Distance to `mm` in nanometres, rounded down.
    pub fn dist(&self, mm: &PositionMM) -> (r: i64)
        requires
            self.bounded(),
            mm.bounded(),
        ensures
            r == dist_nm_sp(*self, *mm),
            0 <= r <= 3_000_000_000_000,
            is_sqrt(((mm.xy[0] - self.xy[0]) * 1000) * ((mm.xy[0] - self.xy[0]) * 1000)
                + ((mm.xy[1] - self.xy[1]) * 1000) * ((mm.xy[1] - self.xy[1]) * 1000), r as int),
    {
        let dx: i128 = (mm.xy[0] as i128 - self.xy[0] as i128) * 1000;
        let dy: i128 = (mm.xy[1] as i128 - self.xy[1] as i128) * 1000;
        assert(0 <= dx * dx && 0 <= dy * dy
            && dx * dx + dy * dy <= 8_000_000_000_000_000_000_000_000) by (nonlinear_arith)
            requires -2_000_000_000_000 <= dx <= 2_000_000_000_000,
                -2_000_000_000_000 <= dy <= 2_000_000_000_000;
        let n: u128 = (dx * dx + dy * dy) as u128;
        let r: u128 = isqrt_u128(n);
        proof {
            lemma_sqrt_floor_is(n as int, r as int);
            assert(r <= 3_000_000_000_000) by (nonlinear_arith)
                requires (r as int) * (r as int) <= n as int,
                    n <= 8_000_000_000_000_000_000_000_000, r >= 0;
        }
        r as i64
    }

    /// Unit direction from `self` towards `mm`, scaled by `DIR_SCALE`.
    pub fn get_direction(&self, mm: &PositionMM) -> (r: [i64; 2])
        requires
            self.bounded(),
            mm.bounded(),
            dist_nm_sp(*self, *mm) >= 1,
        ensures
            r[0] == div_round((mm.xy[0] - self.xy[0]) * 1000 * DIR_SCALE, dist_nm_sp(*self, *mm)),
            r[1] == div_round((mm.xy[1] - self.xy[1]) * 1000 * DIR_SCALE, dist_nm_sp(*self, *mm)),
            -2 * DIR_SCALE <= r[0] <= 2 * DIR_SCALE,
            -2 * DIR_SCALE <= r[1] <= 2 * DIR_SCALE,
    {
        let dist: i64 = self.dist(mm);
        let dx: i128 = (mm.xy[0] as i128 - self.xy[0] as i128) * 1000 * DIR_SCALE as i128;
        let dy: i128 = (mm.xy[1] as i128 - self.xy[1] as i128) * 1000 * DIR_SCALE as i128;
        proof {
            lemma_component_le_dist(mm.xy[0] - self.xy[0], mm.xy[1] - self.xy[1], dist as int);
            lemma_dir_component_bound((mm.xy[0] - self.xy[0]) * 1000, dist as int);
            lemma_dir_component_bound((mm.xy[1] - self.xy[1]) * 1000, dist as int);
        }
        let ux: i128 = div_round_i128(dx, dist as i128);
        let uy: i128 = div_round_i128(dy, dist as i128);
        [ux as i64, uy as i64]
    }

    /// Offset by `amount` micrometres along a `DIR_SCALE`-scaled direction.
    pub fn offset(&self, amount: &i64, direction: &[i64; 2]) -> (r: PositionMM)
        requires
            self.bounded(),
            -COORD_MAX <= *amount <= COORD_MAX,
            -2 * DIR_SCALE <= direction[0] <= 2 * DIR_SCALE,
            -2 * DIR_SCALE <= direction[1] <= 2 * DIR_SCALE,
        ensures
            r.xy[0] == self.xy[0] + div_round(direction[0] * *amount, DIR_SCALE as int),
            r.xy[1] == self.xy[1] + div_round(direction[1] * *amount, DIR_SCALE as int),
    {
        proof {
            assert(-2_000_000_000_000_000 <= direction[0] as int * *amount as int
                    <= 2_000_000_000_000_000
                && -2_000_000_000_000_000 <= direction[1] as int * *amount as int
                    <= 2_000_000_000_000_000) by (nonlinear_arith)
                requires -2_000_000 <= direction[0] <= 2_000_000,
                    -2_000_000 <= direction[1] <= 2_000_000,
                    -1_000_000_000 <= *amount <= 1_000_000_000;
            lemma_div_round_range(direction[0] as int * *amount as int, DIR_SCALE as int,
                -2_000_000_000_000_000, 2_000_000_000_000_000);
            lemma_div_round_range(direction[1] as int * *amount as int, DIR_SCALE as int,
                -2_000_000_000_000_000, 2_000_000_000_000_000);
        }
        let ox: i128 = div_round_i128(direction[0] as i128 * *amount as i128, DIR_SCALE as i128);
        let oy: i128 = div_round_i128(direction[1] as i128 * *amount as i128, DIR_SCALE as i128);
        PositionMM::new([self.xy[0] + ox as i64, self.xy[1] + oy as i64])
    }

    /// Is the point inside the closed rectangle `x_limits` x `y_limits`?
    pub fn in_bounds(&self, x_limits: &[i64; 2], y_limits: &[i64; 2]) -> (r: bool)
        ensures
            r == (x_limits[0] <= self.xy[0] <= x_limits[1]
                && y_limits[0] <= self.xy[1] <= y_limits[1]),
    {
        if self.xy[0] < x_limits[0] || self.xy[0] > x_limits[1] {
            return false;
        }
        if self.xy[1] < y_limits[0] || self.xy[1] > y_limits[1] {
            return false;
        }
        true
    }

    pub fn x(&self) -> (r: i64)
        ensures
            r == self.xy[0],
    {
        self.xy[0]
    }

    pub fn y(&self) -> (r: i64)
        ensures
            r == self.xy[1],
    {
        self.xy[1]
    }
}

/// Each Cartesian component (in nanometres) is bounded by the Euclidean
/// distance.
pub proof fn lemma_component_le_dist(dx_um: int, dy_um: int, dist: int)
    requires
        is_sqrt((dx_um * 1000) * (dx_um * 1000) + (dy_um * 1000) * (dy_um * 1000), dist),
    ensures
        -dist <= dx_um * 1000 <= dist,
        -dist <= dy_um * 1000 <= dist,
{
    let dx = dx_um * 1000;
    let dy = dy_um * 1000;
    assert(dx * dx <= dx * dx + dy * dy && dy * dy <= dx * dx + dy * dy) by (nonlinear_arith);
    if dx > dist {
        assert((dist + 1) * (dist + 1) <= dx * dx) by (nonlinear_arith)
            requires 0 <= dist, dist + 1 <= dx;
        assert(false);
    }
    if dx < -dist {
        assert((dist + 1) * (dist + 1) <= dx * dx) by (nonlinear_arith)
            requires 0 <= dist, dx <= -(dist + 1);
        assert(false);
    }
    if dy > dist {
        assert((dist + 1) * (dist + 1) <= dy * dy) by (nonlinear_arith)
            requires 0 <= dist, dist + 1 <= dy;
        assert(false);
    }
    if dy < -dist {
        assert((dist + 1) * (dist + 1) <= dy * dy) by (nonlinear_arith)
            requires 0 <= dist, dy <= -(dist + 1);
        assert(false);
    }
}

/// A component no longer than the distance yields a scaled direction entry
/// within twice the unit scale.
proof fn lemma_dir_component_bound(d: int, dist: int)
    requires
        dist >= 1,
        -dist <= d <= dist,
    ensures
        -2_000_000 <= div_round(d * 1_000_000, dist) <= 2_000_000,
{
    let q = div_round(d * 1_000_000, dist);
    crate::num::lemma_div_round_err(d * 1_000_000, dist);
    assert(-(dist * 1_000_000) <= d * 1_000_000 <= dist * 1_000_000) by (nonlinear_arith)
        requires -dist <= d <= dist, dist >= 1;
    if q > 2_000_000 {
        assert(q * dist >= 2_000_000 * dist + dist) by (nonlinear_arith)
            requires q >= 2_000_001, dist >= 1;
        assert(q * dist - d * 1_000_000 >= 1_000_000 * dist + dist) by (nonlinear_arith)
            requires q * dist >= 2_000_000 * dist + dist, d * 1_000_000 <= dist * 1_000_000;
        assert(q * dist - d * 1_000_000 > dist / 2);
        assert(false);
    }
    if q < -2_000_000 {
        assert(q * dist <= -(2_000_000 * dist) - dist) by (nonlinear_arith)
            requires q <= -2_000_001, dist >= 1;
        assert(d * 1_000_000 - q * dist >= 1_000_000 * dist + dist) by (nonlinear_arith)
            requires q * dist <= -(2_000_000 * dist) - dist,
                d * 1_000_000 >= -(dist * 1_000_000);
        assert(d * 1_000_000 - q * dist > dist / 2);
        assert(false);
    }
}

/// Commanded cable lengths of the two motors in whole step units.
#[derive(Clone, Copy, Debug, PartialEq, Eq)]
pub struct PositionStep {
    pub rr: [usize; 2],
}

impl PositionStep {
    pub fn new(rr: [usize; 2]) -> (r: Self)
        ensures
            r.rr == rr,
    {
        PositionStep { rr }
    }

    /// The pair of step counts, left motor first.
    pub fn iter(&self) -> (r: [usize; 2])
        ensures
            r == self.rr,
    {
        self.rr
    }

    /// Apply one step instruction to the counter of motor `index`.
    pub fn step(&mut self, index: usize, instruction: &StepInstruction)
        requires
            index < 2,
            *instruction is StepLonger ==> old(self).rr[index as int] < usize::MAX,
            *instruction is StepShorter ==> old(self).rr[index as int] > 0,
        ensures
            final(self).rr[index as int] == old(self).rr[index as int]
                + (match *instruction {
                    StepInstruction::StepLonger => 1int,
                    StepInstruction::StepShorter => -1int,
                    StepInstruction::Hold => 0int,
                }),
            final(self).rr[1 - index as int] == old(self).rr[1 - index as int],
    {
        match instruction {
            StepInstruction::StepLonger => {
                self.rr[index] = self.rr[index] + 1;
            }
            StepInstruction::StepShorter => {
                self.rr[index] = self.rr[index] - 1;
            }
            StepInstruction::Hold => {}
        }
    }

    /// Round fine step counts to the nearest whole step.
    pub fn from_position_step_fine(rr: &PositionStepFine) -> (r: Self)
        requires
            0 <= rr.rr[0] <= 3_000_000_000_000_000,
            0 <= rr.rr[1] <= 3_000_000_000_000_000,
        ensures
            r.rr[0] == div_round(rr.rr[0] as int, 1_000_000),
            r.rr[1] == div_round(rr.rr[1] as int, 1_000_000),
    {
        proof {
            lemma_div_round_range(rr.rr[0] as int, 1_000_000, 0, 3_000_000_000_000_000);
            lemma_div_round_range(rr.rr[1] as int, 1_000_000, 0, 3_000_000_000_000_000);
        }
        let r0: i128 = div_round_i128(rr.rr[0] as i128, 1_000_000);
        let r1: i128 = div_round_i128(rr.rr[1] as i128, 1_000_000);
        PositionStep::new([r0 as usize, r1 as usize])
    }
}

/// Ideal cable lengths in fine step units: whole steps scaled by 10^6.
#[derive(Clone, Copy, Debug, PartialEq, Eq)]
pub struct PositionStepFine {
    pub rr: [i64; 2],
}

impl PositionStepFine {
    pub fn new(rr: [i64; 2]) -> (r: Self)
        ensures
            r.rr == rr,
    {
        PositionStepFine { rr }
    }

    /// The pair of fine step counts, left motor first.
    pub fn iter(&self) -> (r: [i64; 2])
        ensures
            r == self.rr,
    {
        self.rr
    }

    /// Lift whole step counts to fine resolution.
    pub fn from_position_step(step: &PositionStep, _physical: &Physical) -> (r: Self)
        requires
            step.rr[0] <= crate::physical::STEP_MAX,
            step.rr[1] <= crate::physical::STEP_MAX,
        ensures
            r.rr[0] == step.rr[0] * 1_000_000,
            r.rr[1] == step.rr[1] * 1_000_000,
    {
        PositionStepFine::new([
            (step.rr[0] as i64) * 1_000_000,
            (step.rr[1] as i64) * 1_000_000,
        ])
    }

    /// Ideal fine step counts of a millimetre position.
    pub fn from_mm(mm: &PositionMM, physical: &Physical) -> (r: Self)
        requires
            physical.wf(),
            mm.bounded(),
        ensures
            r.rr[0] == physical.motor_fine_sp(*mm, 0),
            r.rr[1] == physical.motor_fine_sp(*mm, 1),
    {
        physical.get_motor_dist_fine(mm)
    }
}

/// A pen location kept simultaneously in millimetres and in whole motor
/// steps, consistent through the machine's kinematics.
#[derive(Clone, Copy, Debug, PartialEq, Eq)]
pub struct Position {
    pub mm: PositionMM,
    pub step: PositionStep,
}

impl Position {
    pub fn new(mm: PositionMM, step: PositionStep) -> (r: Self)
        ensures
            r.mm == mm,
            r.step == step,
    {
        Position { mm, step }
    }

    /// Recover the millimetre position of a step pair through the forward
    /// kinematics.  Fails when the step pair is geometrically unreachable
    /// (negative radicand under the anchor line) or lands outside the
    /// representable range.
    pub fn from_step(step: PositionStep, physical: &Physical) -> (r: Result<Self, &'static str>)
        requires
            physical.wf(),
            step.rr[0] <= crate::physical::STEP_MAX,
            step.rr[1] <= crate::physical::STEP_MAX,
        ensures
            r is Ok <==> physical.forward_reachable_sp(step),
            r is Ok ==> r->Ok_0.step == step
                && r->Ok_0.mm.xy[0] == physical.forward_x_of_step_sp(step)
                && r->Ok_0.mm.xy[1] == physical.forward_y_of_step_sp(step),
            r is Err ==> r->Err_0 == "unreachable step pair",
    {
        match physical.forward_kinematics(&step) {
            Ok(mm) => Ok(Position::new(mm, step)),
            Err(e) => Err(e),
        }
    }

    /// Pair a millimetre position with its nearest step pair through the
    /// inverse kinematics.
    pub fn from_mm(mm: PositionMM, physical: &Physical) -> (r: Self)
        requires
            physical.wf(),
            mm.bounded(),
        ensures
            r.mm == mm,
            r.step.rr[0] == physical.motor_step_sp(mm, 0),
            r.step.rr[1] == physical.motor_step_sp(mm, 1),
    {
        let rr = physical.get_motor_dist(&mm);
        Position::new(mm, rr)
    }

    pub fn get_step(&self) -> (r: PositionStep)
        ensures
            r == self.step,
    {
        self.step
    }

    /// The pair of whole step counts, left motor first.
    pub fn iter_step(&self) -> (r: [usize; 2])
        ensures
            r == self.step.rr,
    {
        self.step.iter()
    }

    /// Within two whole steps of `other`: such a move is skipped.
    pub fn very_close_to(&self, other: &PositionMM, physical: &Physical) -> (r: bool)
        requires
            physical.wf(),
            self.mm.bounded(),
            other.bounded(),
        ensures
            r == (physical.nm_to_fine_sp(dist_nm_sp(self.mm, *other)) < 2_000_000),
    {
        let dist: i64 = self.mm.dist(other);
        physical.nm_to_fine(dist) < 2_000_000
    }

    /// Offset the millimetre position along a scaled direction.
    pub fn offset(&self, amount: &i64, direction: &[i64; 2]) -> (r: PositionMM)
        requires
            self.mm.bounded(),
            -COORD_MAX <= *amount <= COORD_MAX,
            -2 * DIR_SCALE <= direction[0] <= 2 * DIR_SCALE,
            -2 * DIR_SCALE <= direction[1] <= 2 * DIR_SCALE,
        ensures
            r.xy[0] == self.mm.xy[0] + div_round(direction[0] * *amount, DIR_SCALE as int),
            r.xy[1] == self.mm.xy[1] + div_round(direction[1] * *amount, DIR_SCALE as int),
    {
        self.mm.offset(amount, direction)
    }
}

} // verus!
