//! The plotter program model: axis limits, affine axis transforms, plotter
//! instructions, and the ordered instruction list with its tight bounding
//! box, cursor, scaling and centring transforms.  The streaming G-code
//! parser that populates a program lives in the same module.
//!
//! Coordinates are micrometres.  An axis transform carries a rational scale
//! `num/den` and maps a coordinate with a single rounding, so interval
//! endpoints map exactly and scaling an axis onto its own bounds is the
//! identity.

use vstd::prelude::*;

use crate::num::{div_round, div_round_i128, lemma_div_round_exact, lemma_div_round_mono,
    lemma_div_round_range};
use crate::position::{PositionMM, COORD_MAX};

verus! {

/// An affine map of one axis: `v` maps to
/// `(target2 * den + (2v - base2) * num) / (2 * den)`, rounded once.
/// `base2` and `target2` are doubled reference points (twice an interval
/// endpoint, or the sum of an interval's ends for its centre), so that
/// midpoints need no fractional values.
pub struct AxisTransformer {
    pub num: i64,
    pub den: i64,
    pub base2: i64,
    pub target2: i64,
}

/// Where an axis transform sends a coordinate.
pub open spec fn transform_sp(t: AxisTransformer, v: int) -> int {
    div_round(t.target2 * t.den + (2 * v - t.base2) * t.num, 2 * t.den)
}

impl AxisTransformer {
    /// Bounds under which transforming a coordinate stays inside `i128`
    /// and the result inside `i64`.
    pub open spec fn wf(self) -> bool {
        &&& 1 <= self.den <= 2 * COORD_MAX
        &&& 0 <= self.num <= 2 * COORD_MAX
        &&& -2 * COORD_MAX <= self.base2 <= 2 * COORD_MAX
        &&& -2 * COORD_MAX <= self.target2 <= 2 * COORD_MAX
    }

    pub fn new(num: i64, den: i64, base2: i64, target2: i64) -> (r: Self)
        ensures
            r.num == num && r.den == den && r.base2 == base2 && r.target2 == target2,
    {
        AxisTransformer { num, den, base2, target2 }
    }

    /// Apply the map to one coordinate.
    pub fn transform(&self, val: &mut i64)
        requires
            self.wf(),
            -COORD_MAX <= *old(val) <= COORD_MAX,
        ensures
            *final(val) == transform_sp(*self, *old(val) as int),
    {
        proof {
            lemma_transform_in_i64(*self, *old(val) as int);
        }
        let n: i128 = self.target2 as i128 * self.den as i128
            + (2 * *val as i128 - self.base2 as i128) * self.num as i128;
        let q: i128 = div_round_i128(n, 2 * self.den as i128);
        *val = q as i64;
    }
}

/// The transform of a bounded coordinate stays within `i64` and its
/// numerator within the rounded division's range.
proof fn lemma_transform_in_i64(t: AxisTransformer, v: int)
    requires
        t.wf(),
        -COORD_MAX <= v <= COORD_MAX,
    ensures
        -32_000_000_000_000_000_000 <= t.target2 * t.den + (2 * v - t.base2) * t.num
            <= 32_000_000_000_000_000_000,
        -8_000_000_000_000_000_000 <= (2 * v - t.base2) * t.num <= 8_000_000_000_000_000_000,
        -4_000_000_000_000_000_000 <= t.target2 * t.den <= 4_000_000_000_000_000_000,
        -4_200_000_000_000_000_000 <= transform_sp(t, v) <= 4_200_000_000_000_000_000,
{
    let n = t.target2 * t.den + (2 * v - t.base2) * t.num;
    let d = t.den;
    let q = transform_sp(t, v);
    assert(-2_000_000_000 * d - 8_000_000_000_000_000_000 <= n
        && n <= 2_000_000_000 * d + 8_000_000_000_000_000_000
        && -8_000_000_000_000_000_000 <= (2 * v - t.base2) * t.num <= 8_000_000_000_000_000_000
        && -4_000_000_000_000_000_000 <= t.target2 * t.den <= 4_000_000_000_000_000_000
        && -32_000_000_000_000_000_000 <= n <= 32_000_000_000_000_000_000) by (nonlinear_arith)
        requires 1 <= t.den <= 2_000_000_000, 0 <= t.num <= 2_000_000_000,
            -2_000_000_000 <= t.base2 <= 2_000_000_000,
            -2_000_000_000 <= t.target2 <= 2_000_000_000,
            -COORD_MAX <= v <= COORD_MAX,
            n == t.target2 * t.den + (2 * v - t.base2) * t.num,
            d == t.den;
    crate::num::lemma_div_round_err(n, 2 * d);
    assert((2 * d) / 2 == d);
    if q > 4_200_000_000_000_000_000 {
        assert(false) by (nonlinear_arith)
            requires q > 4_200_000_000_000_000_000, d >= 1,
                q * (2 * d) - n <= d,
                n <= 2_000_000_000 * d + 8_000_000_000_000_000_000;
    }
    if q < -4_200_000_000_000_000_000 {
        assert(false) by (nonlinear_arith)
            requires q < -4_200_000_000_000_000_000, d >= 1,
                n - q * (2 * d) <= d,
                -2_000_000_000 * d - 8_000_000_000_000_000_000 <= n;
    }
}

/// The transform is monotone in the coordinate.
pub proof fn lemma_transform_mono(t: AxisTransformer, v1: int, v2: int)
    requires
        t.wf(),
        v1 <= v2,
    ensures
        transform_sp(t, v1) <= transform_sp(t, v2),
{
    assert((2 * v1 - t.base2) * t.num <= (2 * v2 - t.base2) * t.num) by (nonlinear_arith)
        requires v1 <= v2, t.num >= 0;
    lemma_div_round_mono(t.target2 * t.den + (2 * v1 - t.base2) * t.num,
        t.target2 * t.den + (2 * v2 - t.base2) * t.num, 2 * t.den);
}

/// An interval endpoint maps exactly: the transform built from a source
/// interval of width `den` and a target of width `num` sends `base2 / 2`
/// to `target2 / 2` and `base2 / 2 + den` to `target2 / 2 + num`, with no
/// rounding residue, whenever the doubled reference points are even.
pub proof fn lemma_transform_endpoint(t: AxisTransformer)
    requires
        t.wf(),
        t.base2 % 2 == 0,
        t.target2 % 2 == 0,
    ensures
        transform_sp(t, t.base2 / 2) == t.target2 / 2,
        transform_sp(t, t.base2 / 2 + t.den) == t.target2 / 2 + t.num,
{
    let b = t.base2 / 2;
    let g = t.target2 / 2;
    assert(t.base2 == 2 * b && t.target2 == 2 * g);
    assert(2 * g * t.den + (2 * b - 2 * b) * t.num == g * (2 * t.den)) by (nonlinear_arith);
    lemma_div_round_exact(g, 2 * t.den);
    assert(2 * g * t.den + (2 * (b + t.den) - 2 * b) * t.num == (g + t.num) * (2 * t.den))
        by (nonlinear_arith);
    lemma_div_round_exact(g + t.num, 2 * t.den);
}

/// Scaling an interval onto itself is the identity on every coordinate.
/// With the bounds of an axis already equal to the target, a second
/// `scale_axis` changes nothing: rescaling is idempotent.
pub proof fn lemma_transform_identity(t: AxisTransformer, v: int)
    requires
        t.wf(),
        t.num == t.den,
        t.target2 == t.base2,
    ensures
        transform_sp(t, v) == v,
{
    assert(t.base2 * t.den + (2 * v - t.base2) * t.num == v * (2 * t.den)) by (nonlinear_arith)
        requires t.num == t.den, t.target2 == t.base2;
    lemma_div_round_exact(v, 2 * t.den);
}

/// A pure translation of one axis.
pub struct AxisTransposer {
    pub offset: i64,
}

impl AxisTransposer {
    pub fn new(offset: i64) -> (r: Self)
        ensures
            r.offset == offset,
    {
        AxisTransposer { offset }
    }

    /// Shift one coordinate.
    pub fn transpose(&self, val: &mut i64)
        requires
            -COORD_MAX <= *old(val) <= COORD_MAX,
            -2 * COORD_MAX <= self.offset <= 2 * COORD_MAX,
        ensures
            *final(val) == *old(val) + self.offset,
    {
        *val = *val + self.offset;
    }
}

/// A bounding interval still being collected: none until the first value.
pub struct MaybeAxisLimit {
    pub val: Option<[i64; 2]>,
}

impl MaybeAxisLimit {
    pub fn new() -> (r: Self)
        ensures
            r.val is None,
    {
        MaybeAxisLimit { val: None }
    }

    pub fn is_none(&self) -> (r: bool)
        ensures
            r == (self.val is None),
    {
        self.val.is_none()
    }

    /// Widen the interval to cover `val`.
    pub fn update(&mut self, val: &i64)
        ensures
            (old(self).val is None ==> final(self).val == Some([*val, *val])),
            (old(self).val matches Some(b) ==> final(self).val == Some([
                (if *val < b[0] { *val } else { b[0] }),
                (if *val > b[1] { *val } else { b[1] }),
            ])),
    {
        match &mut self.val {
            Some(bounds) => {
                if *val < bounds[0] {
                    bounds[0] = *val;
                }
                if *val > bounds[1] {
                    bounds[1] = *val;
                }
            }
            None => {
                self.val = Some([*val, *val]);
            }
        }
    }
}

/// A non-empty closed interval of one axis, micrometres.
#[derive(Clone, Copy, Debug, PartialEq, Eq)]
pub struct AxisLimit {
    pub val: [i64; 2],
}

/// The relative-tolerance closeness test applied to each end: the scaled
/// difference stays within one part in 10^8 of the larger magnitude.
pub open spec fn close_val_sp(a: int, b: int) -> bool {
    (if a - b >= 0 { a - b } else { b - a }) * 100_000_000
        <= (if (if a >= 0 { a } else { -a }) >= (if b >= 0 { b } else { -b }) {
            if a >= 0 { a } else { -a }
        } else {
            if b >= 0 { b } else { -b }
        })
}

/// Both ends close.
pub open spec fn close_limit_sp(a: AxisLimit, b: AxisLimit) -> bool {
    close_val_sp(a.val[0] as int, b.val[0] as int) && close_val_sp(a.val[1] as int, b.val[1] as int)
}

/// `a` inside `b`: close to it, or strictly within.
pub open spec fn inside_limit_sp(a: AxisLimit, b: AxisLimit) -> bool {
    close_limit_sp(a, b) || (a.val[0] > b.val[0] && a.val[1] < b.val[1])
}

impl AxisLimit {
    pub open spec fn bounded(self) -> bool {
        &&& -COORD_MAX <= self.val[0] <= COORD_MAX
        &&& -COORD_MAX <= self.val[1] <= COORD_MAX
    }

    pub fn new(val: [i64; 2]) -> (r: Self)
        ensures
            r.val == val,
    {
        AxisLimit { val }
    }

    /// Are the two intervals equal to within one part in 10^8 per end?
    pub fn is_close_to(&self, other: &AxisLimit) -> (r: bool)
        requires
            self.bounded(),
            other.bounded(),
        ensures
            r == close_limit_sp(*self, *other),
    {
        let c0 = close_val(self.val[0], other.val[0]);
        let c1 = close_val(self.val[1], other.val[1]);
        c0 && c1
    }

    /// Is this interval inside `other` (or as good as equal to it)?
    pub fn is_inside_of(&self, other: &AxisLimit) -> (r: bool)
        requires
            self.bounded(),
            other.bounded(),
        ensures
            r == inside_limit_sp(*self, *other),
    {
        self.is_close_to(other) || self.val[0] > other.val[0] && self.val[1] < other.val[1]
    }

    /// Shift both ends.
    pub fn offset(&mut self, val: &i64)
        requires
            old(self).bounded(),
            -COORD_MAX <= *val <= COORD_MAX,
        ensures
            final(self).val[0] == old(self).val[0] + *val,
            final(self).val[1] == old(self).val[1] + *val,
    {
        self.val = [self.val[0] + *val, self.val[1] + *val];
    }

    /// The affine map taking this interval onto `other`.
    fn transform_to(&self, other: &AxisLimit) -> (r: AxisTransformer)
        requires
            self.bounded(),
            other.bounded(),
            self.val[0] < self.val[1],
            other.val[0] <= other.val[1],
        ensures
            r.num == other.val[1] - other.val[0],
            r.den == self.val[1] - self.val[0],
            r.base2 == 2 * self.val[0],
            r.target2 == 2 * other.val[0],
            r.wf(),
    {
        AxisTransformer::new(
            other.val[1] - other.val[0],
            self.val[1] - self.val[0],
            2 * self.val[0],
            2 * other.val[0],
        )
    }

    /// The translation centring this interval inside `other`; fails when
    /// this interval is wider than `other`.
    fn center_to(&self, other: &AxisLimit) -> (r: Result<AxisTransposer, &'static str>)
        requires
            self.bounded(),
            other.bounded(),
        ensures
            r is Ok <==> self.val[1] - self.val[0]
                <= other.val[1] - other.val[0],
            r is Ok ==> r->Ok_0.offset == div_round(
                other.val[0] + other.val[1] - self.val[0] - self.val[1], 2),
            r is Err ==> r->Err_0 == "Too large to center",
    {
        let cur_scale: i64 = self.val[1] - self.val[0];
        let other_scale: i64 = other.val[1] - other.val[0];
        if cur_scale > other_scale {
            return Err("Too large to center");
        }
        let off2: i64 = other.val[0] + other.val[1] - self.val[0] - self.val[1];
        let off: i128 = div_round_i128(off2 as i128, 2);
        proof {
            lemma_div_round_range(off2 as int, 2, -8_000_000_000, 8_000_000_000);
        }
        Ok(AxisTransposer::new(off as i64))
    }
}

/// One end's closeness test.
fn close_val(a: i64, b: i64) -> (r: bool)
    requires
        -COORD_MAX <= a <= COORD_MAX,
        -COORD_MAX <= b <= COORD_MAX,
    ensures
        r == close_val_sp(a as int, b as int),
{
    let diff: i128 = if a >= b { a as i128 - b as i128 } else { b as i128 - a as i128 };
    let ma: i128 = if a >= 0 { a as i128 } else { -(a as i128) };
    let mb: i128 = if b >= 0 { b as i128 } else { -(b as i128) };
    let m: i128 = if ma >= mb { ma } else { mb };
    diff * 100_000_000 <= m
}


/// The two Cartesian axes of the plotter plane.
#[derive(Clone, Copy, Debug, PartialEq, Eq, Structural)]
pub enum Axis {
    X,
    Y,
}

/// Index of an axis in a coordinate pair.
pub open spec fn axis_idx(axis: Axis) -> int {
    match axis {
        Axis::X => 0,
        Axis::Y => 1,
    }
}

/// One step of a plotter drawing: move the pen, raise or lower it, or
/// carry a comment along.
#[derive(Clone, Debug)]
pub enum PlotterInstruction {
    Move(PositionMM),
    PenUp,
    PenDown,
    Comment(String),
    NoOp,
}

/// The coordinate a move instruction has on an axis (zero elsewhere).
pub open spec fn ins_coord(ins: PlotterInstruction, axis: Axis) -> int {
    match ins {
        PlotterInstruction::Move(p) => p.xy[axis_idx(axis)] as int,
        _ => 0,
    }
}

/// A move's coordinates stay inside the representable range.
pub open spec fn ins_bounded(ins: PlotterInstruction) -> bool {
    ins matches PlotterInstruction::Move(p) ==> p.bounded()
}

/// A move's coordinate on `axis` lies in `[lo, hi]`.
pub open spec fn within_sp(ins: PlotterInstruction, lo: int, hi: int, axis: Axis) -> bool {
    ins is Move ==> lo <= ins_coord(ins, axis) <= hi
}

/// `[lo, hi]` is the tight bounding interval of the moves among the first
/// `n` instructions: every move lies inside it and both ends are attained.
pub open spec fn tight_upto(s: Seq<PlotterInstruction>, n: int, lo: int, hi: int, axis: Axis) -> bool {
    &&& forall|i: int| 0 <= i < n ==> within_sp(#[trigger] s[i], lo, hi, axis)
    &&& exists|i: int| 0 <= i < n && (#[trigger] s[i]) is Move && ins_coord(s[i], axis) == lo
    &&& exists|i: int| 0 <= i < n && (#[trigger] s[i]) is Move && ins_coord(s[i], axis) == hi
}

/// `lim` is the tight bounding interval of all the moves in `s`.
pub open spec fn limits_tight_sp(s: Seq<PlotterInstruction>, lim: AxisLimit, axis: Axis) -> bool {
    tight_upto(s, s.len() as int, lim.val[0] as int, lim.val[1] as int, axis)
}

/// Tight bounds are unique.
pub proof fn lemma_tight_unique(s: Seq<PlotterInstruction>, n: int, lo1: int, hi1: int, lo2: int, hi2: int, axis: Axis)
    requires
        tight_upto(s, n, lo1, hi1, axis),
        tight_upto(s, n, lo2, hi2, axis),
    ensures
        lo1 == lo2,
        hi1 == hi2,
{
    let w1 = choose|i: int| 0 <= i < n && (#[trigger] s[i]) is Move && ins_coord(s[i], axis) == lo1;
    let w2 = choose|i: int| 0 <= i < n && (#[trigger] s[i]) is Move && ins_coord(s[i], axis) == lo2;
    assert(within_sp(s[w1], lo2, hi2, axis));
    assert(within_sp(s[w2], lo1, hi1, axis));
    let v1 = choose|i: int| 0 <= i < n && (#[trigger] s[i]) is Move && ins_coord(s[i], axis) == hi1;
    let v2 = choose|i: int| 0 <= i < n && (#[trigger] s[i]) is Move && ins_coord(s[i], axis) == hi2;
    assert(within_sp(s[v1], lo2, hi2, axis));
    assert(within_sp(s[v2], lo1, hi1, axis));
}

/// `b` is `a` with its coordinate on `axis` sent through the transform `t`
/// (move instructions only; everything else is untouched).
pub open spec fn ins_transformed(a: PlotterInstruction, b: PlotterInstruction, t: AxisTransformer, axis: Axis) -> bool {
    match a {
        PlotterInstruction::Move(p) => {
            &&& b is Move
            &&& ins_coord(b, axis) == transform_sp(t, ins_coord(a, axis))
            &&& ins_coord(b, flip(axis)) == ins_coord(a, flip(axis))
        },
        PlotterInstruction::PenUp => b is PenUp,
        PlotterInstruction::PenDown => b is PenDown,
        PlotterInstruction::Comment(c) => b matches PlotterInstruction::Comment(c2) && c2 == c,
        PlotterInstruction::NoOp => b is NoOp,
    }
}

/// The other axis.
pub open spec fn flip(axis: Axis) -> Axis {
    match axis {
        Axis::X => Axis::Y,
        Axis::Y => Axis::X,
    }
}

/// `b` is `a` with both coordinates shifted (move instructions only).
pub open spec fn ins_transposed(a: PlotterInstruction, b: PlotterInstruction, dx: int, dy: int) -> bool {
    match a {
        PlotterInstruction::Move(p) => {
            &&& b is Move
            &&& ins_coord(b, Axis::X) == ins_coord(a, Axis::X) + dx
            &&& ins_coord(b, Axis::Y) == ins_coord(a, Axis::Y) + dy
        },
        PlotterInstruction::PenUp => b is PenUp,
        PlotterInstruction::PenDown => b is PenDown,
        PlotterInstruction::Comment(c) => b matches PlotterInstruction::Comment(c2) && c2 == c,
        PlotterInstruction::NoOp => b is NoOp,
    }
}

impl PlotterInstruction {
    /// An equal copy.
    pub fn duplicate(&self) -> (r: Self)
        ensures
            r == *self,
    {
        match self {
            PlotterInstruction::Move(p) => PlotterInstruction::Move(*p),
            PlotterInstruction::PenUp => PlotterInstruction::PenUp,
            PlotterInstruction::PenDown => PlotterInstruction::PenDown,
            PlotterInstruction::Comment(c) => PlotterInstruction::Comment(c.clone()),
            PlotterInstruction::NoOp => PlotterInstruction::NoOp,
        }
    }
}

/// Map the coordinate of every move on one axis through an affine
/// transform, leaving everything else as it was.
fn transform_instructions(v: &Vec<PlotterInstruction>, t: &AxisTransformer, axis: &Axis)
    -> (r: Vec<PlotterInstruction>)
    requires
        t.wf(),
        forall|i: int| 0 <= i < v@.len() ==> ins_bounded(#[trigger] v@[i]),
    ensures
        r@.len() == v@.len(),
        forall|i: int| 0 <= i < v@.len()
            ==> ins_transformed(#[trigger] v@[i], r@[i], *t, *axis),
{
    let mut out: Vec<PlotterInstruction> = Vec::new();
    let mut idx: usize = 0;
    while idx < v.len()
        invariant
            t.wf(),
            idx <= v@.len(),
            out@.len() == idx,
            forall|i: int| 0 <= i < v@.len() ==> ins_bounded(#[trigger] v@[i]),
            forall|i: int| 0 <= i < idx
                ==> ins_transformed(#[trigger] v@[i], out@[i], *t, *axis),
        decreases v@.len() - idx,
    {
        let ins: &PlotterInstruction = &v[idx];
        let new_ins: PlotterInstruction = match ins {
            PlotterInstruction::Move(p) => {
                let mut xy: [i64; 2] = p.iter();
                match axis {
                    Axis::X => {
                        let mut c: i64 = xy[0];
                        t.transform(&mut c);
                        xy = [c, xy[1]];
                    }
                    Axis::Y => {
                        let mut c: i64 = xy[1];
                        t.transform(&mut c);
                        xy = [xy[0], c];
                    }
                }
                PlotterInstruction::Move(PositionMM::new(xy))
            }
            _ => ins.duplicate(),
        };
        out.push(new_ins);
        idx = idx + 1;
    }
    out
}

/// Shift the coordinates of every move by one offset per axis, leaving
/// everything else as it was.
fn transpose_instructions(v: &Vec<PlotterInstruction>, x_off: i64, y_off: i64)
    -> (r: Vec<PlotterInstruction>)
    requires
        -2 * COORD_MAX <= x_off <= 2 * COORD_MAX,
        -2 * COORD_MAX <= y_off <= 2 * COORD_MAX,
        forall|i: int| 0 <= i < v@.len() ==> ins_bounded(#[trigger] v@[i]),
    ensures
        r@.len() == v@.len(),
        forall|i: int| 0 <= i < v@.len()
            ==> ins_transposed(#[trigger] v@[i], r@[i], x_off as int, y_off as int),
{
    let mut out: Vec<PlotterInstruction> = Vec::new();
    let mut idx: usize = 0;
    while idx < v.len()
        invariant
            -2 * COORD_MAX <= x_off <= 2 * COORD_MAX,
            -2 * COORD_MAX <= y_off <= 2 * COORD_MAX,
            idx <= v@.len(),
            out@.len() == idx,
            forall|i: int| 0 <= i < v@.len() ==> ins_bounded(#[trigger] v@[i]),
            forall|i: int| 0 <= i < idx
                ==> ins_transposed(#[trigger] v@[i], out@[i], x_off as int, y_off as int),
        decreases v@.len() - idx,
    {
        let ins: &PlotterInstruction = &v[idx];
        let new_ins: PlotterInstruction = match ins {
            PlotterInstruction::Move(p) => {
                let xy: [i64; 2] = p.iter();
                PlotterInstruction::Move(PositionMM::new([xy[0] + x_off, xy[1] + y_off]))
            }
            _ => ins.duplicate(),
        };
        out.push(new_ins);
        idx = idx + 1;
    }
    out
}

/// An ordered list of plotter instructions with the tight bounding box of
/// its moves and a cursor for pull-style execution.
#[derive(Debug)]
pub struct PlotterProgram {
    pub instructions: Vec<PlotterInstruction>,
    pub x_limits: AxisLimit,
    pub y_limits: AxisLimit,
    pub current_position: usize,
}

impl PlotterProgram {
    /// The bounding box is the tight box of the moves, every move is
    /// representable, and the cursor is inside the list.
    pub open spec fn wf(self) -> bool {
        &&& limits_tight_sp(self.instructions@, self.x_limits, Axis::X)
        &&& limits_tight_sp(self.instructions@, self.y_limits, Axis::Y)
        &&& self.current_position <= self.instructions@.len()
        &&& forall|i: int| 0 <= i < self.instructions@.len()
                ==> ins_bounded(#[trigger] self.instructions@[i])
    }

    /// The limit of one axis.
    pub open spec fn limit_of(self, axis: Axis) -> AxisLimit {
        match axis {
            Axis::X => self.x_limits,
            Axis::Y => self.y_limits,
        }
    }

    /// Scan the instructions for the tight bounding box of their moves;
    /// fails exactly when there is no move at all.
    fn compute_limits(instructions: &Vec<PlotterInstruction>)
        -> (r: Result<[AxisLimit; 2], &'static str>)
        ensures
            r is Ok <==> exists|i: int| 0 <= i < instructions@.len()
                && (#[trigger] instructions@[i]) is Move,
            r is Ok ==> limits_tight_sp(instructions@, r->Ok_0[0], Axis::X)
                && limits_tight_sp(instructions@, r->Ok_0[1], Axis::Y),
            r is Err ==> r->Err_0 == "No value for axis limit",
    {
        let ghost s = instructions@;
        let mut x_l = MaybeAxisLimit::new();
        let mut y_l = MaybeAxisLimit::new();
        let mut idx: usize = 0;
        while idx < instructions.len()
            invariant
                s == instructions@,
                idx <= s.len(),
                (x_l.val is None <==> y_l.val is None),
                (x_l.val is None <==> (forall|i: int| 0 <= i < idx ==> !((#[trigger] s[i]) is Move))),
                (x_l.val matches Some(b)
                    ==> tight_upto(s, idx as int, b[0] as int, b[1] as int, Axis::X)),
                (y_l.val matches Some(b)
                    ==> tight_upto(s, idx as int, b[0] as int, b[1] as int, Axis::Y)),
            decreases s.len() - idx,
        {
            let ghost old_x = x_l.val;
            let ghost old_y = y_l.val;
            match &instructions[idx] {
                PlotterInstruction::Move(p) => {
                    let x: i64 = p.x();
                    let y: i64 = p.y();
                    x_l.update(&x);
                    y_l.update(&y);
                    proof {
                        match old_x {
                            None => {
                                lemma_bbox_start(s, idx as int, Axis::X);
                                lemma_bbox_start(s, idx as int, Axis::Y);
                            }
                            Some(bx) => {
                                lemma_bbox_extend(s, idx as int, bx[0] as int, bx[1] as int,
                                    Axis::X);
                                let by = old_y->0;
                                lemma_bbox_extend(s, idx as int, by[0] as int, by[1] as int,
                                    Axis::Y);
                            }
                        }
                    }
                }
                _ => {
                    proof {
                        match old_x {
                            None => {}
                            Some(bx) => {
                                lemma_bbox_skip(s, idx as int, bx[0] as int, bx[1] as int,
                                    Axis::X);
                                let by = old_y->0;
                                lemma_bbox_skip(s, idx as int, by[0] as int, by[1] as int,
                                    Axis::Y);
                            }
                        }
                    }
                }
            }
            idx = idx + 1;
        }
        let xv = match x_l.val {
            Some(b) => b,
            None => {
                return Err("No value for axis limit");
            }
        };
        let yv = match y_l.val {
            Some(b) => b,
            None => {
                return Err("No value for axis limit");
            }
        };
        Ok([AxisLimit::new(xv), AxisLimit::new(yv)])
    }
}

/// A tight prefix box extended by the move at position `n` via a min/max
/// update is tight one step further.
proof fn lemma_bbox_extend(s: Seq<PlotterInstruction>, n: int, lo: int, hi: int, axis: Axis)
    requires
        0 <= n < s.len(),
        s[n] is Move,
        tight_upto(s, n, lo, hi, axis),
    ensures
        tight_upto(s, n + 1,
            (if ins_coord(s[n], axis) < lo { ins_coord(s[n], axis) } else { lo }),
            (if ins_coord(s[n], axis) > hi { ins_coord(s[n], axis) } else { hi }), axis),
{
    let c = ins_coord(s[n], axis);
    let w_lo = choose|i: int| 0 <= i < n && (#[trigger] s[i]) is Move
        && ins_coord(s[i], axis) == lo;
    let w_hi = choose|i: int| 0 <= i < n && (#[trigger] s[i]) is Move
        && ins_coord(s[i], axis) == hi;
    if c < lo {
        assert(s[n] is Move && ins_coord(s[n], axis) == c);
        assert(s[w_hi] is Move && ins_coord(s[w_hi], axis) == hi);
    } else if c > hi {
        assert(s[w_lo] is Move && ins_coord(s[w_lo], axis) == lo);
        assert(s[n] is Move && ins_coord(s[n], axis) == c);
    } else {
        assert(s[w_lo] is Move && ins_coord(s[w_lo], axis) == lo);
        assert(s[w_hi] is Move && ins_coord(s[w_hi], axis) == hi);
    }
}

/// A move after a move-free prefix starts a tight one-point box.
proof fn lemma_bbox_start(s: Seq<PlotterInstruction>, n: int, axis: Axis)
    requires
        0 <= n < s.len(),
        s[n] is Move,
        forall|i: int| 0 <= i < n ==> !((#[trigger] s[i]) is Move),
    ensures
        tight_upto(s, n + 1, ins_coord(s[n], axis), ins_coord(s[n], axis), axis),
{
    let c = ins_coord(s[n], axis);
    assert(s[n] is Move && ins_coord(s[n], axis) == c);
}

/// A non-move at position `n` leaves a tight prefix box tight.
proof fn lemma_bbox_skip(s: Seq<PlotterInstruction>, n: int, lo: int, hi: int, axis: Axis)
    requires
        0 <= n < s.len(),
        !(s[n] is Move),
        tight_upto(s, n, lo, hi, axis),
    ensures
        tight_upto(s, n + 1, lo, hi, axis),
{
    let w_lo = choose|i: int| 0 <= i < n && (#[trigger] s[i]) is Move
        && ins_coord(s[i], axis) == lo;
    let w_hi = choose|i: int| 0 <= i < n && (#[trigger] s[i]) is Move
        && ins_coord(s[i], axis) == hi;
    assert(s[w_lo] is Move && ins_coord(s[w_lo], axis) == lo);
    assert(s[w_hi] is Move && ins_coord(s[w_hi], axis) == hi);
}


impl PlotterProgram {
    /// Build a program from instructions: compute the tight bounding box
    /// (there must be at least one move) and place the cursor at the start.
    /// Every move must be inside the representable coordinate range.
    pub fn from_instructions(instructions: Vec<PlotterInstruction>)
        -> (r: Result<PlotterProgram, &'static str>)
        ensures
            r is Ok <==> ((exists|i: int| 0 <= i < instructions@.len()
                    && (#[trigger] instructions@[i]) is Move)
                && (forall|i: int| 0 <= i < instructions@.len()
                    ==> ins_bounded(#[trigger] instructions@[i]))),
            r is Ok ==> r->Ok_0.wf()
                && r->Ok_0.instructions@ == instructions@
                && r->Ok_0.current_position == 0,
            (exists|i: int| 0 <= i < instructions@.len()
                    && !ins_bounded(#[trigger] instructions@[i]))
                ==> r is Err && r->Err_0 == "coordinate out of range",
            (forall|i: int| 0 <= i < instructions@.len()
                    ==> ins_bounded(#[trigger] instructions@[i]))
                && !(exists|i: int| 0 <= i < instructions@.len()
                    && (#[trigger] instructions@[i]) is Move)
                ==> r is Err && r->Err_0 == "No value for axis limit",
    {
        let mut idx: usize = 0;
        while idx < instructions.len()
            invariant
                idx <= instructions@.len(),
                forall|i: int| 0 <= i < idx ==> ins_bounded(#[trigger] instructions@[i]),
            decreases instructions@.len() - idx,
        {
            match &instructions[idx] {
                PlotterInstruction::Move(p) => {
                    if p.x() < -COORD_MAX || p.x() > COORD_MAX
                        || p.y() < -COORD_MAX || p.y() > COORD_MAX {
                        return Err("coordinate out of range");
                    }
                }
                _ => {}
            }
            idx = idx + 1;
        }
        let limits = match Self::compute_limits(&instructions) {
            Ok(l) => l,
            Err(e) => {
                return Err(e);
            }
        };
        let x_limits = limits[0];
        let y_limits = limits[1];
        Ok(PlotterProgram { instructions, x_limits, y_limits, current_position: 0 })
    }

    /// Recompute the bounding box after a transform.  The instruction list
    /// must still contain a move.
    fn recompute_limits(&mut self)
        requires
            exists|i: int| 0 <= i < old(self).instructions@.len()
                && (#[trigger] old(self).instructions@[i]) is Move,
        ensures
            final(self).instructions@ == old(self).instructions@,
            final(self).current_position == old(self).current_position,
            limits_tight_sp(final(self).instructions@, final(self).x_limits, Axis::X),
            limits_tight_sp(final(self).instructions@, final(self).y_limits, Axis::Y),
    {
        match Self::compute_limits(&self.instructions) {
            Ok(l) => {
                self.x_limits = l[0];
                self.y_limits = l[1];
            }
            Err(_) => {
                proof {
                    assert(false);
                }
            }
        }
    }

    /// Does the program's bounding box fit inside the paper limits, x then
    /// y?
    pub fn within_limits(&self, limits: &[AxisLimit; 2]) -> (r: bool)
        requires
            self.wf(),
            limits[0].bounded(),
            limits[1].bounded(),
        ensures
            r == (inside_limit_sp(self.x_limits, limits[0])
                && inside_limit_sp(self.y_limits, limits[1])),
    {
        proof {
            lemma_limits_bounded(self.instructions@, self.x_limits, Axis::X);
            lemma_limits_bounded(self.instructions@, self.y_limits, Axis::Y);
        }
        self.x_limits.is_inside_of(&limits[0]) && self.y_limits.is_inside_of(&limits[1])
    }

    /// Rewind the cursor.
    pub fn reset(&mut self)
        ensures
            final(self).current_position == 0,
            final(self).instructions@ == old(self).instructions@,
            final(self).x_limits == old(self).x_limits,
            final(self).y_limits == old(self).y_limits,
    {
        self.current_position = 0;
    }

    pub fn len(&self) -> (r: usize)
        ensures
            r == self.instructions@.len(),
    {
        self.instructions.len()
    }

    pub fn current_position(&self) -> (r: usize)
        ensures
            r == self.current_position,
    {
        self.current_position
    }

    /// Yield the instruction under the cursor and advance by one; `None`
    /// exactly when the program is exhausted.  Successive calls walk the
    /// cursor 0, 1, 2, ... up to the length, and `reset` starts over.
    pub fn advance(&mut self) -> (r: Option<PlotterInstruction>)
        requires
            old(self).wf(),
        ensures
            final(self).wf(),
            final(self).instructions@ == old(self).instructions@,
            final(self).x_limits == old(self).x_limits,
            final(self).y_limits == old(self).y_limits,
            old(self).current_position < old(self).instructions@.len()
                ==> final(self).current_position == old(self).current_position + 1
                    && (r matches Some(ins)
                        && ins == old(self).instructions@[old(self).current_position as int]),
            old(self).current_position >= old(self).instructions@.len()
                ==> r is None && final(self).current_position == old(self).current_position,
    {
        if self.current_position >= self.instructions.len() {
            return None;
        }
        let instruction = self.instructions[self.current_position].duplicate();
        self.current_position = self.current_position + 1;
        Some(instruction)
    }

    /// Rescale one axis so that its bounds map onto `limit`.  The map is
    /// affine with a single rounding per coordinate, so the new bounds
    /// equal `limit` exactly; applying the same rescale again is then the
    /// identity.  Fails exactly when the axis has no extent to scale.
    pub fn scale_axis(&mut self, limit: &AxisLimit, axis: &Axis)
        -> (r: Result<(), &'static str>)
        requires
            old(self).wf(),
            limit.bounded(),
            limit.val[0] <= limit.val[1],
        ensures
            final(self).wf(),
            final(self).current_position == old(self).current_position,
            final(self).instructions@.len() == old(self).instructions@.len(),
            r is Ok <==> old(self).limit_of(*axis).val[0] < old(self).limit_of(*axis).val[1],
            r is Err ==> *final(self) == *old(self) && r->Err_0 == "Scale failed",
            r is Ok ==> ({
                let t = AxisTransformer {
                    num: (limit.val[1] - limit.val[0]) as i64,
                    den: (old(self).limit_of(*axis).val[1] - old(self).limit_of(*axis).val[0]) as i64,
                    base2: (2 * old(self).limit_of(*axis).val[0]) as i64,
                    target2: (2 * limit.val[0]) as i64,
                };
                &&& forall|i: int| 0 <= i < old(self).instructions@.len()
                        ==> ins_transformed(#[trigger] old(self).instructions@[i],
                            final(self).instructions@[i], t, *axis)
                &&& final(self).limit_of(*axis).val[0] == limit.val[0]
                &&& final(self).limit_of(*axis).val[1] == limit.val[1]
                &&& final(self).limit_of(flip(*axis)).val[0] == old(self).limit_of(flip(*axis)).val[0]
                &&& final(self).limit_of(flip(*axis)).val[1] == old(self).limit_of(flip(*axis)).val[1]
            }),
    {
        let cur: AxisLimit = match axis {
            Axis::X => self.x_limits,
            Axis::Y => self.y_limits,
        };
        proof {
            lemma_limits_bounded(self.instructions@, cur, *axis);
        }
        if cur.val[1] <= cur.val[0] {
            return Err("Scale failed");
        }
        let transformer = cur.transform_to(limit);
        let ghost old_ins = self.instructions@;
        let new_ins = transform_instructions(&self.instructions, &transformer, axis);
        proof {
            lemma_transform_endpoint(transformer);
            lemma_transformed_tight(old_ins, new_ins@, transformer, *axis,
                cur.val[0] as int, cur.val[1] as int);
            lemma_transposed_other_axis_tight_t(old_ins, new_ins@, transformer, *axis,
                self.limit_of(flip(*axis)).val[0] as int, self.limit_of(flip(*axis)).val[1] as int);
        }
        self.instructions = new_ins;
        self.recompute_limits();
        proof {
            let fl = flip(*axis);
            lemma_tight_unique(self.instructions@, self.instructions@.len() as int,
                self.limit_of(*axis).val[0] as int, self.limit_of(*axis).val[1] as int,
                limit.val[0] as int, limit.val[1] as int, *axis);
            lemma_tight_unique(self.instructions@, self.instructions@.len() as int,
                self.limit_of(fl).val[0] as int, self.limit_of(fl).val[1] as int,
                old(self).limit_of(fl).val[0] as int, old(self).limit_of(fl).val[1] as int, fl);
        }
        let new_limit: AxisLimit = match axis {
            Axis::X => self.x_limits,
            Axis::Y => self.y_limits,
        };
        if !new_limit.is_close_to(limit) {
            proof {
                assert(false);
            }
            return Err("Scale failed");
        }
        Ok(())
    }
}

/// A well-formed program's bounding limits are representable.
pub proof fn lemma_program_limits_bounded(p: PlotterProgram)
    requires
        p.wf(),
    ensures
        p.x_limits.bounded(),
        p.y_limits.bounded(),
        p.x_limits.val[0] <= p.x_limits.val[1],
        p.y_limits.val[0] <= p.y_limits.val[1],
{
    lemma_limits_bounded(p.instructions@, p.x_limits, Axis::X);
    lemma_limits_bounded(p.instructions@, p.y_limits, Axis::Y);
}

/// Tight bounds of a program whose moves are representable are themselves
/// representable.
proof fn lemma_limits_bounded(s: Seq<PlotterInstruction>, lim: AxisLimit, axis: Axis)
    requires
        limits_tight_sp(s, lim, axis),
        forall|i: int| 0 <= i < s.len() ==> ins_bounded(#[trigger] s[i]),
    ensures
        lim.bounded(),
        lim.val[0] <= lim.val[1],
{
    let n = s.len() as int;
    let w_lo = choose|i: int| 0 <= i < n && (#[trigger] s[i]) is Move
        && ins_coord(s[i], axis) == lim.val[0];
    let w_hi = choose|i: int| 0 <= i < n && (#[trigger] s[i]) is Move
        && ins_coord(s[i], axis) == lim.val[1];
    assert(ins_bounded(s[w_lo]) && within_sp(s[w_lo], lim.val[0] as int, lim.val[1] as int, axis));
    assert(ins_bounded(s[w_hi]));
}

/// A pointwise-transformed instruction list has the tight box given by the
/// transform of the old box's ends.
proof fn lemma_transformed_tight(a: Seq<PlotterInstruction>, b: Seq<PlotterInstruction>, t: AxisTransformer, axis: Axis, lo: int, hi: int)
    requires
        t.wf(),
        a.len() == b.len(),
        tight_upto(a, a.len() as int, lo, hi, axis),
        forall|i: int| 0 <= i < a.len() ==> ins_transformed(#[trigger] a[i], b[i], t, axis),
    ensures
        tight_upto(b, b.len() as int, transform_sp(t, lo), transform_sp(t, hi), axis),
{
    let n = a.len() as int;
    assert forall|i: int| 0 <= i < n
        implies within_sp(#[trigger] b[i], transform_sp(t, lo), transform_sp(t, hi), axis) by {
        assert(within_sp(a[i], lo, hi, axis));
        assert(ins_transformed(a[i], b[i], t, axis));
        if b[i] is Move {
            lemma_transform_mono(t, lo, ins_coord(a[i], axis));
            lemma_transform_mono(t, ins_coord(a[i], axis), hi);
        }
    }
    let w_lo = choose|i: int| 0 <= i < n && (#[trigger] a[i]) is Move
        && ins_coord(a[i], axis) == lo;
    assert(ins_transformed(a[w_lo], b[w_lo], t, axis));
    assert(b[w_lo] is Move && ins_coord(b[w_lo], axis) == transform_sp(t, lo));
    let w_hi = choose|i: int| 0 <= i < n && (#[trigger] a[i]) is Move
        && ins_coord(a[i], axis) == hi;
    assert(ins_transformed(a[w_hi], b[w_hi], t, axis));
    assert(b[w_hi] is Move && ins_coord(b[w_hi], axis) == transform_sp(t, hi));
}

/// A transform of one axis leaves the other axis's tight box tight.
proof fn lemma_transposed_other_axis_tight_t(a: Seq<PlotterInstruction>, b: Seq<PlotterInstruction>, t: AxisTransformer, axis: Axis, lo: int, hi: int)
    requires
        a.len() == b.len(),
        tight_upto(a, a.len() as int, lo, hi, flip(axis)),
        forall|i: int| 0 <= i < a.len() ==> ins_transformed(#[trigger] a[i], b[i], t, axis),
    ensures
        tight_upto(b, b.len() as int, lo, hi, flip(axis)),
{
    let n = a.len() as int;
    let fl = flip(axis);
    assert forall|i: int| 0 <= i < n implies within_sp(#[trigger] b[i], lo, hi, fl) by {
        assert(within_sp(a[i], lo, hi, fl));
        assert(ins_transformed(a[i], b[i], t, axis));
    }
    let w_lo = choose|i: int| 0 <= i < n && (#[trigger] a[i]) is Move
        && ins_coord(a[i], fl) == lo;
    assert(ins_transformed(a[w_lo], b[w_lo], t, axis));
    assert(b[w_lo] is Move && ins_coord(b[w_lo], fl) == lo);
    let w_hi = choose|i: int| 0 <= i < n && (#[trigger] a[i]) is Move
        && ins_coord(a[i], fl) == hi;
    assert(ins_transformed(a[w_hi], b[w_hi], t, axis));
    assert(b[w_hi] is Move && ins_coord(b[w_hi], fl) == hi);
}


/// `b` is `a` with the x coordinate sent through `tx` and the y coordinate
/// through `ty` (move instructions only).
pub open spec fn ins_transformed2(a: PlotterInstruction, b: PlotterInstruction, tx: AxisTransformer, ty: AxisTransformer) -> bool {
    match a {
        PlotterInstruction::Move(p) => {
            &&& b is Move
            &&& ins_coord(b, Axis::X) == transform_sp(tx, ins_coord(a, Axis::X))
            &&& ins_coord(b, Axis::Y) == transform_sp(ty, ins_coord(a, Axis::Y))
        },
        PlotterInstruction::PenUp => b is PenUp,
        PlotterInstruction::PenDown => b is PenDown,
        PlotterInstruction::Comment(c) => b matches PlotterInstruction::Comment(c2) && c2 == c,
        PlotterInstruction::NoOp => b is NoOp,
    }
}

/// The transformer `scale_keep_aspect` builds for the axis that is fitted
/// exactly.
pub open spec fn fit_transform_sp(cur: AxisLimit, target: AxisLimit) -> AxisTransformer {
    AxisTransformer {
        num: (target.val[1] - target.val[0]) as i64,
        den: (cur.val[1] - cur.val[0]) as i64,
        base2: (2 * cur.val[0]) as i64,
        target2: (2 * target.val[0]) as i64,
    }
}

/// The transformer `scale_keep_aspect` builds for the axis that takes the
/// other axis's scale `num/den` and is centred in its target.
pub open spec fn center_transform_sp(cur: AxisLimit, target: AxisLimit, num: i64, den: i64) -> AxisTransformer {
    AxisTransformer {
        num: num,
        den: den,
        base2: (cur.val[0] + cur.val[1]) as i64,
        target2: (target.val[0] + target.val[1]) as i64,
    }
}

/// A coordinate inside the source interval of a centring transform lands
/// inside the target interval, provided the scale does not exceed the
/// ratio of the two widths.
proof fn lemma_center_in_target(t: AxisTransformer, c0: int, c1: int, o0: int, o1: int, v: int)
    requires
        t.wf(),
        t.base2 == c0 + c1,
        t.target2 == o0 + o1,
        o0 <= o1,
        c0 <= v <= c1,
        t.num * (c1 - c0) <= t.den * (o1 - o0),
    ensures
        o0 <= transform_sp(t, v) <= o1,
{
    lemma_transform_mono(t, c0, v);
    lemma_transform_mono(t, v, c1);
    let d = t.den;
    let n = t.num;
    let q1 = transform_sp(t, c1);
    let q0 = transform_sp(t, c0);
    crate::num::lemma_div_round_err(t.target2 * d + (2 * c1 - t.base2) * n, 2 * d);
    crate::num::lemma_div_round_err(t.target2 * d + (2 * c0 - t.base2) * n, 2 * d);
    assert((2 * d) / 2 == d);
    assert((2 * c1 - (c0 + c1)) * n == (c1 - c0) * n) by (nonlinear_arith);
    assert((2 * c0 - (c0 + c1)) * n == -((c1 - c0) * n)) by (nonlinear_arith);
    assert((c1 - c0) * n == n * (c1 - c0)) by (nonlinear_arith);
    assert(q1 * (2 * d) <= (o0 + o1) * d + d * (o1 - o0) + d);
    assert((o0 + o1) * d + d * (o1 - o0) + d == (2 * o1) * d + d) by (nonlinear_arith);
    assert(q1 <= o1) by (nonlinear_arith)
        requires q1 * (2 * d) <= (2 * o1) * d + d, d >= 1;
    assert(q0 * (2 * d) >= (o0 + o1) * d - d * (o1 - o0) - d);
    assert((o0 + o1) * d - d * (o1 - o0) - d == (2 * o0) * d - d) by (nonlinear_arith);
    assert(q0 >= o0) by (nonlinear_arith)
        requires q0 * (2 * d) >= (2 * o0) * d - d, d >= 1;
}

/// Aspect preservation: the centred axis's new extent differs from the old
/// extent scaled by `num/den` by at most one coordinate unit:
/// |den * new_extent - old_extent * num| <= den.  Together with the fitted
/// axis mapping its extent to `num` exactly, the x:y extent ratio after
/// `scale_keep_aspect` equals the ratio before it up to that one rounding
/// unit.
pub proof fn lemma_keep_aspect_extent(t: AxisTransformer, c0: int, c1: int)
    requires
        t.wf(),
        t.base2 == c0 + c1,
        c0 <= c1,
    ensures
        t.den * (transform_sp(t, c1) - transform_sp(t, c0)) - (c1 - c0) * t.num <= t.den,
        -(t.den) <= t.den * (transform_sp(t, c1) - transform_sp(t, c0)) - (c1 - c0) * t.num,
{
    let d = t.den;
    let n = t.num;
    let q1 = transform_sp(t, c1);
    let q0 = transform_sp(t, c0);
    crate::num::lemma_div_round_err(t.target2 * d + (2 * c1 - t.base2) * n, 2 * d);
    crate::num::lemma_div_round_err(t.target2 * d + (2 * c0 - t.base2) * n, 2 * d);
    assert((2 * d) / 2 == d);
    assert((2 * c1 - (c0 + c1)) * n == (c1 - c0) * n) by (nonlinear_arith);
    assert((2 * c0 - (c0 + c1)) * n == -((c1 - c0) * n)) by (nonlinear_arith);
    assert((q1 - q0) * (2 * d) == q1 * (2 * d) - q0 * (2 * d)) by (nonlinear_arith);
    assert((q1 - q0) * (2 * d) - 2 * ((c1 - c0) * n) <= 2 * d);
    assert((q1 - q0) * (2 * d) - 2 * ((c1 - c0) * n) >= -(2 * d));
    assert(d * (q1 - q0) * 2 == (q1 - q0) * (2 * d)) by (nonlinear_arith);
    assert(d * (q1 - q0) - (c1 - c0) * n <= d && -(d) <= d * (q1 - q0) - (c1 - c0) * n)
        by (nonlinear_arith)
        requires d * (q1 - q0) * 2 == (q1 - q0) * (2 * d),
            (q1 - q0) * (2 * d) - 2 * ((c1 - c0) * n) <= 2 * d,
            (q1 - q0) * (2 * d) - 2 * ((c1 - c0) * n) >= -(2 * d);
}

/// A pointwise-transposed instruction list has its tight box shifted.
proof fn lemma_transposed_tight(a: Seq<PlotterInstruction>, b: Seq<PlotterInstruction>, dx: int, dy: int, lo: int, hi: int, axis: Axis)
    requires
        a.len() == b.len(),
        tight_upto(a, a.len() as int, lo, hi, axis),
        forall|i: int| 0 <= i < a.len() ==> ins_transposed(#[trigger] a[i], b[i], dx, dy),
    ensures
        tight_upto(b, b.len() as int, lo + (if axis is X { dx } else { dy }),
            hi + (if axis is X { dx } else { dy }), axis),
{
    let n = a.len() as int;
    let o = if axis is X { dx } else { dy };
    assert forall|i: int| 0 <= i < n implies within_sp(#[trigger] b[i], lo + o, hi + o, axis) by {
        assert(within_sp(a[i], lo, hi, axis));
        assert(ins_transposed(a[i], b[i], dx, dy));
    }
    let w_lo = choose|i: int| 0 <= i < n && (#[trigger] a[i]) is Move
        && ins_coord(a[i], axis) == lo;
    assert(ins_transposed(a[w_lo], b[w_lo], dx, dy));
    assert(b[w_lo] is Move && ins_coord(b[w_lo], axis) == lo + o);
    let w_hi = choose|i: int| 0 <= i < n && (#[trigger] a[i]) is Move
        && ins_coord(a[i], axis) == hi;
    assert(ins_transposed(a[w_hi], b[w_hi], dx, dy));
    assert(b[w_hi] is Move && ins_coord(b[w_hi], axis) == hi + o);
}

/// The rounded centring offset keeps a narrower interval inside the wider
/// target.
proof fn lemma_transpose_in_target(c0: int, c1: int, o0: int, o1: int)
    requires
        c0 <= c1,
        c1 - c0 <= o1 - o0,
    ensures
        o0 <= c0 + div_round(o0 + o1 - c0 - c1, 2),
        c1 + div_round(o0 + o1 - c0 - c1, 2) <= o1,
{
    let off = div_round(o0 + o1 - c0 - c1, 2);
    crate::num::lemma_div_round_err(o0 + o1 - c0 - c1, 2);
    assert(off * 2 == 2 * off);
}

impl PlotterProgram {
    /// Scale both axes by one common ratio, the smaller of the two axes'
    /// fit ratios, fitting the binding axis onto its target exactly and
    /// centring the other in its target.  The x:y extent ratio is preserved
    /// to within one coordinate unit (`lemma_keep_aspect_extent`).
    pub fn scale_keep_aspect(&mut self, x_limit: &AxisLimit, y_limit: &AxisLimit) -> (r: Result<(), &'static str>)
        requires
            old(self).wf(),
            x_limit.bounded(),
            y_limit.bounded(),
            x_limit.val[0] <= x_limit.val[1],
            y_limit.val[0] <= y_limit.val[1],
        ensures
            final(self).wf(),
            final(self).current_position == old(self).current_position,
            final(self).instructions@.len() == old(self).instructions@.len(),
            (r is Ok <==> old(self).x_limits.val[0] < old(self).x_limits.val[1]
                && old(self).y_limits.val[0] < old(self).y_limits.val[1]),
            r is Err ==> r->Err_0 == "Scale failed" && *final(self) == *old(self),
            r is Ok ==> ({
                let nx = x_limit.val[1] - x_limit.val[0];
                let ny = y_limit.val[1] - y_limit.val[0];
                let ex = old(self).x_limits.val[1] - old(self).x_limits.val[0];
                let ey = old(self).y_limits.val[1] - old(self).y_limits.val[0];
                let x_adjusted = nx * ey > ny * ex;
                let tx = if x_adjusted {
                    center_transform_sp(old(self).x_limits, *x_limit, ny as i64, ey as i64)
                } else {
                    fit_transform_sp(old(self).x_limits, *x_limit)
                };
                let ty = if x_adjusted {
                    fit_transform_sp(old(self).y_limits, *y_limit)
                } else {
                    center_transform_sp(old(self).y_limits, *y_limit, nx as i64, ex as i64)
                };
                &&& (forall|i: int| 0 <= i < old(self).instructions@.len()
                        ==> ins_transformed2(#[trigger] old(self).instructions@[i],
                            final(self).instructions@[i], tx, ty))
                &&& final(self).x_limits.val[0]
                        == transform_sp(tx, old(self).x_limits.val[0] as int)
                &&& final(self).x_limits.val[1]
                        == transform_sp(tx, old(self).x_limits.val[1] as int)
                &&& final(self).y_limits.val[0]
                        == transform_sp(ty, old(self).y_limits.val[0] as int)
                &&& final(self).y_limits.val[1]
                        == transform_sp(ty, old(self).y_limits.val[1] as int)
                &&& x_limit.val[0] <= final(self).x_limits.val[0]
                &&& final(self).x_limits.val[1] <= x_limit.val[1]
                &&& y_limit.val[0] <= final(self).y_limits.val[0]
                &&& final(self).y_limits.val[1] <= y_limit.val[1]
            }),
    {
        proof {
            lemma_limits_bounded(self.instructions@, self.x_limits, Axis::X);
            lemma_limits_bounded(self.instructions@, self.y_limits, Axis::Y);
        }
        let ex: i64 = self.x_limits.val[1] - self.x_limits.val[0];
        let ey: i64 = self.y_limits.val[1] - self.y_limits.val[0];
        if ex <= 0 || ey <= 0 {
            return Err("Scale failed");
        }
        let nx: i64 = x_limit.val[1] - x_limit.val[0];
        let ny: i64 = y_limit.val[1] - y_limit.val[0];
        proof {
            assert(-16_000_000_000_000_000_000 <= (nx as int) * (ey as int)
                    <= 16_000_000_000_000_000_000
                && -16_000_000_000_000_000_000 <= (ny as int) * (ex as int)
                    <= 16_000_000_000_000_000_000) by (nonlinear_arith)
                requires -4_000_000_000 <= nx <= 4_000_000_000,
                    -4_000_000_000 <= ny <= 4_000_000_000,
                    -4_000_000_000 <= ex <= 4_000_000_000,
                    -4_000_000_000 <= ey <= 4_000_000_000;
        }
        let x_adjusted: bool = (nx as i128) * (ey as i128) > (ny as i128) * (ex as i128);
        let tx: AxisTransformer = if x_adjusted {
            AxisTransformer::new(ny, ey, self.x_limits.val[0] + self.x_limits.val[1],
                x_limit.val[0] + x_limit.val[1])
        } else {
            self.x_limits.transform_to(x_limit)
        };
        let ty: AxisTransformer = if x_adjusted {
            self.y_limits.transform_to(y_limit)
        } else {
            AxisTransformer::new(nx, ex, self.y_limits.val[0] + self.y_limits.val[1],
                y_limit.val[0] + y_limit.val[1])
        };
        let ghost old_ins = self.instructions@;
        let ghost old_x = self.x_limits;
        let ghost old_y = self.y_limits;
        let mid_ins = transform_instructions(&self.instructions, &tx, &Axis::X);
        proof {
            if x_adjusted {
                assert forall|i: int| 0 <= i < mid_ins@.len()
                    implies ins_bounded(#[trigger] mid_ins@[i]) by {
                    assert(ins_transformed(old_ins[i], mid_ins@[i], tx, Axis::X));
                    assert(ins_bounded(old_ins[i]));
                    assert(within_sp(old_ins[i], old_x.val[0] as int, old_x.val[1] as int, Axis::X));
                    if mid_ins@[i] is Move {
                        assert(tx.num * (old_x.val[1] - old_x.val[0]) <= tx.den * (x_limit.val[1] - x_limit.val[0]))
                            by (nonlinear_arith)
                            requires tx.num == ny, tx.den == ey,
                                (nx as int) * (ey as int) > (ny as int) * (ex as int),
                                ex == old_x.val[1] - old_x.val[0],
                                nx == x_limit.val[1] - x_limit.val[0];
                        lemma_center_in_target(tx, old_x.val[0] as int, old_x.val[1] as int,
                            x_limit.val[0] as int, x_limit.val[1] as int,
                            ins_coord(old_ins[i], Axis::X));
                    }
                }
                lemma_transformed_tight(old_ins, mid_ins@, tx, Axis::X,
                    old_x.val[0] as int, old_x.val[1] as int);
            } else {
                lemma_transform_endpoint(tx);
                assert forall|i: int| 0 <= i < mid_ins@.len()
                    implies ins_bounded(#[trigger] mid_ins@[i]) by {
                    assert(ins_transformed(old_ins[i], mid_ins@[i], tx, Axis::X));
                    assert(ins_bounded(old_ins[i]));
                    assert(within_sp(old_ins[i], old_x.val[0] as int, old_x.val[1] as int, Axis::X));
                    if mid_ins@[i] is Move {
                        lemma_transform_mono(tx, old_x.val[0] as int, ins_coord(old_ins[i], Axis::X));
                        lemma_transform_mono(tx, ins_coord(old_ins[i], Axis::X), old_x.val[1] as int);
                    }
                }
                lemma_transformed_tight(old_ins, mid_ins@, tx, Axis::X,
                    old_x.val[0] as int, old_x.val[1] as int);
            }
            lemma_transposed_other_axis_tight_t(old_ins, mid_ins@, tx, Axis::X,
                old_y.val[0] as int, old_y.val[1] as int);
        }
        let new_ins = transform_instructions(&mid_ins, &ty, &Axis::Y);
        proof {
            if x_adjusted {
                lemma_transform_endpoint(ty);
                assert forall|i: int| 0 <= i < new_ins@.len()
                    implies ins_bounded(#[trigger] new_ins@[i]) by {
                    assert(ins_transformed(mid_ins@[i], new_ins@[i], ty, Axis::Y));
                    assert(ins_bounded(mid_ins@[i]));
                    assert(within_sp(mid_ins@[i], old_y.val[0] as int, old_y.val[1] as int, Axis::Y));
                    if new_ins@[i] is Move {
                        lemma_transform_mono(ty, old_y.val[0] as int, ins_coord(mid_ins@[i], Axis::Y));
                        lemma_transform_mono(ty, ins_coord(mid_ins@[i], Axis::Y), old_y.val[1] as int);
                    }
                }
            } else {
                assert forall|i: int| 0 <= i < new_ins@.len()
                    implies ins_bounded(#[trigger] new_ins@[i]) by {
                    assert(ins_transformed(mid_ins@[i], new_ins@[i], ty, Axis::Y));
                    assert(ins_bounded(mid_ins@[i]));
                    assert(within_sp(mid_ins@[i], old_y.val[0] as int, old_y.val[1] as int, Axis::Y));
                    if new_ins@[i] is Move {
                        assert(ty.num * (old_y.val[1] - old_y.val[0]) <= ty.den * (y_limit.val[1] - y_limit.val[0]))
                            by (nonlinear_arith)
                            requires ty.num == nx, ty.den == ex,
                                !((nx as int) * (ey as int) > (ny as int) * (ex as int)),
                                ey == old_y.val[1] - old_y.val[0],
                                ny == y_limit.val[1] - y_limit.val[0];
                        lemma_center_in_target(ty, old_y.val[0] as int, old_y.val[1] as int,
                            y_limit.val[0] as int, y_limit.val[1] as int,
                            ins_coord(mid_ins@[i], Axis::Y));
                    }
                }
            }
            lemma_transformed_tight(mid_ins@, new_ins@, ty, Axis::Y,
                old_y.val[0] as int, old_y.val[1] as int);
            lemma_transposed_other_axis_tight_t(mid_ins@, new_ins@, ty, Axis::Y,
                transform_sp(tx, old_x.val[0] as int), transform_sp(tx, old_x.val[1] as int));
            assert forall|i: int| 0 <= i < old_ins.len()
                implies ins_transformed2(#[trigger] old_ins[i], new_ins@[i], tx, ty) by {
                assert(ins_transformed(old_ins[i], mid_ins@[i], tx, Axis::X));
                assert(ins_transformed(mid_ins@[i], new_ins@[i], ty, Axis::Y));
            }
            let w = choose|i: int| 0 <= i < old_ins.len() && (#[trigger] old_ins[i]) is Move
                && ins_coord(old_ins[i], Axis::X) == old_x.val[0];
            assert(ins_transformed2(old_ins[w], new_ins@[w], tx, ty));
            assert(new_ins@[w] is Move);
        }
        self.instructions = new_ins;
        self.recompute_limits();
        proof {
            lemma_tight_unique(self.instructions@, self.instructions@.len() as int,
                self.x_limits.val[0] as int, self.x_limits.val[1] as int,
                transform_sp(tx, old_x.val[0] as int), transform_sp(tx, old_x.val[1] as int),
                Axis::X);
            lemma_tight_unique(self.instructions@, self.instructions@.len() as int,
                self.y_limits.val[0] as int, self.y_limits.val[1] as int,
                transform_sp(ty, old_y.val[0] as int), transform_sp(ty, old_y.val[1] as int),
                Axis::Y);
            lemma_limits_bounded(self.instructions@, self.x_limits, Axis::X);
            lemma_limits_bounded(self.instructions@, self.y_limits, Axis::Y);
        }
        proof {
            if x_adjusted {
                assert(tx.num * (old_x.val[1] - old_x.val[0])
                    <= tx.den * (x_limit.val[1] - x_limit.val[0])) by (nonlinear_arith)
                    requires tx.num == ny, tx.den == ey,
                        (nx as int) * (ey as int) > (ny as int) * (ex as int),
                        ex == old_x.val[1] - old_x.val[0],
                        nx == x_limit.val[1] - x_limit.val[0];
                lemma_center_in_target(tx, old_x.val[0] as int, old_x.val[1] as int,
                    x_limit.val[0] as int, x_limit.val[1] as int, old_x.val[0] as int);
                lemma_center_in_target(tx, old_x.val[0] as int, old_x.val[1] as int,
                    x_limit.val[0] as int, x_limit.val[1] as int, old_x.val[1] as int);
                lemma_transform_endpoint(ty);
            } else {
                assert(ty.num * (old_y.val[1] - old_y.val[0])
                    <= ty.den * (y_limit.val[1] - y_limit.val[0])) by (nonlinear_arith)
                    requires ty.num == nx, ty.den == ex,
                        !((nx as int) * (ey as int) > (ny as int) * (ex as int)),
                        ey == old_y.val[1] - old_y.val[0],
                        ny == y_limit.val[1] - y_limit.val[0];
                lemma_center_in_target(ty, old_y.val[0] as int, old_y.val[1] as int,
                    y_limit.val[0] as int, y_limit.val[1] as int, old_y.val[0] as int);
                lemma_center_in_target(ty, old_y.val[0] as int, old_y.val[1] as int,
                    y_limit.val[0] as int, y_limit.val[1] as int, old_y.val[1] as int);
                lemma_transform_endpoint(tx);
            }
        }
        // the fitted axis lands exactly on its target and the centred axis
        // stays inside it, so a non-degenerate program always scales
        Ok(())
    }

    /// Translate the program so that each axis is centred in its target
    /// interval, without scaling.  Fails with "Too large to center" when
    /// the program is wider than the target on either axis.
    pub fn center_keep_aspect(&mut self, x_limit: &AxisLimit, y_limit: &AxisLimit) -> (r: Result<(), &'static str>)
        requires
            old(self).wf(),
            x_limit.bounded(),
            y_limit.bounded(),
            x_limit.val[0] <= x_limit.val[1],
            y_limit.val[0] <= y_limit.val[1],
        ensures
            final(self).wf(),
            final(self).current_position == old(self).current_position,
            final(self).instructions@.len() == old(self).instructions@.len(),
            r is Err ==> *final(self) == *old(self),
            (old(self).x_limits.val[1] - old(self).x_limits.val[0]
                    > x_limit.val[1] - x_limit.val[0]
                || old(self).y_limits.val[1] - old(self).y_limits.val[0]
                    > y_limit.val[1] - y_limit.val[0])
                <==> r is Err,
            r is Err ==> r->Err_0 == "Too large to center",
            r is Ok ==> ({
                let dx = div_round(
                    x_limit.val[0] + x_limit.val[1]
                        - old(self).x_limits.val[0] - old(self).x_limits.val[1], 2);
                let dy = div_round(
                    y_limit.val[0] + y_limit.val[1]
                        - old(self).y_limits.val[0] - old(self).y_limits.val[1], 2);
                &&& (forall|i: int| 0 <= i < old(self).instructions@.len()
                        ==> ins_transposed(#[trigger] old(self).instructions@[i],
                            final(self).instructions@[i], dx, dy))
                &&& final(self).x_limits.val[0] == old(self).x_limits.val[0] + dx
                &&& final(self).x_limits.val[1] == old(self).x_limits.val[1] + dx
                &&& final(self).y_limits.val[0] == old(self).y_limits.val[0] + dy
                &&& final(self).y_limits.val[1] == old(self).y_limits.val[1] + dy
                &&& x_limit.val[0] <= final(self).x_limits.val[0]
                &&& final(self).x_limits.val[1] <= x_limit.val[1]
                &&& y_limit.val[0] <= final(self).y_limits.val[0]
                &&& final(self).y_limits.val[1] <= y_limit.val[1]
            }),
    {
        proof {
            lemma_limits_bounded(self.instructions@, self.x_limits, Axis::X);
            lemma_limits_bounded(self.instructions@, self.y_limits, Axis::Y);
        }
        let x_transpose = match self.x_limits.center_to(x_limit) {
            Ok(t) => t,
            Err(e) => {
                return Err(e);
            }
        };
        let y_transpose = match self.y_limits.center_to(y_limit) {
            Ok(t) => t,
            Err(e) => {
                return Err(e);
            }
        };
        proof {
            lemma_transpose_in_target(self.x_limits.val[0] as int, self.x_limits.val[1] as int,
                x_limit.val[0] as int, x_limit.val[1] as int);
            lemma_transpose_in_target(self.y_limits.val[0] as int, self.y_limits.val[1] as int,
                y_limit.val[0] as int, y_limit.val[1] as int);
        }
        let ghost old_ins = self.instructions@;
        let ghost old_x = self.x_limits;
        let ghost old_y = self.y_limits;
        let new_ins = transpose_instructions(&self.instructions,
            x_transpose.offset, y_transpose.offset);
        proof {
            assert forall|i: int| 0 <= i < new_ins@.len()
                implies ins_bounded(#[trigger] new_ins@[i]) by {
                assert(ins_transposed(old_ins[i], new_ins@[i],
                    x_transpose.offset as int, y_transpose.offset as int));
                assert(ins_bounded(old_ins[i]));
                assert(within_sp(old_ins[i], old_x.val[0] as int, old_x.val[1] as int, Axis::X));
                assert(within_sp(old_ins[i], old_y.val[0] as int, old_y.val[1] as int, Axis::Y));
            }
            lemma_transposed_tight(old_ins, new_ins@, x_transpose.offset as int,
                y_transpose.offset as int, old_x.val[0] as int, old_x.val[1] as int, Axis::X);
            lemma_transposed_tight(old_ins, new_ins@, x_transpose.offset as int,
                y_transpose.offset as int, old_y.val[0] as int, old_y.val[1] as int, Axis::Y);
            let w = choose|i: int| 0 <= i < old_ins.len() && (#[trigger] old_ins[i]) is Move
                && ins_coord(old_ins[i], Axis::X) == old_x.val[0];
            assert(ins_transposed(old_ins[w], new_ins@[w],
                x_transpose.offset as int, y_transpose.offset as int));
            assert(new_ins@[w] is Move);
        }
        self.instructions = new_ins;
        self.recompute_limits();
        proof {
            lemma_tight_unique(self.instructions@, self.instructions@.len() as int,
                self.x_limits.val[0] as int, self.x_limits.val[1] as int,
                old_x.val[0] + x_transpose.offset, old_x.val[1] + x_transpose.offset, Axis::X);
            lemma_tight_unique(self.instructions@, self.instructions@.len() as int,
                self.y_limits.val[0] as int, self.y_limits.val[1] as int,
                old_y.val[0] + y_transpose.offset, old_y.val[1] + y_transpose.offset, Axis::Y);
            lemma_limits_bounded(self.instructions@, self.x_limits, Axis::X);
            lemma_limits_bounded(self.instructions@, self.y_limits, Axis::Y);
        }
        // the rounded centring offsets keep both bounds inside their
        // targets, so a program that fits always centres
        Ok(())
    }
}


/// Scale idempotence: the transform that `scale_axis` builds when an
/// axis's bounds already equal the target (as they do right after a first
/// `scale_axis` onto that target) maps every coordinate to itself, so a
/// second identical rescale changes neither the instructions nor the
/// bounds.
pub proof fn lemma_scale_axis_idempotent(lim: AxisLimit, v: int)
    requires
        lim.bounded(),
        lim.val[0] < lim.val[1],
    ensures
        transform_sp(fit_transform_sp(lim, lim), v) == v,
{
    lemma_transform_identity(fit_transform_sp(lim, lim), v);
}

/// The decimal digits of `n`, most significant first, as ASCII bytes.
pub open spec fn dec_rep(n: nat) -> Seq<u8>
    decreases n,
{
    if n < 10 {
        seq![(48 + n) as u8]
    } else {
        dec_rep(n / 10) + seq![(48 + n % 10) as u8]
    }
}

/// ASCII bytes reinterpreted as characters.
pub open spec fn chars_of(s: Seq<u8>) -> Seq<char> {
    s.map_values(|b: u8| b as char)
}

/// Append the decimal digits of `n`.
fn push_dec(n: u64, out: &mut Vec<u8>)
    ensures
        final(out)@ == old(out)@ + dec_rep(n as nat),
    decreases n,
{
    if n < 10 {
        out.push(48 + (n as u8));
        proof {
            assert(final(out)@ =~= old(out)@ + dec_rep(n as nat));
        }
    } else {
        push_dec(n / 10, out);
        out.push(48 + ((n % 10) as u8));
        proof {
            assert(final(out)@ =~= old(out)@ + dec_rep(n as nat));
        }
    }
}

/// The millimetre rendering of a non-negative micrometre value: the whole
/// millimetres, then, if any, a dot and the three-digit micrometre
/// fraction.
pub open spec fn mm_rep(um: nat) -> Seq<u8> {
    if um % 1000 == 0 {
        dec_rep(um / 1000)
    } else {
        dec_rep(um / 1000) + seq![46u8, (48 + (um % 1000) / 100) as u8,
            (48 + ((um % 1000) / 10) % 10) as u8, (48 + um % 10) as u8]
    }
}

/// Render a non-negative micrometre value in millimetres.
fn push_mm(um: u64, out: &mut Vec<u8>)
    ensures
        final(out)@ == old(out)@ + mm_rep(um as nat),
{
    push_dec(um / 1000, out);
    let frac: u64 = um % 1000;
    if frac != 0 {
        out.push(46);
        out.push(48 + ((frac / 100) as u8));
        out.push(48 + (((frac / 10) % 10) as u8));
        out.push(48 + ((um % 10) as u8));
        proof {
            assert(final(out)@ =~= old(out)@ + mm_rep(um as nat));
        }
    } else {
        proof {
            assert(final(out)@ =~= old(out)@ + mm_rep(um as nat));
        }
    }
}

/// Decimal digits are ASCII.
proof fn lemma_dec_rep_ascii(n: nat)
    ensures
        forall|i: int| 0 <= i < dec_rep(n).len() ==> #[trigger] dec_rep(n)[i] < 128,
    decreases n,
{
    if n < 10 {
        assert(dec_rep(n) == seq![(48 + n) as u8]);
        assert(dec_rep(n)[0] == (48 + n) as u8);
    } else {
        lemma_dec_rep_ascii(n / 10);
        assert forall|i: int| 0 <= i < dec_rep(n).len() implies #[trigger] dec_rep(n)[i] < 128 by {
            if i < dec_rep(n / 10).len() {
                assert(dec_rep(n)[i] == dec_rep(n / 10)[i]);
            } else {
                assert(dec_rep(n)[i] == (48 + n % 10) as u8);
            }
        }
    }
}

/// The millimetre rendering is ASCII.
proof fn lemma_mm_rep_ascii(um: nat)
    ensures
        forall|i: int| 0 <= i < mm_rep(um).len() ==> #[trigger] mm_rep(um)[i] < 128,
{
    lemma_dec_rep_ascii(um / 1000);
}

/// Relies on core::str::from_utf8: ASCII bytes decode to the string of the
/// characters with the same code points.
#[verifier::external_body]
fn ascii_bytes_to_string(b: &Vec<u8>) -> (r: String)
    requires
        forall|i: int| 0 <= i < b@.len() ==> b@[i] < 128,
    ensures
        r@ == chars_of(b@),
{
    match core::str::from_utf8(b.as_slice()) {
        Ok(s) => s.to_owned(),
        Err(_) => String::new(),
    }
}

/// The commands of the recognized G-code subset.
#[derive(Clone, Copy, Debug, PartialEq, Eq, Structural)]
pub enum GCommand {
    FastMove,
    Move,
    UseMM,
    AbsoluteDistance,
    AutoHoming,
}

/// One G-code block being assembled: the command word and the axis, feed
/// and comment words seen so far.  Numeric words are micrometres (axis
/// words) or thousandths of the raw value (G and F words).
pub struct GCode {
    pub command: Option<GCommand>,
    pub x: Option<i64>,
    pub y: Option<i64>,
    pub z: Option<i64>,
    pub f: Option<i64>,
    pub comment: Option<String>,
}

impl GCode {
    pub fn new() -> (r: Self)
        ensures
            r.command is None && r.x is None && r.y is None && r.z is None
                && r.f is None && r.comment is None,
    {
        GCode { command: None, x: None, y: None, z: None, f: None, comment: None }
    }

    /// Has any word been seen?
    pub fn is_empty(&self) -> (r: bool)
        ensures
            r == (self.command is None && self.x is None && self.y is None
                && self.z is None && self.f is None && self.comment is None),
    {
        self.command.is_none() && self.x.is_none() && self.y.is_none() && self.z.is_none()
            && self.f.is_none() && self.comment.is_none()
    }

    /// Record the block's G word; only the plotter subset is recognized.
    /// The value is scaled by 1000, as the number parser delivers it.
    pub fn with_g(&mut self, val: i64) -> (r: Result<(), &'static str>)
        ensures
            r is Ok <==> (val == 0 || val == 1000 || val == 21_000 || val == 90_000
                || val == 28_000),
            r is Err ==> *final(self) == *old(self) && r->Err_0 == "unrecognized G-code",
            r is Ok ==> final(self).command == Some(match val {
                0i64 => GCommand::FastMove,
                1000i64 => GCommand::Move,
                21_000i64 => GCommand::UseMM,
                90_000i64 => GCommand::AbsoluteDistance,
                _ => GCommand::AutoHoming,
            }) && final(self).x == old(self).x && final(self).y == old(self).y
                && final(self).z == old(self).z && final(self).f == old(self).f
                && final(self).comment == old(self).comment,
    {
        let command = match val {
            0 => GCommand::FastMove,
            1000 => GCommand::Move,
            21_000 => GCommand::UseMM,
            90_000 => GCommand::AbsoluteDistance,
            28_000 => GCommand::AutoHoming,
            _ => {
                return Err("unrecognized G-code");
            }
        };
        self.command = Some(command);
        Ok(())
    }

    pub fn with_x(&mut self, val: i64)
        ensures
            *final(self) == (GCode { x: Some(val), ..*old(self) }),
    {
        self.x = Some(val);
    }

    pub fn with_y(&mut self, val: i64)
        ensures
            *final(self) == (GCode { y: Some(val), ..*old(self) }),
    {
        self.y = Some(val);
    }

    pub fn with_z(&mut self, val: i64)
        ensures
            *final(self) == (GCode { z: Some(val), ..*old(self) }),
    {
        self.z = Some(val);
    }

    pub fn with_f(&mut self, val: i64)
        ensures
            *final(self) == (GCode { f: Some(val), ..*old(self) }),
    {
        self.f = Some(val);
    }

    pub fn with_comment(&mut self, val: String)
        ensures
            final(self).comment == Some(val) && final(self).command == old(self).command
                && final(self).x == old(self).x && final(self).y == old(self).y
                && final(self).z == old(self).z && final(self).f == old(self).f,
    {
        self.comment = Some(val);
    }

    /// An equal copy.
    pub fn duplicate(&self) -> (r: Self)
        ensures
            r == *self,
    {
        GCode {
            command: self.command,
            x: self.x,
            y: self.y,
            z: self.z,
            f: self.f,
            comment: match &self.comment {
                Some(c) => Some(c.clone()),
                None => None,
            },
        }
    }

    /// Apply an axis transform to the block's coordinate word, if present.
    pub fn transform(&mut self, transform: &AxisTransformer, axis: &Axis)
        requires
            transform.wf(),
            (old(self).x matches Some(v) ==> -COORD_MAX <= v <= COORD_MAX),
            (old(self).y matches Some(v) ==> -COORD_MAX <= v <= COORD_MAX),
        ensures
            (*axis is X && old(self).x is Some)
                ==> *final(self) == (GCode {
                    x: Some(transform_sp(*transform, old(self).x->Some_0 as int) as i64),
                    ..*old(self) }),
            (*axis is Y && old(self).y is Some)
                ==> *final(self) == (GCode {
                    y: Some(transform_sp(*transform, old(self).y->Some_0 as int) as i64),
                    ..*old(self) }),
            (*axis is X && old(self).x is None) || (*axis is Y && old(self).y is None)
                ==> *final(self) == *old(self),
    {
        match axis {
            Axis::X => {
                match &mut self.x {
                    Some(inner) => {
                        transform.transform(inner);
                    }
                    None => {}
                }
            }
            Axis::Y => {
                match &mut self.y {
                    Some(inner) => {
                        transform.transform(inner);
                    }
                    None => {}
                }
            }
        }
    }
}

/// Lower one assembled G-code block to a plotter instruction, as the
/// recognized subset prescribes: a move with only Z is a pen lift (down at
/// zero, up above), a move with X/Y is a pen move, a move with only F is a
/// feed note, the modal commands become comments, a bare comment stays a
/// comment, and an empty block is a no-op.
pub fn to_instruction(value: GCode) -> (r: Result<PlotterInstruction, &'static str>)
    ensures
        (value.command == Some(GCommand::Move) || value.command == Some(GCommand::FastMove))
            ==> ({
            if value.z is Some {
                if value.x is Some || value.y is Some {
                    r == Result::<PlotterInstruction, &'static str>::Err("Did not expect a 3D move")
                } else if value.z->Some_0 < 0 {
                    r == Result::<PlotterInstruction, &'static str>::Err(
                        "Did not expect negative z value")
                } else if value.z->Some_0 == 0 {
                    r == Result::<PlotterInstruction, &'static str>::Ok(PlotterInstruction::PenDown)
                } else {
                    r == Result::<PlotterInstruction, &'static str>::Ok(PlotterInstruction::PenUp)
                }
            } else {
                if value.f is Some && value.x is None && value.y is None {
                    &&& r is Ok
                    &&& r->Ok_0 is Comment
                    &&& (value.f->Some_0 >= 0
                        ==> r->Ok_0->Comment_0@ == "feed "@ + chars_of(mm_rep(value.f->Some_0 as nat)))
                } else if value.x is None {
                    r == Result::<PlotterInstruction, &'static str>::Err("Move missing X")
                } else if value.y is None {
                    r == Result::<PlotterInstruction, &'static str>::Err("Move missing Y")
                } else {
                    &&& r is Ok
                    &&& r->Ok_0 is Move
                    &&& value.x == Some(r->Ok_0->Move_0.xy[0])
                    &&& value.y == Some(r->Ok_0->Move_0.xy[1])
                }
            }
        }),
        value.command == Some(GCommand::UseMM)
            ==> r is Ok && r->Ok_0 is Comment && r->Ok_0->Comment_0@ == "Use mm"@,
        value.command == Some(GCommand::AbsoluteDistance)
            ==> r is Ok && r->Ok_0 is Comment && r->Ok_0->Comment_0@ == "Absolute distance"@,
        value.command == Some(GCommand::AutoHoming)
            ==> r is Ok && r->Ok_0 is Comment && r->Ok_0->Comment_0@ == "Auto homing"@,
        value.command is None && value.comment is Some
            ==> r == Result::<PlotterInstruction, &'static str>::Ok(
                PlotterInstruction::Comment(value.comment->Some_0)),
        value.command is None && value.comment is None
            ==> r == Result::<PlotterInstruction, &'static str>::Ok(PlotterInstruction::NoOp),
{
    match value.command {
        Some(command) => match command {
            GCommand::Move | GCommand::FastMove => match value.z {
                Some(z_val) => {
                    if value.x.is_some() || value.y.is_some() {
                        Err("Did not expect a 3D move")
                    } else if z_val < 0 {
                        Err("Did not expect negative z value")
                    } else if z_val == 0 {
                        Ok(PlotterInstruction::PenDown)
                    } else {
                        Ok(PlotterInstruction::PenUp)
                    }
                }
                None => {
                    if value.f.is_some() && value.x.is_none() && value.y.is_none() {
                        let feed: i64 = match value.f {
                            Some(fv) => fv,
                            None => 0,
                        };
                        let mut text: Vec<u8> = Vec::new();
                        text.push(102);
                        text.push(101);
                        text.push(101);
                        text.push(100);
                        text.push(32);
                        if feed >= 0 {
                            push_mm(feed as u64, &mut text);
                        }
                        proof {
                            if feed >= 0 {
                                lemma_mm_rep_ascii(feed as nat);
                            }
                        }
                        let text_s = ascii_bytes_to_string(&text);
                        proof {
                            reveal_strlit("feed ");
                            if feed >= 0 {
                                assert(text_s@ =~= "feed "@ + chars_of(mm_rep(feed as nat)));
                            }
                        }
                        Ok(PlotterInstruction::Comment(text_s))
                    } else if value.x.is_none() {
                        Err("Move missing X")
                    } else if value.y.is_none() {
                        Err("Move missing Y")
                    } else {
                        let x: i64 = match value.x {
                            Some(v) => v,
                            None => 0,
                        };
                        let y: i64 = match value.y {
                            Some(v) => v,
                            None => 0,
                        };
                        Ok(PlotterInstruction::Move(PositionMM::new([x, y])))
                    }
                }
            },
            GCommand::UseMM => {
                let mut text: Vec<u8> = Vec::new();
                text.push(85);
                text.push(115);
                text.push(101);
                text.push(32);
                text.push(109);
                text.push(109);
                let text_s = ascii_bytes_to_string(&text);
                proof {
                    reveal_strlit("Use mm");
                    assert(text_s@ =~= "Use mm"@);
                }
                Ok(PlotterInstruction::Comment(text_s))
            }
            GCommand::AbsoluteDistance => {
                let mut text: Vec<u8> = Vec::new();
                text.push(65);
                text.push(98);
                text.push(115);
                text.push(111);
                text.push(108);
                text.push(117);
                text.push(116);
                text.push(101);
                text.push(32);
                text.push(100);
                text.push(105);
                text.push(115);
                text.push(116);
                text.push(97);
                text.push(110);
                text.push(99);
                text.push(101);
                let text_s = ascii_bytes_to_string(&text);
                proof {
                    reveal_strlit("Absolute distance");
                    assert(text_s@ =~= "Absolute distance"@);
                }
                Ok(PlotterInstruction::Comment(text_s))
            }
            GCommand::AutoHoming => {
                let mut text: Vec<u8> = Vec::new();
                text.push(65);
                text.push(117);
                text.push(116);
                text.push(111);
                text.push(32);
                text.push(104);
                text.push(111);
                text.push(109);
                text.push(105);
                text.push(110);
                text.push(103);
                let text_s = ascii_bytes_to_string(&text);
                proof {
                    reveal_strlit("Auto homing");
                    assert(text_s@ =~= "Auto homing"@);
                }
                Ok(PlotterInstruction::Comment(text_s))
            }
        },
        None => match value.comment {
            Some(val) => Ok(PlotterInstruction::Comment(val)),
            None => Ok(PlotterInstruction::NoOp),
        },
    }
}


/// Is the byte an ASCII decimal digit?
pub open spec fn is_digit(b: u8) -> bool {
    48 <= b <= 57
}

/// The integer-part scan of the number grammar: consume digits, folding
/// them into `acc`, and fail once the accumulated millimetre value would
/// leave the representable range.  Returns the value and the index of the
/// first non-digit.
pub open spec fn int_scan_sp(bytes: Seq<u8>, i: int, acc: int) -> Result<(int, int), &'static str>
    decreases bytes.len() - i
{
    if i < bytes.len() && is_digit(bytes[i]) {
        if acc > 100_000 {
            Err("number out of range")
        } else {
            int_scan_sp(bytes, i + 1, acc * 10 + (bytes[i] - 48))
        }
    } else {
        Ok((acc, i))
    }
}

/// The fraction scan: consume digits after the dot, keeping the first
/// three as hundreds, tens and units of a micrometre.
pub open spec fn frac_scan_sp(bytes: Seq<u8>, i: int, frac: int, scale: int) -> (int, int)
    decreases bytes.len() - i
{
    if i < bytes.len() && is_digit(bytes[i]) {
        frac_scan_sp(bytes, i + 1,
            if scale > 0 { frac + scale * (bytes[i] - 48) } else { frac },
            scale / 10)
    } else {
        (frac, i)
    }
}

/// One signed decimal number of the G-code grammar, starting at `start`:
/// an optional sign, digits, an optional dot and fraction digits, scaled by
/// 1000 into micrometres.  Yields the value and the index after the number,
/// or the error the scan stops with.
pub open spec fn number_sp(bytes: Seq<u8>, start: int) -> Result<(int, int), &'static str> {
    let i0 = if start < bytes.len() && (bytes[start] == 45 || bytes[start] == 43) {
        start + 1
    } else {
        start
    };
    let neg = start < bytes.len() && bytes[start] == 45;
    match int_scan_sp(bytes, i0, 0) {
        Err(e) => Err(e),
        Ok(p) => {
            let ip = p.0;
            let i1 = p.1;
            let fr2 = if i1 < bytes.len() && bytes[i1] == 46 {
                frac_scan_sp(bytes, i1 + 1, 0, 100)
            } else {
                (0int, i1)
            };
            let fr = fr2.0;
            let i2 = fr2.1;
            let saw = i1 > i0 || (i1 < bytes.len() && bytes[i1] == 46 && i2 > i1 + 1);
            if !saw {
                Err("malformed number")
            } else if ip * 1000 + fr > COORD_MAX {
                Err("number out of range")
            } else {
                Ok((if neg { -(ip * 1000 + fr) } else { ip * 1000 + fr }, i2))
            }
        }
    }
}

/// Parse one signed decimal number starting at `start`: an optional sign,
/// digits, and an optional fraction.  The value is returned scaled by 1000
/// (millimetre words become micrometres), with fraction digits beyond the
/// third consumed but ignored.  Returns the value and the index of the
/// first byte after the number.
#[verifier::loop_isolation(false)]
fn parse_number(bytes: &[u8], start: usize) -> (r: Result<(i64, usize), &'static str>)
    requires
        start <= bytes@.len(),
    ensures
        (r matches Ok(p) ==> number_sp(bytes@, start as int) == Ok::<(int, int), &'static str>((p.0 as int, p.1 as int))
            && start < p.1 <= bytes@.len()
            && -COORD_MAX <= p.0 <= COORD_MAX),
        (r matches Err(e) ==> number_sp(bytes@, start as int)
            == Err::<(int, int), &'static str>(e)),
{
    let n: usize = bytes.len();
    let mut i: usize = start;
    let mut negative: bool = false;
    if i < n && (bytes[i] == 45 || bytes[i] == 43) {
        negative = bytes[i] == 45;
        i = i + 1;
    }
    let ghost i0 = i as int;
    let mut int_part: i64 = 0;
    let mut saw_digit: bool = false;
    while i < n && bytes[i] >= 48 && bytes[i] <= 57
        invariant
            start <= i <= n,
            i0 <= i,
            n == bytes@.len(),
            (saw_digit <==> i > i0),
            0 <= int_part <= 1_000_009,
            int_scan_sp(bytes@, i as int, int_part as int) == int_scan_sp(bytes@, i0, 0),
        decreases n - i,
    {
        if int_part > 100_000 {
            proof {
                assert(int_scan_sp(bytes@, i as int, int_part as int)
                    == Err::<(int, int), &'static str>("number out of range"));
            }
            return Err("number out of range");
        }
        proof {
            assert(int_scan_sp(bytes@, i as int, int_part as int)
                == int_scan_sp(bytes@, i as int + 1,
                    int_part as int * 10 + (bytes@[i as int] - 48)));
        }
        int_part = int_part * 10 + ((bytes[i] - 48) as i64);
        saw_digit = true;
        i = i + 1;
    }
    assert(int_scan_sp(bytes@, i as int, int_part as int)
        == Ok::<(int, int), &'static str>((int_part as int, i as int)));
    let ghost i1 = i as int;
    let mut frac: i64 = 0;
    if i < n && bytes[i] == 46 {
        i = i + 1;
        let mut scale: i64 = 100;
        while i < n && bytes[i] >= 48 && bytes[i] <= 57
            invariant
                start <= i <= n,
                i0 <= i1,
                i1 < i,
                n == bytes@.len(),
                (saw_digit <==> i1 > i0 || i > i1 + 1),
                scale == 100 || scale == 10 || scale == 1 || scale == 0,
                0 <= frac,
                frac + 10 * scale <= 1000,
                frac_scan_sp(bytes@, i as int, frac as int, scale as int)
                    == frac_scan_sp(bytes@, i1 + 1, 0, 100),
            decreases n - i,
        {
            proof {
                assert(frac_scan_sp(bytes@, i as int, frac as int, scale as int)
                    == frac_scan_sp(bytes@, i as int + 1,
                        if scale > 0 { frac + scale * (bytes@[i as int] - 48) } else { frac as int },
                        scale as int / 10));
            }
            if scale > 0 {
                frac = frac + scale * ((bytes[i] - 48) as i64);
            }
            scale = scale / 10;
            saw_digit = true;
            i = i + 1;
        }
        assert(frac_scan_sp(bytes@, i as int, frac as int, scale as int)
            == (frac as int, i as int));
    }
    if !saw_digit {
        return Err("malformed number");
    }
    let magnitude: i64 = int_part * 1000 + frac;
    if magnitude > COORD_MAX {
        return Err("number out of range");
    }
    if negative {
        Ok((-magnitude, i))
    } else {
        Ok((magnitude, i))
    }
}

/// The comment scan: collect ASCII bytes up to the closing parenthesis.
/// Yields the text and the index after the parenthesis, or fails on a
/// non-ASCII byte or an unterminated comment.
pub open spec fn comment_scan_sp(bytes: Seq<u8>, j: int, acc: Seq<u8>) -> Result<(Seq<u8>, int), &'static str>
    decreases bytes.len() - j
{
    if j < bytes.len() {
        if bytes[j] == 41 {
            Ok((acc, j + 1))
        } else if bytes[j] >= 128 {
            Err("unrecognized byte")
        } else {
            comment_scan_sp(bytes, j + 1, acc.push(bytes[j]))
        }
    } else {
        Err("unterminated comment")
    }
}

/// The mathematical image of one assembled G-code block: the same words as
/// `GCode`, with unbounded integers and the comment as its bytes.
pub struct GRec {
    pub command: Option<GCommand>,
    pub x: Option<int>,
    pub y: Option<int>,
    pub z: Option<int>,
    pub f: Option<int>,
    pub comment: Option<Seq<u8>>,
}

/// A block with no words yet.
pub open spec fn grec_empty() -> GRec {
    GRec { command: None, x: None, y: None, z: None, f: None, comment: None }
}

pub open spec fn grec_is_empty(g: GRec) -> bool {
    g.command is None && g.x is None && g.y is None && g.z is None && g.f is None
        && g.comment is None
}

/// The command of a recognized G number (scaled by 1000).
pub open spec fn gcommand_of(v: int) -> GCommand {
    if v == 0 { GCommand::FastMove }
    else if v == 1000 { GCommand::Move }
    else if v == 21_000 { GCommand::UseMM }
    else if v == 90_000 { GCommand::AbsoluteDistance }
    else { GCommand::AutoHoming }
}

/// An assembled block matches its mathematical image word for word, the
/// comment by its characters.
pub open spec fn rec_matches(rec: GRec, g: GCode) -> bool {
    &&& g.command == rec.command
    &&& (g.x is Some <==> rec.x is Some)
    &&& (g.x is Some ==> g.x->Some_0 as int == rec.x->Some_0)
    &&& (g.y is Some <==> rec.y is Some)
    &&& (g.y is Some ==> g.y->Some_0 as int == rec.y->Some_0)
    &&& (g.z is Some <==> rec.z is Some)
    &&& (g.z is Some ==> g.z->Some_0 as int == rec.z->Some_0)
    &&& (g.f is Some <==> rec.f is Some)
    &&& (g.f is Some ==> g.f->Some_0 as int == rec.f->Some_0)
    &&& (g.comment is Some <==> rec.comment is Some)
    &&& (g.comment is Some ==> g.comment->Some_0@ == chars_of(rec.comment->Some_0))
}

/// An `i64` option and its mathematical image.
pub open spec fn opt_int(o: Option<i64>) -> Option<int> {
    match o {
        Some(v) => Some(v as int),
        None => None,
    }
}

/// The block grammar, one dispatch per step: blocks are terminated by a
/// newline or the end of the stream; words are a letter and a number;
/// parenthesised text is a comment; the last seen X and Y are carried
/// forward into a block that sets only the other axis.  `g` is the block
/// being assembled, `px`/`py` the carry-forward memory, `sx`/`sy` whether
/// this block set each axis, and `acc` the blocks finished so far.
pub open spec fn blocks_sp(bytes: Seq<u8>, i: int, g: GRec, px: Option<int>, py: Option<int>,
    sx: bool, sy: bool, acc: Seq<GRec>) -> Result<Seq<GRec>, &'static str>
    decreases bytes.len() + 1 - i
{
    if i < 0 || i > bytes.len() {
        Ok(acc)
    } else if i == bytes.len() || bytes[i] == 10 {
        if grec_is_empty(g) {
            if i == bytes.len() {
                Ok(acc)
            } else {
                blocks_sp(bytes, i + 1, g, px, py, sx, sy, acc)
            }
        } else if sx && !sy && py is None {
            Err("Expecting to not start with a single axis move")
        } else if sy && !sx && px is None {
            Err("Expecting to not start with a single axis move")
        } else {
            let g1 = GRec {
                x: if sy && !sx { px } else { g.x },
                y: if sx && !sy { py } else { g.y },
                ..g
            };
            if i == bytes.len() {
                Ok(acc.push(g1))
            } else {
                blocks_sp(bytes, i + 1, grec_empty(), px, py, false, false, acc.push(g1))
            }
        }
    } else {
        let b = bytes[i];
        if b == 32 || b == 9 || b == 13 {
            blocks_sp(bytes, i + 1, g, px, py, sx, sy, acc)
        } else if b == 40 {
            match comment_scan_sp(bytes, i + 1, Seq::empty()) {
                Err(e) => Err(e),
                Ok(p) => {
                    let j = if i < p.1 && p.1 <= bytes.len() { p.1 } else { i + 1 };
                    blocks_sp(bytes, j, GRec { comment: Some(p.0), ..g }, px, py, sx, sy, acc)
                }
            }
        } else if b == 103 || b == 71 {
            match number_sp(bytes, i + 1) {
                Err(e) => Err(e),
                Ok(p) => {
                    if p.0 == 0 || p.0 == 1000 || p.0 == 21_000 || p.0 == 90_000
                        || p.0 == 28_000 {
                        let j = if i < p.1 && p.1 <= bytes.len() { p.1 } else { i + 1 };
                        blocks_sp(bytes, j, GRec { command: Some(gcommand_of(p.0)), ..g },
                            px, py, sx, sy, acc)
                    } else {
                        Err("unrecognized G-code")
                    }
                }
            }
        } else if b == 120 || b == 88 {
            match number_sp(bytes, i + 1) {
                Err(e) => Err(e),
                Ok(p) => {
                    let j = if i < p.1 && p.1 <= bytes.len() { p.1 } else { i + 1 };
                    blocks_sp(bytes, j, GRec { x: Some(p.0), ..g }, Some(p.0), py, true, sy, acc)
                }
            }
        } else if b == 121 || b == 89 {
            match number_sp(bytes, i + 1) {
                Err(e) => Err(e),
                Ok(p) => {
                    let j = if i < p.1 && p.1 <= bytes.len() { p.1 } else { i + 1 };
                    blocks_sp(bytes, j, GRec { y: Some(p.0), ..g }, px, Some(p.0), sx, true, acc)
                }
            }
        } else if b == 122 || b == 90 {
            match number_sp(bytes, i + 1) {
                Err(e) => Err(e),
                Ok(p) => {
                    let j = if i < p.1 && p.1 <= bytes.len() { p.1 } else { i + 1 };
                    blocks_sp(bytes, j, GRec { z: Some(p.0), ..g }, px, py, sx, sy, acc)
                }
            }
        } else if b == 102 || b == 70 {
            match number_sp(bytes, i + 1) {
                Err(e) => Err(e),
                Ok(p) => {
                    let j = if i < p.1 && p.1 <= bytes.len() { p.1 } else { i + 1 };
                    blocks_sp(bytes, j, GRec { f: Some(p.0), ..g }, px, py, sx, sy, acc)
                }
            }
        } else {
            Err("unrecognized letter")
        }
    }
}

/// The blocks of a whole byte stream.
pub open spec fn parse_blocks_sp(bytes: Seq<u8>) -> Result<Seq<GRec>, &'static str> {
    blocks_sp(bytes, 0, grec_empty(), None, None, false, false, Seq::empty())
}

/// Parse a byte stream of G-code into assembled blocks, exactly as the
/// block grammar (`parse_blocks_sp`) reads it: blocks terminated by a
/// newline or the end of the stream, the last known X and Y carried
/// forward into single-axis blocks, and the grammar's errors returned as
/// they arise.
#[verifier::loop_isolation(false)]
#[verifier::rlimit(100)]
fn parse_gcode_blocks(bytes: &[u8]) -> (r: Result<Vec<GCode>, &'static str>)
    requires
        bytes@.len() < 0x4000_0000,
    ensures
        (parse_blocks_sp(bytes@) matches Ok(recs) ==> r matches Ok(codes)
            && codes@.len() == recs.len()
            && (forall|k: int| 0 <= k < recs.len() ==> rec_matches(recs[k], #[trigger] codes@[k]))),
        (parse_blocks_sp(bytes@) matches Err(e) ==> r matches Err(e2) && e2 == e),
{
    let n: usize = bytes.len();
    let mut codes: Vec<GCode> = Vec::new();
    let mut gcode: GCode = GCode::new();
    let ghost mut grec: GRec = grec_empty();
    let ghost mut gacc: Seq<GRec> = Seq::empty();
    let mut pos_x: Option<i64> = None;
    let mut pos_y: Option<i64> = None;
    let mut set_x: bool = false;
    let mut set_y: bool = false;
    let mut i: usize = 0;
    while i <= n
        invariant
            i <= n + 1,
            rec_matches(grec, gcode),
            gacc.len() == codes@.len(),
            forall|k: int| 0 <= k < gacc.len() ==> rec_matches(gacc[k], #[trigger] codes@[k]),
            blocks_sp(bytes@, i as int, grec, opt_int(pos_x), opt_int(pos_y), set_x, set_y,
                gacc) == parse_blocks_sp(bytes@),
        decreases n + 1 - i,
    {
        let ghost pre = blocks_sp(bytes@, i as int, grec, opt_int(pos_x), opt_int(pos_y),
            set_x, set_y, gacc);
        if i == n || bytes[i] == 10 {
            // end of block
            if !gcode.is_empty() {
                if set_x && !set_y {
                    match pos_y {
                        Some(y) => {
                            gcode.with_y(y);
                            proof {
                                grec = GRec { y: opt_int(pos_y), ..grec };
                            }
                        }
                        None => {
                            return Err("Expecting to not start with a single axis move");
                        }
                    }
                }
                if set_y && !set_x {
                    match pos_x {
                        Some(x) => {
                            gcode.with_x(x);
                            proof {
                                grec = GRec { x: opt_int(pos_x), ..grec };
                            }
                        }
                        None => {
                            return Err("Expecting to not start with a single axis move");
                        }
                    }
                }
                codes.push(gcode);
                gcode = GCode::new();
                proof {
                    gacc = gacc.push(grec);
                    grec = grec_empty();
                }
                set_x = false;
                set_y = false;
            }
            i = i + 1;
            proof {
                if i - 1 == n {
                    assert(blocks_sp(bytes@, i as int, grec, opt_int(pos_x), opt_int(pos_y),
                        set_x, set_y, gacc) == pre);
                }
            }
        } else {
            let b: u8 = bytes[i];
            if b == 32 || b == 9 || b == 13 {
                i = i + 1;
            } else if b == 40 {
                // parenthesised comment
                let ghost j0 = i as int + 1;
                let mut j: usize = i + 1;
                let mut text: Vec<u8> = Vec::new();
                let mut closed: bool = false;
                while j < n && !closed
                    invariant
                        i < j <= n,
                        forall|k: int| 0 <= k < text@.len() ==> text@[k] < 128,
                        !closed ==> comment_scan_sp(bytes@, j as int, text@)
                            == comment_scan_sp(bytes@, j0, Seq::empty()),
                        closed ==> comment_scan_sp(bytes@, j0, Seq::empty())
                            == Ok::<(Seq<u8>, int), &'static str>((text@, j as int)),
                    decreases n - j,
                {
                    let c: u8 = bytes[j];
                    if c == 41 {
                        closed = true;
                    } else if c >= 128 {
                        return Err("unrecognized byte");
                    } else {
                        text.push(c);
                    }
                    j = j + 1;
                }
                if !closed {
                    return Err("unterminated comment");
                }
                gcode.with_comment(ascii_bytes_to_string(&text));
                proof {
                    grec = GRec { comment: Some(text@), ..grec };
                }
                i = j;
            } else if b == 103 || b == 71 {
                // G word
                let (val, next) = match parse_number(bytes, i + 1) {
                    Ok(p) => p,
                    Err(e) => {
                        return Err(e);
                    }
                };
                match gcode.with_g(val) {
                    Ok(_) => {
                        proof {
                            grec = GRec { command: Some(gcommand_of(val as int)), ..grec };
                        }
                    }
                    Err(e) => {
                        return Err(e);
                    }
                }
                i = next;
            } else if b == 120 || b == 88 {
                // X word
                let (val, next) = match parse_number(bytes, i + 1) {
                    Ok(p) => p,
                    Err(e) => {
                        return Err(e);
                    }
                };
                pos_x = Some(val);
                set_x = true;
                gcode.with_x(val);
                proof {
                    grec = GRec { x: Some(val as int), ..grec };
                }
                i = next;
            } else if b == 121 || b == 89 {
                // Y word
                let (val, next) = match parse_number(bytes, i + 1) {
                    Ok(p) => p,
                    Err(e) => {
                        return Err(e);
                    }
                };
                pos_y = Some(val);
                set_y = true;
                gcode.with_y(val);
                proof {
                    grec = GRec { y: Some(val as int), ..grec };
                }
                i = next;
            } else if b == 122 || b == 90 {
                // Z word
                let (val, next) = match parse_number(bytes, i + 1) {
                    Ok(p) => p,
                    Err(e) => {
                        return Err(e);
                    }
                };
                gcode.with_z(val);
                proof {
                    grec = GRec { z: Some(val as int), ..grec };
                }
                i = next;
            } else if b == 102 || b == 70 {
                // F word
                let (val, next) = match parse_number(bytes, i + 1) {
                    Ok(p) => p,
                    Err(e) => {
                        return Err(e);
                    }
                };
                gcode.with_f(val);
                proof {
                    grec = GRec { f: Some(val as int), ..grec };
                }
                i = next;
            } else {
                return Err("unrecognized letter");
            }
        }
    }
    Ok(codes)
}

/// Does a block lower to a no-op (and get dropped from the program)?
pub open spec fn produces_noop(rec: GRec) -> bool {
    rec.command is None && rec.comment is None
}

/// Does a block lower to a pen move?
pub open spec fn produces_move(rec: GRec) -> bool {
    &&& rec.command matches Some(c) && (c is Move || c is FastMove)
    &&& rec.z is None
    &&& !(rec.f is Some && rec.x is None && rec.y is None)
}

/// The error the lowering of one block gives, if any.
pub open spec fn lower_err_sp(rec: GRec) -> Option<&'static str> {
    match rec.command {
        Some(c) => {
            if c is Move || c is FastMove {
                if rec.z is Some {
                    if rec.x is Some || rec.y is Some {
                        Some("Did not expect a 3D move")
                    } else if rec.z->Some_0 < 0 {
                        Some("Did not expect negative z value")
                    } else {
                        None
                    }
                } else {
                    if rec.f is Some && rec.x is None && rec.y is None {
                        None
                    } else if rec.x is None {
                        Some("Move missing X")
                    } else if rec.y is None {
                        Some("Move missing Y")
                    } else {
                        None
                    }
                }
            } else {
                None
            }
        }
        None => None,
    }
}

/// The instruction a block lowers to, when the lowering does not fail.
pub open spec fn ins_matches_grec(rec: GRec, ins: PlotterInstruction) -> bool {
    match rec.command {
        Some(c) => {
            if c is Move || c is FastMove {
                if rec.z is Some {
                    if rec.z->Some_0 == 0 { ins is PenDown } else { ins is PenUp }
                } else if rec.f is Some && rec.x is None && rec.y is None {
                    ins is Comment && (rec.f->Some_0 >= 0
                        ==> ins->Comment_0@ == "feed "@ + chars_of(mm_rep(rec.f->Some_0 as nat)))
                } else {
                    ins is Move && ins->Move_0.xy[0] as int == rec.x->Some_0
                        && ins->Move_0.xy[1] as int == rec.y->Some_0
                        && rec.x is Some && rec.y is Some
                }
            } else if c is UseMM {
                ins is Comment && ins->Comment_0@ == "Use mm"@
            } else if c is AbsoluteDistance {
                ins is Comment && ins->Comment_0@ == "Absolute distance"@
            } else {
                ins is Comment && ins->Comment_0@ == "Auto homing"@
            }
        }
        None => {
            match rec.comment {
                Some(txt) => ins is Comment && ins->Comment_0@ == chars_of(txt),
                None => ins is NoOp,
            }
        }
    }
}

/// The blocks that survive the no-op filter, in order.
pub open spec fn kept_sp(recs: Seq<GRec>) -> Seq<GRec>
    decreases recs.len()
{
    if recs.len() == 0 {
        Seq::empty()
    } else {
        let rest = kept_sp(recs.drop_last());
        if produces_noop(recs.last()) {
            rest
        } else {
            rest.push(recs.last())
        }
    }
}

/// The first lowering error among the blocks from `j` on, if any.
pub open spec fn first_lower_err_sp(recs: Seq<GRec>, j: int) -> Option<&'static str>
    decreases recs.len() - j
{
    if j < 0 || j >= recs.len() {
        None
    } else if lower_err_sp(recs[j]) is Some {
        lower_err_sp(recs[j])
    } else {
        first_lower_err_sp(recs, j + 1)
    }
}

impl PlotterProgram {
    /// Parse a byte stream of G-code into a plotter program: assemble the
    /// blocks per the block grammar (carrying the last X and Y forward into
    /// single-axis blocks), lower each block to an instruction, drop the
    /// no-ops, and compute the bounding box.  The result's instructions are
    /// exactly the lowered images of the grammar's kept blocks; errors are
    /// the grammar's, the lowering's (first block first), or the missing
    /// move of a program with nothing to plot.
    #[verifier::loop_isolation(false)]
    #[verifier::rlimit(100)]
    pub fn from_gcode(bytes: &[u8]) -> (r: Result<PlotterProgram, &'static str>)
        requires
            bytes@.len() < 0x4000_0000,
        ensures
            (parse_blocks_sp(bytes@) matches Err(e) ==> r matches Err(e2) && e2 == e),
            (parse_blocks_sp(bytes@) matches Ok(recs) ==> ({
                let lerr = first_lower_err_sp(recs, 0);
                let kept = kept_sp(recs);
                &&& (lerr matches Some(e) ==> r matches Err(e2) && e2 == e)
                &&& (lerr is None ==> {
                    &&& (r is Ok <==> (exists|k: int| 0 <= k < kept.len()
                            && produces_move(#[trigger] kept[k]))
                        && (forall|k: int| 0 <= k < kept.len()
                            && produces_move(#[trigger] kept[k])
                            ==> -COORD_MAX <= kept[k].x->Some_0 <= COORD_MAX
                                && -COORD_MAX <= kept[k].y->Some_0 <= COORD_MAX))
                    &&& (r matches Ok(prog) ==> prog.wf()
                        && prog.current_position == 0
                        && prog.instructions@.len() == kept.len()
                        && (forall|k: int| 0 <= k < kept.len()
                            ==> ins_matches_grec(kept[k], #[trigger] prog.instructions@[k]))
                        && (forall|k: int| 0 <= k < kept.len()
                            ==> !((#[trigger] prog.instructions@[k]) is NoOp)))
                    &&& (r is Err ==> r->Err_0 == "No value for axis limit"
                        || r->Err_0 == "coordinate out of range")
                })
            })),
    {
        let codes = match parse_gcode_blocks(bytes) {
            Ok(c) => c,
            Err(e) => {
                return Err(e);
            }
        };
        let ghost recs = parse_blocks_sp(bytes@)->Ok_0;
        let mut instructions: Vec<PlotterInstruction> = Vec::new();
        let mut k: usize = 0;
        while k < codes.len()
            invariant
                k <= codes@.len(),
                codes@.len() == recs.len(),
                forall|j: int| 0 <= j < recs.len() ==> rec_matches(recs[j], #[trigger] codes@[j]),
                forall|j: int| 0 <= j < k ==> lower_err_sp(#[trigger] recs[j]) is None,
                first_lower_err_sp(recs, 0) == first_lower_err_sp(recs, k as int),
                instructions@.len() == kept_sp(recs.take(k as int)).len(),
                forall|m: int| 0 <= m < instructions@.len()
                    ==> ins_matches_grec(kept_sp(recs.take(k as int))[m],
                        #[trigger] instructions@[m]),
                forall|m: int| 0 <= m < instructions@.len()
                    ==> !((#[trigger] instructions@[m]) is NoOp),
                forall|m: int| 0 <= m < kept_sp(recs.take(k as int)).len()
                    ==> !produces_noop(#[trigger] kept_sp(recs.take(k as int))[m]),
            decreases codes@.len() - k,
        {
            let ghost rec = recs[k as int];
            let code = codes[k].duplicate();
            assert(rec_matches(rec, code));
            let lowered = to_instruction(code);
            proof {
                assert(recs.take(k as int + 1).drop_last() =~= recs.take(k as int));
                assert(recs.take(k as int + 1).last() == rec);
            }
            match lowered {
                Ok(ins) => {
                    proof {
                        assert(lower_err_sp(rec) is None && ins_matches_grec(rec, ins));
                        assert(first_lower_err_sp(recs, k as int)
                            == first_lower_err_sp(recs, k as int + 1));
                    }
                    match &ins {
                        PlotterInstruction::NoOp => {
                            proof {
                                assert(produces_noop(rec));
                                assert(kept_sp(recs.take(k as int + 1))
                                    =~= kept_sp(recs.take(k as int)));
                            }
                        }
                        _ => {
                            proof {
                                assert(!produces_noop(rec));
                                assert(kept_sp(recs.take(k as int + 1))
                                    =~= kept_sp(recs.take(k as int)).push(rec));
                            }
                            instructions.push(ins);
                        }
                    }
                }
                Err(e) => {
                    proof {
                        assert(lower_err_sp(rec) == Some(e));
                        assert(first_lower_err_sp(recs, k as int) == Some(e));
                    }
                    return Err(e);
                }
            }
            k = k + 1;
        }
        proof {
            assert(recs.take(recs.len() as int) =~= recs);
            assert(first_lower_err_sp(recs, recs.len() as int) is None);
        }
        let ghost kept = kept_sp(recs);
        let r = PlotterProgram::from_instructions(instructions);
        proof {
            let good_spec = (exists|m: int| 0 <= m < kept.len()
                    && produces_move(#[trigger] kept[m]))
                && (forall|m: int| 0 <= m < kept.len() && produces_move(#[trigger] kept[m])
                    ==> -COORD_MAX <= kept[m].x->Some_0 <= COORD_MAX
                        && -COORD_MAX <= kept[m].y->Some_0 <= COORD_MAX);
            let good_exec = (exists|m: int| 0 <= m < instructions@.len()
                    && (#[trigger] instructions@[m]) is Move)
                && (forall|m: int| 0 <= m < instructions@.len()
                    ==> ins_bounded(#[trigger] instructions@[m]));
            if good_spec {
                let w = choose|m: int| 0 <= m < kept.len() && produces_move(#[trigger] kept[m]);
                assert(ins_matches_grec(kept[w], instructions@[w]));
                assert(instructions@[w] is Move);
                assert forall|m: int| 0 <= m < instructions@.len()
                    implies ins_bounded(#[trigger] instructions@[m]) by {
                    assert(ins_matches_grec(kept[m], instructions@[m]));
                    if instructions@[m] is Move {
                        assert(produces_move(kept[m]));
                    }
                }
                assert(good_exec);
            }
            if good_exec {
                let w = choose|m: int| 0 <= m < instructions@.len()
                    && (#[trigger] instructions@[m]) is Move;
                assert(ins_matches_grec(kept[w], instructions@[w]));
                assert(produces_move(kept[w]));
                assert forall|m: int| 0 <= m < kept.len() && produces_move(#[trigger] kept[m])
                    implies -COORD_MAX <= kept[m].x->Some_0 <= COORD_MAX
                        && -COORD_MAX <= kept[m].y->Some_0 <= COORD_MAX by {
                    assert(ins_matches_grec(kept[m], instructions@[m]));
                    assert(instructions@[m] is Move);
                    assert(ins_bounded(instructions@[m]));
                }
                assert(good_spec);
            }
            assert(good_spec <==> good_exec);
        }
        r
    }
}

} // verus!\n