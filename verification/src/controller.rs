//! The controller: a mode state machine that sequences pen moves through
//! the trajectory solver and the step predictor.  Everything here is a pure
//! decision on plain values; reading the operator, the clock and driving
//! the motor pins happen outside the library, which hands the controller
//! parsed inputs and nanosecond timestamps and receives states and step
//! instructions back.

use vstd::prelude::*;

use crate::gcode::{Axis, AxisLimit, PlotterInstruction, PlotterProgram, inside_limit_sp};
use crate::motor::{Motor, Side, StepInstruction};
use crate::physical::{Physical, STEP_MAX};
use crate::position::{Position, PositionMM, COORD_MAX};
use crate::predictor::{Prediction, Predictor};
use crate::scurve::{SCurve, SCurveSolver, COORD_MARGIN};

verus! {

/// Whether a trajectory is still being executed.
#[derive(Clone, Copy, Debug, PartialEq, Eq, PartialOrd, Ord, Structural)]
pub enum MoveStatus {
    Stopped,
    Moving,
}

/// What the operator has asked the controller to do next.
#[derive(Clone, Copy, Debug, PartialEq, Eq, Structural)]
pub enum ControllerMode {
    Ask,
    MoveTo,
    QueryPaper,
    QueryPosition,
    InitProgram,
    RunProgram,
    LoadPattern,
    ScaleProgram,
    CenterProgram,
}

/// Default acceleration ceiling: 10^4 mm/s^2, in nm/s^2.
pub const DEFAULT_MAX_ACCELERATION: i64 = 10_000_000_000;

/// Default jerk ceiling: 10^9 mm/s^3, in nm/s^3.
pub const DEFAULT_MAX_JERK: i64 = 1_000_000_000_000_000;

/// Shortest interval between two steps of one motor, nanoseconds.
pub const MIN_NS_PER_STEP: i64 = 6_000_000;

/// Clock values the controller accepts, nanoseconds: non-negative and far
/// from the integer limit.
pub const CLOCK_MAX: i64 = 0x0400_0000_0000_0000;

/// One motor after one `Motor::step` call at `now_ns`: held or
/// rate-limited motors are unchanged; an accepted step advances the coil
/// phase by the side's sense and the saturating net counter by the
/// instruction's delta.
pub open spec fn motor_stepped_sp(before: Motor, after: Motor, instruction: StepInstruction,
    now_ns: i64) -> bool {
    &&& after.side == before.side
    &&& after.min_ns_per_step == before.min_ns_per_step
    &&& (instruction is Hold ==> after == before)
    &&& (!(instruction is Hold)
            && now_ns - before.time_last_step < before.min_ns_per_step ==> after == before)
    &&& (!(instruction is Hold)
            && now_ns - before.time_last_step >= before.min_ns_per_step ==> {
        &&& after.time_last_step == now_ns
        &&& after.current == crate::motor::phase_after_sp(before.side, instruction,
                before.current as int)
        &&& (i64::MIN < before.position < i64::MAX
            ==> after.position == before.position
                + crate::motor::step_delta_sp(instruction))
    })
}

pub struct Controller {
    pub current_position: Position,
    pub current_position_initialized: bool,
    pub motor_l: Motor,
    pub motor_r: Motor,
    pub mode: ControllerMode,
    pub paper_limits: Option<[AxisLimit; 2]>,
    pub physical: Physical,
    pub move_status: MoveStatus,
    pub s_curve: Option<SCurve>,
    pub move_start_ns: i64,
    pub solver: SCurveSolver,
    pub predictor: Predictor,
    pub wait_count: usize,
    pub program: Option<PlotterProgram>,
}

impl Controller {
    pub open spec fn wf(self) -> bool {
        &&& self.physical.wf()
        &&& self.solver.wf()
        &&& self.motor_l.wf()
        &&& self.motor_r.wf()
        &&& 0 <= self.motor_l.time_last_step <= CLOCK_MAX
        &&& 0 <= self.motor_r.time_last_step <= CLOCK_MAX
        &&& (self.s_curve matches Some(c) ==> c.wf()
                && c.m_j == self.solver.m_j && c.m_a == self.solver.m_a)
        &&& 0 <= self.move_start_ns <= CLOCK_MAX
        &&& (self.program matches Some(p) ==> p.wf())
        &&& (self.paper_limits matches Some(l) ==> l[0].bounded() && l[1].bounded())
        &&& -(COORD_MAX - COORD_MARGIN) <= self.current_position.mm.xy[0]
                <= COORD_MAX - COORD_MARGIN
        &&& -(COORD_MAX - COORD_MARGIN) <= self.current_position.mm.xy[1]
                <= COORD_MAX - COORD_MARGIN
        &&& self.current_position.step.rr[0] <= STEP_MAX
        &&& self.current_position.step.rr[1] <= STEP_MAX
    }

    /// Build a controller for the default machine, with an optional
    /// preloaded program, starting in the ask-for-position mode.
    pub fn new(program: Option<PlotterProgram>, now_ns: i64)
        -> (r: Result<Controller, &'static str>)
        requires
            0 <= now_ns <= CLOCK_MAX,
            (program matches Some(p) ==> p.wf()),
        ensures
            (r is Ok <==> crate::scurve::solver_ok_sp(crate::physical::MAX_VELOCITY_NM_S as int,
                DEFAULT_MAX_ACCELERATION as int, DEFAULT_MAX_JERK as int)),
            (r matches Ok(c) ==> c.wf()
                && c.mode == ControllerMode::QueryPosition
                && !c.current_position_initialized
                && c.move_status == MoveStatus::Stopped
                && c.s_curve is None
                && c.paper_limits is None
                && c.program == program
                && c.current_position.mm.xy[0] == 0 && c.current_position.mm.xy[1] == 0
                && c.current_position.step.rr[0] == 0 && c.current_position.step.rr[1] == 0
                && c.solver.m_a == DEFAULT_MAX_ACCELERATION
                && c.solver.m_j == DEFAULT_MAX_JERK),
    {
        let physical = Physical::new();
        let solver = match SCurveSolver::new(&physical, DEFAULT_MAX_ACCELERATION,
            DEFAULT_MAX_JERK) {
            Ok(s) => s,
            Err(e) => {
                return Err(e);
            }
        };
        let motor_l = Motor::new(Side::Left, MIN_NS_PER_STEP, now_ns);
        let motor_r = Motor::new(Side::Right, MIN_NS_PER_STEP, now_ns);
        Ok(Controller {
            current_position: Position::new(PositionMM::new([0, 0]),
                crate::position::PositionStep::new([0, 0])),
            current_position_initialized: false,
            motor_l,
            motor_r,
            mode: ControllerMode::QueryPosition,
            paper_limits: None,
            physical,
            move_status: MoveStatus::Stopped,
            s_curve: None,
            move_start_ns: now_ns,
            solver,
            predictor: Predictor::new(now_ns),
            wait_count: 0,
            program,
        })
    }

    pub fn mode(&self) -> (r: ControllerMode)
        ensures
            r == self.mode,
    {
        self.mode
    }

    /// Pick the next mode from the operator's one-letter answer, as the
    /// menu offers it; anything else falls back to asking again.
    pub fn set_mode_from_char(&mut self, c: char)
        requires
            old(self).wf(),
        ensures
            final(self).wf(),
            *final(self) == (Controller { mode: final(self).mode, ..*old(self) }),
            final(self).mode == (match c {
                'm' => ControllerMode::MoveTo,
                'o' => ControllerMode::LoadPattern,
                'p' => ControllerMode::QueryPosition,
                'r' => ControllerMode::InitProgram,
                'c' => ControllerMode::CenterProgram,
                'a' => ControllerMode::ScaleProgram,
                'l' => ControllerMode::QueryPaper,
                _ => ControllerMode::Ask,
            }),
    {
        self.mode = match c {
            'm' => ControllerMode::MoveTo,
            'o' => ControllerMode::LoadPattern,
            'p' => ControllerMode::QueryPosition,
            'r' => ControllerMode::InitProgram,
            'c' => ControllerMode::CenterProgram,
            'a' => ControllerMode::ScaleProgram,
            'l' => ControllerMode::QueryPaper,
            _ => ControllerMode::Ask,
        };
    }

    /// Accept the operator's statement of where the pen is: pair it with
    /// its step image and mark the position known.  Fails when the point
    /// is outside the representable working range.
    pub fn set_current_position(&mut self, mm: PositionMM) -> (r: Result<(), &'static str>)
        requires
            old(self).wf(),
        ensures
            final(self).wf(),
            (r is Ok <==> -(COORD_MAX - COORD_MARGIN) <= mm.xy[0] <= COORD_MAX - COORD_MARGIN
                && -(COORD_MAX - COORD_MARGIN) <= mm.xy[1] <= COORD_MAX - COORD_MARGIN
                && old(self).physical.motor_step_sp(mm, 0) <= STEP_MAX
                && old(self).physical.motor_step_sp(mm, 1) <= STEP_MAX),
            r is Err ==> *final(self) == *old(self),
            r is Ok ==> final(self).current_position.mm == mm
                && final(self).current_position.step.rr[0]
                    == old(self).physical.motor_step_sp(mm, 0)
                && final(self).current_position.step.rr[1]
                    == old(self).physical.motor_step_sp(mm, 1)
                && final(self).current_position_initialized
                && *final(self) == (Controller {
                    current_position: final(self).current_position,
                    current_position_initialized: true,
                    ..*old(self)
                }),
    {
        if mm.x() < -(COORD_MAX - COORD_MARGIN) || mm.x() > COORD_MAX - COORD_MARGIN
            || mm.y() < -(COORD_MAX - COORD_MARGIN) || mm.y() > COORD_MAX - COORD_MARGIN {
            return Err("position outside the working range");
        }
        let pos = Position::from_mm(mm, &self.physical);
        let steps = pos.iter_step();
        if steps[0] > STEP_MAX || steps[1] > STEP_MAX {
            return Err("position outside the working range");
        }
        self.current_position = pos;
        self.current_position_initialized = true;
        Ok(())
    }

    /// Accept the operator's paper limits; the y interval is shifted by the
    /// machine's configured offset before it is stored.
    pub fn set_paper_limits(&mut self, x_limit: AxisLimit, y_limit: AxisLimit)
        -> (r: Result<(), &'static str>)
        requires
            old(self).wf(),
        ensures
            final(self).wf(),
            (r is Ok <==> x_limit.bounded()
                && -COORD_MAX <= y_limit.val[0] + old(self).physical.y_offset <= COORD_MAX
                && -COORD_MAX <= y_limit.val[1] + old(self).physical.y_offset <= COORD_MAX
                && y_limit.bounded()),
            r is Err ==> *final(self) == *old(self),
            r is Ok ==> (final(self).paper_limits matches Some(l)
                    && l[0] == x_limit
                    && l[1].val[0] == y_limit.val[0] + old(self).physical.y_offset
                    && l[1].val[1] == y_limit.val[1] + old(self).physical.y_offset)
                && *final(self) == (Controller {
                    paper_limits: final(self).paper_limits, ..*old(self) }),
    {
        if x_limit.val[0] < -COORD_MAX || x_limit.val[0] > COORD_MAX
            || x_limit.val[1] < -COORD_MAX || x_limit.val[1] > COORD_MAX
            || y_limit.val[0] < -COORD_MAX || y_limit.val[0] > COORD_MAX
            || y_limit.val[1] < -COORD_MAX || y_limit.val[1] > COORD_MAX {
            return Err("paper limits outside the working range");
        }
        let off = self.physical.y_offset;
        if y_limit.val[0] + off < -COORD_MAX || y_limit.val[0] + off > COORD_MAX
            || y_limit.val[1] + off < -COORD_MAX || y_limit.val[1] + off > COORD_MAX {
            return Err("paper limits outside the working range");
        }
        let mut y_adjusted = y_limit;
        self.physical.adjust_paper_y_limit(&mut y_adjusted);
        self.paper_limits = Some([x_limit, y_adjusted]);
        Ok(())
    }

    /// Replace the loaded program (a parsed G-code file or a generated
    /// pattern).
    pub fn load_program(&mut self, program: PlotterProgram)
        requires
            old(self).wf(),
            program.wf(),
        ensures
            final(self).wf(),
            final(self).program == Some(program),
            *final(self) == (Controller { program: Some(program), ..*old(self) }),
    {
        self.program = Some(program);
    }

    /// Start running the loaded program: there must be one, the paper
    /// limits must be set, and the program must fit inside them; then the
    /// cursor rewinds and the mode moves to run.  On failure the mode
    /// returns to asking.  Nothing else changes either way.
    pub fn init_program(&mut self) -> (r: Result<(), &'static str>)
        requires
            old(self).wf(),
        ensures
            final(self).wf(),
            (r is Ok <==> old(self).program is Some && old(self).paper_limits is Some
                && inside_limit_sp(old(self).program->Some_0.x_limits,
                    old(self).paper_limits->Some_0[0])
                && inside_limit_sp(old(self).program->Some_0.y_limits,
                    old(self).paper_limits->Some_0[1])),
            (r is Err && old(self).program is None <==> r is Err
                && r->Err_0 == "No Program Loaded"),
            (r is Err && old(self).program is Some && old(self).paper_limits is None
                <==> r is Err && r->Err_0 == "Set paper limits first"),
            (r is Err && old(self).program is Some && old(self).paper_limits is Some
                <==> r is Err && r->Err_0 == "Program not within paper limits"),
            r is Ok ==> final(self).mode == ControllerMode::RunProgram
                && (final(self).program matches Some(p)
                    && p.current_position == 0
                    && p.instructions@ == old(self).program->Some_0.instructions@
                    && p.x_limits == old(self).program->Some_0.x_limits
                    && p.y_limits == old(self).program->Some_0.y_limits)
                && *final(self) == (Controller {
                    mode: ControllerMode::RunProgram,
                    program: final(self).program,
                    ..*old(self)
                }),
            r is Err ==> final(self).mode == ControllerMode::Ask
                && *final(self) == (Controller { mode: ControllerMode::Ask, ..*old(self) }),
    {
        let has_fit: Result<(), &'static str> = match &self.program {
            Some(program) => {
                match &self.paper_limits {
                    Some(paper_limits) => {
                        proof {
                            crate::gcode::lemma_program_limits_bounded(
                                self.program->Some_0);
                        }
                        if !program.within_limits(paper_limits) {
                            Err("Program not within paper limits")
                        } else {
                            Ok(())
                        }
                    }
                    None => Err("Set paper limits first"),
                }
            }
            None => Err("No Program Loaded"),
        };
        match has_fit {
            Ok(_) => {
                match &mut self.program {
                    Some(program) => {
                        program.reset();
                        self.mode = ControllerMode::RunProgram;
                        Ok(())
                    }
                    None => {
                        proof {
                            assert(false);
                        }
                        Err("No Program Loaded")
                    }
                }
            }
            Err(e) => {
                self.mode = ControllerMode::Ask;
                Err(e)
            }
        }
    }

    /// Pull the next instruction of the running program; exhaustion sends
    /// the mode back to asking and yields nothing.
    pub fn next_program_instruction(&mut self) -> (r: Option<PlotterInstruction>)
        requires
            old(self).wf(),
        ensures
            final(self).wf(),
            old(self).program is None ==> r is None
                && final(self).mode == ControllerMode::Ask,
            (old(self).program is Some
                && old(self).program->Some_0.current_position
                    < old(self).program->Some_0.instructions@.len())
                ==> (r matches Some(ins)
                    && ins == old(self).program->Some_0.instructions@[
                        old(self).program->Some_0.current_position as int]
                    && (final(self).program matches Some(q)
                        && q.current_position
                            == old(self).program->Some_0.current_position + 1
                        && q.instructions@ == old(self).program->Some_0.instructions@
                        && q.x_limits == old(self).program->Some_0.x_limits
                        && q.y_limits == old(self).program->Some_0.y_limits)
                    && *final(self) == (Controller {
                        program: final(self).program, ..*old(self) })),
            (old(self).program is Some
                && old(self).program->Some_0.current_position
                    >= old(self).program->Some_0.instructions@.len())
                ==> r is None && final(self).mode == ControllerMode::Ask,
    {
        match &mut self.program {
            Some(program) => {
                match program.advance() {
                    Some(ins) => Some(ins),
                    None => {
                        self.mode = ControllerMode::Ask;
                        None
                    }
                }
            }
            None => {
                self.mode = ControllerMode::Ask;
                None
            }
        }
    }

    /// Close one operator interaction, as the mode machine prescribes:
    /// a move or a pattern load always returns to asking; entering a
    /// position or paper limits, scaling and centring return to asking only
    /// when they succeeded, and otherwise stay in their mode so the
    /// operator is asked again.  Program start and run keep the mode their
    /// own steps chose.
    pub fn finish_interaction(&mut self, succeeded: bool)
        requires
            old(self).wf(),
        ensures
            final(self).wf(),
            *final(self) == (Controller { mode: final(self).mode, ..*old(self) }),
            final(self).mode == (match old(self).mode {
                ControllerMode::MoveTo => ControllerMode::Ask,
                ControllerMode::LoadPattern => ControllerMode::Ask,
                ControllerMode::QueryPaper => if succeeded { ControllerMode::Ask }
                    else { ControllerMode::QueryPaper },
                ControllerMode::QueryPosition => if succeeded { ControllerMode::Ask }
                    else { ControllerMode::QueryPosition },
                ControllerMode::ScaleProgram => if succeeded { ControllerMode::Ask }
                    else { ControllerMode::ScaleProgram },
                ControllerMode::CenterProgram => if succeeded { ControllerMode::Ask }
                    else { ControllerMode::CenterProgram },
                m => m,
            }),
    {
        match self.mode {
            ControllerMode::MoveTo | ControllerMode::LoadPattern => {
                self.mode = ControllerMode::Ask;
            }
            ControllerMode::QueryPaper | ControllerMode::QueryPosition
            | ControllerMode::ScaleProgram | ControllerMode::CenterProgram => {
                if succeeded {
                    self.mode = ControllerMode::Ask;
                }
            }
            _ => {}
        }
    }

    /// Prepare a move to `mm`: a target within two whole steps is skipped
    /// (the move is immediately stopped), otherwise a trajectory is solved
    /// and the move starts at `now_ns`.
    pub fn init_move(&mut self, mm: &PositionMM, now_ns: i64) -> (r: Result<(), &'static str>)
        requires
            old(self).wf(),
            0 <= now_ns <= CLOCK_MAX,
        ensures
            final(self).wf(),
            ({
                let in_range = -(COORD_MAX - COORD_MARGIN) <= mm.xy[0] <= COORD_MAX - COORD_MARGIN
                    && -(COORD_MAX - COORD_MARGIN) <= mm.xy[1] <= COORD_MAX - COORD_MARGIN;
                let len = crate::position::dist_nm_sp(old(self).current_position.mm, *mm);
                let near = old(self).physical.nm_to_fine_sp(len) < 2_000_000;
                let solver = old(self).solver;
                &&& (r is Ok <==> in_range && (near
                    || (if len >= solver.min_dist_truncated_coast {
                        crate::scurve::coast_ok_sp(solver, len)
                    } else if len > solver.min_dist_truncated_max_acceleration {
                        crate::scurve::mid_ok_sp(solver, len)
                    } else {
                        crate::scurve::short_ok_sp(solver, len)
                    })))
                &&& (r is Ok && near
                    ==> final(self).move_status == MoveStatus::Stopped
                        && *final(self) == (Controller {
                            move_status: MoveStatus::Stopped, ..*old(self) }))
                &&& (r is Ok && !near
                    ==> final(self).move_status == MoveStatus::Moving
                        && (final(self).s_curve matches Some(c)
                            && c.start == old(self).current_position.mm
                            && c.delta[0] == mm.xy[0] - old(self).current_position.mm.xy[0]
                            && c.delta[1] == mm.xy[1] - old(self).current_position.mm.xy[1]
                            && c.len == len
                            && c.m_j == solver.m_j && c.m_a == solver.m_a)
                        && final(self).move_start_ns == now_ns
                        && final(self).predictor.last_instant == now_ns
                        && final(self).wait_count == 0
                        && final(self).current_position == old(self).current_position
                        && final(self).program == old(self).program
                        && final(self).mode == old(self).mode)
                &&& (r is Err ==> final(self).move_status == MoveStatus::Stopped
                    && *final(self) == (Controller {
                        move_status: MoveStatus::Stopped, ..*old(self) })
                    && (!in_range ==> r->Err_0 == "target outside the working range"))
            }),
    {
        if mm.x() < -(COORD_MAX - COORD_MARGIN) || mm.x() > COORD_MAX - COORD_MARGIN
            || mm.y() < -(COORD_MAX - COORD_MARGIN) || mm.y() > COORD_MAX - COORD_MARGIN {
            self.move_status = MoveStatus::Stopped;
            return Err("target outside the working range");
        }
        if self.current_position.very_close_to(mm, &self.physical) {
            self.move_status = MoveStatus::Stopped;
            return Ok(());
        }
        match self.solver.solve_curve(self.current_position.mm, *mm) {
            Ok(curve) => {
                self.s_curve = Some(curve);
                self.move_start_ns = now_ns;
                self.predictor = Predictor::new(now_ns);
                self.move_status = MoveStatus::Moving;
                self.wait_count = 0;
                Ok(())
            }
            Err(e) => {
                self.move_status = MoveStatus::Stopped;
                Err(e)
            }
        }
    }

    /// One tick of an active move: refresh the move status from the
    /// trajectory clock and, while still moving, ask the predictor and
    /// apply its instructions to the motors and the step counters.  Past
    /// the trajectory's total time (or with no trajectory) the tick only
    /// stops the move; inside it, the dead-band rule decides between
    /// waiting and stepping, exactly as the predictor and the step
    /// instructions state it.
    pub fn update_move(&mut self, now_ns: i64) -> (r: Result<(), &'static str>)
        requires
            old(self).wf(),
            0 <= now_ns <= CLOCK_MAX,
            now_ns >= old(self).move_start_ns,
        ensures
            final(self).wf(),
            (old(self).s_curve is None
                || now_ns - old(self).move_start_ns >= old(self).s_curve->Some_0.t[6]
                ==> r is Ok && final(self).move_status == MoveStatus::Stopped
                    && *final(self) == (Controller {
                        move_status: MoveStatus::Stopped, ..*old(self) })),
            (old(self).s_curve is Some
                && now_ns - old(self).move_start_ns < old(self).s_curve->Some_0.t[6] ==> ({
                let c = old(self).s_curve->Some_0;
                let elapsed = now_ns - old(self).move_start_ns;
                let pos = crate::scurve::curve_pos_sp(c,
                    crate::scurve::scurve_scalar(c, elapsed as int));
                let r0 = crate::predictor::remainder_sp(
                    old(self).physical.motor_fine_sp(pos, 0),
                    old(self).current_position.step.rr[0] as int);
                let r1 = crate::predictor::remainder_sp(
                    old(self).physical.motor_fine_sp(pos, 1),
                    old(self).current_position.step.rr[1] as int);
                let band = crate::predictor::FINE_PER_STEP as int;
                &&& final(self).move_status == MoveStatus::Moving
                &&& final(self).predictor.last_instant == now_ns
                &&& final(self).predictor.last_remainder[0] == r0
                &&& final(self).predictor.last_remainder[1] == r1
                &&& (-band <= r0 <= band && -band <= r1 <= band ==> r is Ok
                    && final(self).wait_count == (if old(self).wait_count < usize::MAX {
                        old(self).wait_count + 1int
                    } else {
                        old(self).wait_count as int
                    })
                    && *final(self) == (Controller {
                        move_status: MoveStatus::Moving,
                        predictor: final(self).predictor,
                        wait_count: final(self).wait_count,
                        ..*old(self)
                    }))
                &&& (!(-band <= r0 <= band && -band <= r1 <= band) ==> ({
                    let i0 = crate::predictor::instruction_sp(r0);
                    let i1 = crate::predictor::instruction_sp(r1);
                    let n0 = old(self).current_position.step.rr[0] as int
                        + crate::motor::step_delta_sp(i0);
                    let n1 = old(self).current_position.step.rr[1] as int
                        + crate::motor::step_delta_sp(i1);
                    let st = crate::position::PositionStep { rr: [n0 as usize, n1 as usize] };
                    let in_range = 0 <= n0 <= STEP_MAX && 0 <= n1 <= STEP_MAX;
                    &&& final(self).wait_count == 0
                    &&& *final(self) == (Controller {
                        move_status: MoveStatus::Moving,
                        predictor: final(self).predictor,
                        wait_count: 0,
                        current_position: final(self).current_position,
                        motor_l: final(self).motor_l,
                        motor_r: final(self).motor_r,
                        ..*old(self)
                    })
                    &&& (r is Ok <==> in_range
                        && old(self).physical.forward_reachable_sp(st)
                        && -(COORD_MAX - COORD_MARGIN)
                            <= old(self).physical.forward_x_of_step_sp(st)
                            <= COORD_MAX - COORD_MARGIN
                        && -(COORD_MAX - COORD_MARGIN)
                            <= old(self).physical.forward_y_of_step_sp(st)
                            <= COORD_MAX - COORD_MARGIN)
                    &&& (r is Ok ==> final(self).current_position.step.rr[0] == n0
                        && final(self).current_position.step.rr[1] == n1
                        && final(self).current_position.mm.xy[0]
                            == old(self).physical.forward_x_of_step_sp(st)
                        && final(self).current_position.mm.xy[1]
                            == old(self).physical.forward_y_of_step_sp(st)
                        && motor_stepped_sp(old(self).motor_l, final(self).motor_l, i0, now_ns)
                        && motor_stepped_sp(old(self).motor_r, final(self).motor_r, i1, now_ns))
                    &&& (r is Err ==> final(self).current_position
                            == old(self).current_position
                        && final(self).motor_l == old(self).motor_l
                        && final(self).motor_r == old(self).motor_r)
                }))
            })),
    {
        let curve_done: bool = match &self.s_curve {
            Some(curve) => {
                let elapsed: i64 = now_ns - self.move_start_ns;
                if elapsed >= curve.t[6] {
                    true
                } else {
                    false
                }
            }
            None => true,
        };
        if curve_done {
            self.move_status = MoveStatus::Stopped;
            return Ok(());
        }
        let desired = match &self.s_curve {
            Some(curve) => {
                let elapsed: i64 = now_ns - self.move_start_ns;
                curve.get_desired(&self.solver, &self.physical, elapsed)
            }
            None => {
                proof {
                    assert(false);
                }
                return Ok(());
            }
        };
        self.move_status = MoveStatus::Moving;
        match self.predictor.predict(&self.current_position, &desired, now_ns) {
            Prediction::Wait(_duration) => {
                if self.wait_count < usize::MAX {
                    self.wait_count = self.wait_count + 1;
                }
                Ok(())
            }
            Prediction::MoveMotors(instructions) => {
                self.wait_count = 0;
                self.implement_step_instructions(instructions, now_ns)
            }
        }
    }

    /// Drive both motors by one predictor instruction each and mirror the
    /// steps into the commanded step counters, then recover the pen
    /// position of the new counters through the forward kinematics.  Fails,
    /// changing nothing, exactly when a counter would leave its range or
    /// the new pair has no representable position; otherwise the counters
    /// move by the instructions' deltas, each motor is stepped at `now_ns`
    /// under its rate limiter, and the position is the forward image.
    pub fn implement_step_instructions(&mut self, instructions: [StepInstruction; 2],
        now_ns: i64) -> (r: Result<(), &'static str>)
        requires
            old(self).wf(),
            0 <= now_ns <= CLOCK_MAX,
        ensures
            final(self).wf(),
            ({
                let n0 = old(self).current_position.step.rr[0] as int
                    + crate::motor::step_delta_sp(instructions[0]);
                let n1 = old(self).current_position.step.rr[1] as int
                    + crate::motor::step_delta_sp(instructions[1]);
                let st = crate::position::PositionStep { rr: [n0 as usize, n1 as usize] };
                let in_range = 0 <= n0 <= STEP_MAX && 0 <= n1 <= STEP_MAX;
                &&& (r is Ok <==> in_range
                    && old(self).physical.forward_reachable_sp(st)
                    && -(COORD_MAX - COORD_MARGIN)
                        <= old(self).physical.forward_x_of_step_sp(st)
                        <= COORD_MAX - COORD_MARGIN
                    && -(COORD_MAX - COORD_MARGIN)
                        <= old(self).physical.forward_y_of_step_sp(st)
                        <= COORD_MAX - COORD_MARGIN)
                &&& (r is Err ==> *final(self) == *old(self)
                    && (!in_range ==> r->Err_0 == "step counter out of range")
                    && (in_range ==> r->Err_0 == "unreachable step pair"))
                &&& (r is Ok ==> {
                    &&& final(self).current_position.step.rr[0] == n0
                    &&& final(self).current_position.step.rr[1] == n1
                    &&& final(self).current_position.mm.xy[0]
                            == old(self).physical.forward_x_of_step_sp(st)
                    &&& final(self).current_position.mm.xy[1]
                            == old(self).physical.forward_y_of_step_sp(st)
                    &&& motor_stepped_sp(old(self).motor_l, final(self).motor_l,
                            instructions[0], now_ns)
                    &&& motor_stepped_sp(old(self).motor_r, final(self).motor_r,
                            instructions[1], now_ns)
                    &&& *final(self) == (Controller {
                        current_position: final(self).current_position,
                        motor_l: final(self).motor_l,
                        motor_r: final(self).motor_r,
                        ..*old(self)
                    })
                })
            }),
    {
        let step0 = self.current_position.get_step();
        let rr = step0.iter();
        let n0: usize = match instructions[0] {
            StepInstruction::StepLonger => {
                if rr[0] >= STEP_MAX {
                    return Err("step counter out of range");
                }
                rr[0] + 1
            }
            StepInstruction::StepShorter => {
                if rr[0] == 0 {
                    return Err("step counter out of range");
                }
                rr[0] - 1
            }
            StepInstruction::Hold => rr[0],
        };
        let n1: usize = match instructions[1] {
            StepInstruction::StepLonger => {
                if rr[1] >= STEP_MAX {
                    return Err("step counter out of range");
                }
                rr[1] + 1
            }
            StepInstruction::StepShorter => {
                if rr[1] == 0 {
                    return Err("step counter out of range");
                }
                rr[1] - 1
            }
            StepInstruction::Hold => rr[1],
        };
        let newstep = crate::position::PositionStep::new([n0, n1]);
        let pos = match Position::from_step(newstep, &self.physical) {
            Ok(pos) => pos,
            Err(e) => {
                return Err(e);
            }
        };
        if pos.mm.x() < -(COORD_MAX - COORD_MARGIN) || pos.mm.x() > COORD_MAX - COORD_MARGIN
            || pos.mm.y() < -(COORD_MAX - COORD_MARGIN)
            || pos.mm.y() > COORD_MAX - COORD_MARGIN {
            return Err("unreachable step pair");
        }
        let _ = self.motor_l.step(&instructions[0], now_ns);
        let _ = self.motor_r.step(&instructions[1], now_ns);
        self.current_position = pos;
        Ok(())
    }

    /// Centre the loaded program in the given limits: a pure translation,
    /// exactly as the program's own centring states it.
    pub fn center_program_with(&mut self, x_limit: &AxisLimit, y_limit: &AxisLimit)
        -> (r: Result<(), &'static str>)
        requires
            old(self).wf(),
            x_limit.bounded(),
            y_limit.bounded(),
            x_limit.val[0] <= x_limit.val[1],
            y_limit.val[0] <= y_limit.val[1],
        ensures
            final(self).wf(),
            *final(self) == (Controller { program: final(self).program, ..*old(self) }),
            (r is Ok <==> old(self).program is Some
                && old(self).program->Some_0.x_limits.val[1]
                    - old(self).program->Some_0.x_limits.val[0]
                    <= x_limit.val[1] - x_limit.val[0]
                && old(self).program->Some_0.y_limits.val[1]
                    - old(self).program->Some_0.y_limits.val[0]
                    <= y_limit.val[1] - y_limit.val[0]),
            (old(self).program is None <==> r is Err && r->Err_0 == "No program loaded!"),
            r is Err ==> final(self).program == old(self).program
                && (old(self).program is Some ==> r->Err_0 == "Too large to center"),
            (r is Ok ==> ({
                let p0 = old(self).program->Some_0;
                let p1 = final(self).program->Some_0;
                let dx = crate::num::div_round(
                    x_limit.val[0] + x_limit.val[1] - p0.x_limits.val[0] - p0.x_limits.val[1], 2);
                let dy = crate::num::div_round(
                    y_limit.val[0] + y_limit.val[1] - p0.y_limits.val[0] - p0.y_limits.val[1], 2);
                &&& final(self).program is Some
                &&& p1.current_position == p0.current_position
                &&& p1.instructions@.len() == p0.instructions@.len()
                &&& (forall|i: int| 0 <= i < p0.instructions@.len()
                        ==> crate::gcode::ins_transposed(#[trigger] p0.instructions@[i],
                            p1.instructions@[i], dx, dy))
                &&& p1.x_limits.val[0] == p0.x_limits.val[0] + dx
                &&& p1.x_limits.val[1] == p0.x_limits.val[1] + dx
                &&& p1.y_limits.val[0] == p0.y_limits.val[0] + dy
                &&& p1.y_limits.val[1] == p0.y_limits.val[1] + dy
                &&& x_limit.val[0] <= p1.x_limits.val[0] && p1.x_limits.val[1] <= x_limit.val[1]
                &&& y_limit.val[0] <= p1.y_limits.val[0] && p1.y_limits.val[1] <= y_limit.val[1]
            })),
    {
        match &mut self.program {
            Some(program) => {
                proof {
                    crate::gcode::lemma_program_limits_bounded(old(self).program->Some_0);
                }
                match program.center_keep_aspect(x_limit, y_limit) {
                    Ok(_) => Ok(()),
                    Err(e) => Err(e),
                }
            }
            None => Err("No program loaded!"),
        }
    }

    /// Rescale the loaded program axis by axis onto the given limits, each
    /// axis landing exactly on its target.
    pub fn scale_program_axes(&mut self, x_limit: &AxisLimit, y_limit: &AxisLimit)
        -> (r: Result<(), &'static str>)
        requires
            old(self).wf(),
            x_limit.bounded(),
            y_limit.bounded(),
            x_limit.val[0] <= x_limit.val[1],
            y_limit.val[0] <= y_limit.val[1],
        ensures
            final(self).wf(),
            *final(self) == (Controller { program: final(self).program, ..*old(self) }),
            (r is Ok <==> old(self).program is Some
                && old(self).program->Some_0.x_limits.val[0]
                    < old(self).program->Some_0.x_limits.val[1]
                && old(self).program->Some_0.y_limits.val[0]
                    < old(self).program->Some_0.y_limits.val[1]),
            (old(self).program is None <==> r is Err && r->Err_0 == "No program loaded!"),
            (r is Err && old(self).program is Some ==> r->Err_0 == "Scale failed"),
            (r is Ok ==> ({
                let p0 = old(self).program->Some_0;
                let p1 = final(self).program->Some_0;
                let tx = crate::gcode::fit_transform_sp(p0.x_limits, *x_limit);
                let ty = crate::gcode::fit_transform_sp(p0.y_limits, *y_limit);
                &&& final(self).program is Some
                &&& p1.current_position == p0.current_position
                &&& p1.instructions@.len() == p0.instructions@.len()
                &&& (forall|i: int| 0 <= i < p0.instructions@.len()
                        ==> crate::gcode::ins_transformed2(#[trigger] p0.instructions@[i],
                            p1.instructions@[i], tx, ty))
                &&& p1.x_limits.val[0] == x_limit.val[0] && p1.x_limits.val[1] == x_limit.val[1]
                &&& p1.y_limits.val[0] == y_limit.val[0] && p1.y_limits.val[1] == y_limit.val[1]
            })),
    {
        match &mut self.program {
            Some(program) => {
                let ghost p0 = old(self).program->Some_0;
                match program.scale_axis(x_limit, &Axis::X) {
                    Ok(_) => {}
                    Err(e) => {
                        return Err(e);
                    }
                }
                let ghost pmid = *program;
                match program.scale_axis(y_limit, &Axis::Y) {
                    Ok(_) => {
                        proof {
                            let tx = crate::gcode::fit_transform_sp(p0.x_limits, *x_limit);
                            let ty = crate::gcode::fit_transform_sp(p0.y_limits, *y_limit);
                            assert forall|i: int| 0 <= i < p0.instructions@.len()
                                implies crate::gcode::ins_transformed2(
                                    #[trigger] p0.instructions@[i],
                                    final(self).program->Some_0.instructions@[i], tx, ty) by {
                                assert(crate::gcode::ins_transformed(p0.instructions@[i],
                                    pmid.instructions@[i], tx, Axis::X));
                                assert(crate::gcode::ins_transformed(pmid.instructions@[i],
                                    final(self).program->Some_0.instructions@[i], ty, Axis::Y));
                            }
                        }
                        Ok(())
                    }
                    Err(e) => Err(e),
                }
            }
            None => Err("No program loaded!"),
        }
    }

    /// Rescale the loaded program onto the given limits, preserving its
    /// aspect ratio, exactly as the program's own transform states it.
    pub fn scale_program_keep_aspect(&mut self, x_limit: &AxisLimit, y_limit: &AxisLimit)
        -> (r: Result<(), &'static str>)
        requires
            old(self).wf(),
            x_limit.bounded(),
            y_limit.bounded(),
            x_limit.val[0] <= x_limit.val[1],
            y_limit.val[0] <= y_limit.val[1],
        ensures
            final(self).wf(),
            *final(self) == (Controller { program: final(self).program, ..*old(self) }),
            (r is Ok <==> old(self).program is Some
                && old(self).program->Some_0.x_limits.val[0]
                    < old(self).program->Some_0.x_limits.val[1]
                && old(self).program->Some_0.y_limits.val[0]
                    < old(self).program->Some_0.y_limits.val[1]),
            (old(self).program is None <==> r is Err && r->Err_0 == "No program loaded!"),
            r is Err ==> final(self).program == old(self).program
                && (old(self).program is Some ==> r->Err_0 == "Scale failed"),
            (r is Ok ==> ({
                let p0 = old(self).program->Some_0;
                let p1 = final(self).program->Some_0;
                let nx = x_limit.val[1] - x_limit.val[0];
                let ny = y_limit.val[1] - y_limit.val[0];
                let ex = p0.x_limits.val[1] - p0.x_limits.val[0];
                let ey = p0.y_limits.val[1] - p0.y_limits.val[0];
                let x_adjusted = nx * ey > ny * ex;
                let tx = if x_adjusted {
                    crate::gcode::center_transform_sp(p0.x_limits, *x_limit, ny as i64, ey as i64)
                } else {
                    crate::gcode::fit_transform_sp(p0.x_limits, *x_limit)
                };
                let ty = if x_adjusted {
                    crate::gcode::fit_transform_sp(p0.y_limits, *y_limit)
                } else {
                    crate::gcode::center_transform_sp(p0.y_limits, *y_limit, nx as i64, ex as i64)
                };
                &&& final(self).program is Some
                &&& p1.current_position == p0.current_position
                &&& p1.instructions@.len() == p0.instructions@.len()
                &&& (forall|i: int| 0 <= i < p0.instructions@.len()
                        ==> crate::gcode::ins_transformed2(#[trigger] p0.instructions@[i],
                            p1.instructions@[i], tx, ty))
                &&& p1.x_limits.val[0] == crate::gcode::transform_sp(tx, p0.x_limits.val[0] as int)
                &&& p1.x_limits.val[1] == crate::gcode::transform_sp(tx, p0.x_limits.val[1] as int)
                &&& p1.y_limits.val[0] == crate::gcode::transform_sp(ty, p0.y_limits.val[0] as int)
                &&& p1.y_limits.val[1] == crate::gcode::transform_sp(ty, p0.y_limits.val[1] as int)
                &&& x_limit.val[0] <= p1.x_limits.val[0] && p1.x_limits.val[1] <= x_limit.val[1]
                &&& y_limit.val[0] <= p1.y_limits.val[0] && p1.y_limits.val[1] <= y_limit.val[1]
            })),
    {
        match &mut self.program {
            Some(program) => {
                match program.scale_keep_aspect(x_limit, y_limit) {
                    Ok(_) => Ok(()),
                    Err(e) => Err(e),
                }
            }
            None => Err("No program loaded!"),
        }
    }
}

} // verus!
