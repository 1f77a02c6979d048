use eveline::controller::{Controller, ControllerMode, MoveStatus, MIN_NS_PER_STEP};
use eveline::gcode::{AxisLimit, PlotterInstruction, PlotterProgram};
use eveline::motor::{Motor, Side, StepInstruction};
use eveline::physical::Physical;
use eveline::position::{Position, PositionMM, PositionStep, PositionStepFine};
use eveline::predictor::{Prediction, Predictor};

#[test]
fn predictor_dead_band() {
    // current (1000, 1000) whole steps, desired (1000.4, 1001.6):
    // the left motor holds, the right motor lengthens
    let current = Position::new(PositionMM::new([100_000, 200_000]),
        PositionStep::new([1000, 1000]));
    let desired = PositionStepFine::new([1_000_400_000, 1_001_600_000]);
    let mut predictor = Predictor::new(0);
    match predictor.predict(&current, &desired, 7) {
        Prediction::MoveMotors(insts) => {
            assert!(matches!(insts[0], StepInstruction::Hold));
            assert!(matches!(insts[1], StepInstruction::StepLonger));
        }
        Prediction::Wait(_) => panic!("expected a move"),
    }
    assert_eq!(predictor.last_instant, 7);
    assert_eq!(predictor.last_remainder, [400_000, 1_600_000]);
}

#[test]
fn predictor_waits_inside_the_dead_band() {
    let current = Position::new(PositionMM::new([100_000, 200_000]),
        PositionStep::new([1000, 1000]));
    let desired = PositionStepFine::new([1_000_999_999, 999_000_001]);
    let mut predictor = Predictor::new(0);
    match predictor.predict(&current, &desired, 1) {
        Prediction::Wait(w) => assert_eq!(w, 0),
        Prediction::MoveMotors(_) => panic!("expected a wait"),
    }
}

#[test]
fn predictor_shortens_below_the_band() {
    let current = Position::new(PositionMM::new([100_000, 200_000]),
        PositionStep::new([1000, 1000]));
    let desired = PositionStepFine::new([997_500_000, 1_000_000_000]);
    let mut predictor = Predictor::new(0);
    match predictor.predict(&current, &desired, 1) {
        Prediction::MoveMotors(insts) => {
            assert!(matches!(insts[0], StepInstruction::StepShorter));
            assert!(matches!(insts[1], StepInstruction::Hold));
        }
        Prediction::Wait(_) => panic!("expected a move"),
    }
}

#[test]
fn motor_rate_limiter() {
    let mut m = Motor::new(Side::Left, MIN_NS_PER_STEP, 0);
    // too soon: rejected, nothing moves
    assert!(m.step(&StepInstruction::StepLonger, MIN_NS_PER_STEP - 1).is_err());
    assert_eq!(m.position, 0);
    // after the interval: accepted
    assert!(m.step(&StepInstruction::StepLonger, MIN_NS_PER_STEP).is_ok());
    assert_eq!(m.position, 1);
    // immediately again: rejected
    assert!(m.step(&StepInstruction::StepShorter, MIN_NS_PER_STEP + 1).is_err());
    assert_eq!(m.position, 1);
    // hold always succeeds and never moves
    assert!(m.step(&StepInstruction::Hold, MIN_NS_PER_STEP + 1).is_ok());
    assert_eq!(m.position, 1);
}

#[test]
fn motor_phase_cycles() {
    let mut m = Motor::new(Side::Left, 0, 0);
    assert_eq!(m.current, 0);
    let mut now: i64 = 1;
    for expected in [1usize, 2, 3, 0, 1] {
        assert!(m.step(&StepInstruction::StepLonger, now).is_ok());
        assert_eq!(m.current, expected);
        assert_eq!(m.current_on, expected);
        assert_eq!(m.current_pwm, (expected + 1) % 4);
        now += 1;
    }
    // the right motor turns the other way for the same instruction
    let mut r = Motor::new(Side::Right, 0, 0);
    assert!(r.step(&StepInstruction::StepLonger, 1).is_ok());
    assert_eq!(r.current, 3);
}

fn tiny_program() -> PlotterProgram {
    PlotterProgram::from_instructions(vec![
        PlotterInstruction::Move(PositionMM::new([100_000, 200_000])),
        PlotterInstruction::Move(PositionMM::new([110_000, 200_000])),
    ]).expect("program")
}

#[test]
fn controller_mode_menu() {
    let mut c = Controller::new(None, 0).expect("controller");
    assert!(matches!(c.mode(), ControllerMode::QueryPosition));
    c.set_mode_from_char('m');
    assert!(matches!(c.mode(), ControllerMode::MoveTo));
    c.set_mode_from_char('l');
    assert!(matches!(c.mode(), ControllerMode::QueryPaper));
    c.set_mode_from_char('?');
    assert!(matches!(c.mode(), ControllerMode::Ask));
}

#[test]
fn controller_init_program_needs_everything() {
    let mut c = Controller::new(None, 0).expect("controller");
    assert_eq!(c.init_program().unwrap_err(), "No Program Loaded");
    assert!(matches!(c.mode(), ControllerMode::Ask));
    c.load_program(tiny_program());
    assert_eq!(c.init_program().unwrap_err(), "Set paper limits first");
    c.set_paper_limits(AxisLimit::new([45_000, 260_000]), AxisLimit::new([50_000, 328_000]))
        .expect("limits");
    c.init_program().expect("fits");
    assert!(matches!(c.mode(), ControllerMode::RunProgram));
    // and an oversized paper rejects the program
    let mut c2 = Controller::new(Some(tiny_program()), 0).expect("controller");
    c2.set_paper_limits(AxisLimit::new([104_000, 105_000]), AxisLimit::new([50_000, 328_000]))
        .expect("limits");
    assert_eq!(c2.init_program().unwrap_err(), "Program not within paper limits");
}

#[test]
fn controller_runs_a_move_to_completion() {
    let mut c = Controller::new(None, 0).expect("controller");
    c.set_current_position(PositionMM::new([100_000, 200_000])).expect("position");
    let target = PositionMM::new([101_000, 200_000]);
    c.init_move(&target, 0).expect("move starts");
    assert!(matches!(c.move_status, MoveStatus::Moving));
    let mut now: i64 = 0;
    let mut guard: u32 = 0;
    while matches!(c.move_status, MoveStatus::Moving) {
        c.update_move(now).expect("tick");
        now += 1_000_000;
        guard += 1;
        assert!(guard < 2_000_000, "move never finished");
    }
    // the pen arrived within two steps of the target
    let p = Physical::new();
    let end = Position::new(c.current_position.mm, c.current_position.step);
    assert!(end.very_close_to(&target, &p));
}

#[test]
fn controller_skips_sub_step_moves() {
    let mut c = Controller::new(None, 0).expect("controller");
    c.set_current_position(PositionMM::new([100_000, 200_000])).expect("position");
    c.init_move(&PositionMM::new([100_010, 200_000]), 0).expect("move");
    assert!(matches!(c.move_status, MoveStatus::Stopped));
}

#[test]
fn controller_program_cursor() {
    let mut c = Controller::new(Some(tiny_program()), 0).expect("controller");
    assert!(c.next_program_instruction().is_some());
    assert!(c.next_program_instruction().is_some());
    assert!(c.next_program_instruction().is_none());
    assert!(matches!(c.mode(), ControllerMode::Ask));
}
