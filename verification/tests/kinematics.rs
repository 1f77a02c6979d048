use eveline::physical::Physical;
use eveline::position::{Position, PositionMM, PositionStep, PositionStepFine};
use eveline::motor::StepInstruction;

#[test]
fn default_geometry() {
    let p = Physical::new();
    assert_eq!(p.motor_pos[0].iter(), [0, 368_800]);
    assert_eq!(p.motor_pos[1].iter(), [297_000, 368_800]);
    assert_eq!(p.x_limits, [45_000, 260_000]);
    assert_eq!(p.y_limits, [50_000, 328_000]);
    assert_eq!(p.y_offset, -15_000);
}

#[test]
fn distance_is_euclidean() {
    let a = PositionMM::new([0, 0]);
    let b = PositionMM::new([3_000, 4_000]);
    // 3-4-5 triangle: 5 mm = 5_000_000 nm
    assert_eq!(a.dist(&b), 5_000_000);
    assert_eq!(b.dist(&a), 5_000_000);
    assert_eq!(a.dist(&a), 0);
}

#[test]
fn in_bounds_respects_y_offset() {
    let p = Physical::new();
    // y range is [50, 328] mm shifted by -15 mm: [35, 313] mm
    assert!(p.in_bounds(&PositionMM::new([150_000, 200_000])));
    assert!(p.in_bounds(&PositionMM::new([45_000, 35_000])));
    assert!(!p.in_bounds(&PositionMM::new([150_000, 34_999])));
    assert!(!p.in_bounds(&PositionMM::new([44_999, 200_000])));
    assert!(!p.in_bounds(&PositionMM::new([260_001, 200_000])));
}

#[test]
fn identity_round_trip() {
    // inverse then forward returns to the same point within 0.03 mm
    let p = Physical::new();
    let mm = PositionMM::new([148_500, 200_000]);
    let steps = p.get_motor_dist(&mm);
    let back = Position::from_step(steps, &p).expect("reachable");
    let back_xy = back.mm.iter();
    assert!((back_xy[0] - 148_500).abs() <= 30, "x came back as {}", back_xy[0]);
    assert!((back_xy[1] - 200_000).abs() <= 30, "y came back as {}", back_xy[1]);
}

#[test]
fn round_trip_across_the_paper() {
    let p = Physical::new();
    for &(x, y) in &[(45_000i64, 35_000i64), (260_000, 313_000), (100_000, 150_000),
        (200_000, 80_000)] {
        let mm = PositionMM::new([x, y]);
        let steps = p.get_motor_dist(&mm);
        let back = Position::from_step(steps, &p).expect("reachable");
        let back_xy = back.mm.iter();
        assert!((back_xy[0] - x).abs() <= 30, "x {} came back as {}", x, back_xy[0]);
        assert!((back_xy[1] - y).abs() <= 30, "y {} came back as {}", y, back_xy[1]);
    }
}

#[test]
fn steps_scale_with_cable_length() {
    let p = Physical::new();
    // 33.339453 steps per mm, cable of the left motor at (0, 368.8)
    let near = p.get_motor_dist(&PositionMM::new([0, 368_700]));
    // 0.1 mm from the left anchor: about 3 steps
    assert_eq!(near.iter()[0], 3);
}

#[test]
fn step_counter_moves_one_at_a_time() {
    let mut s = PositionStep::new([100, 200]);
    s.step(0, &StepInstruction::StepLonger);
    assert_eq!(s.iter(), [101, 200]);
    s.step(1, &StepInstruction::StepShorter);
    assert_eq!(s.iter(), [101, 199]);
    s.step(0, &StepInstruction::Hold);
    assert_eq!(s.iter(), [101, 199]);
}

#[test]
fn fine_steps_round_to_nearest() {
    let fine = PositionStepFine::new([1_499_999, 1_500_000]);
    let whole = PositionStep::from_position_step_fine(&fine);
    assert_eq!(whole.iter(), [1, 2]);
}

#[test]
fn very_close_skips_sub_step_moves() {
    let p = Physical::new();
    let here = Position::from_mm(PositionMM::new([148_500, 200_000]), &p);
    // two steps is about 60 um
    assert!(here.very_close_to(&PositionMM::new([148_530, 200_000]), &p));
    assert!(!here.very_close_to(&PositionMM::new([148_700, 200_000]), &p));
}

#[test]
fn direction_is_unit_scaled() {
    let a = PositionMM::new([0, 0]);
    let b = PositionMM::new([10_000, 0]);
    assert_eq!(a.get_direction(&b), [1_000_000, 0]);
    let c = PositionMM::new([0, -5_000]);
    assert_eq!(a.get_direction(&c), [0, -1_000_000]);
}

#[test]
fn offset_moves_along_direction() {
    let a = PositionMM::new([1_000, 2_000]);
    let moved = a.offset(&500, &[1_000_000, 0]);
    assert_eq!(moved.iter(), [1_500, 2_000]);
    let diag = a.offset(&1_000, &[1_000_000, 1_000_000]);
    assert_eq!(diag.iter(), [2_000, 3_000]);
}
