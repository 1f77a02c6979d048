use eveline::gcode::{Axis, AxisLimit, PlotterInstruction, PlotterProgram};
use eveline::position::PositionMM;

fn square_program() -> PlotterProgram {
    // bounds x in [0, 100] mm, y in [0, 50] mm
    let ins = vec![
        PlotterInstruction::PenDown,
        PlotterInstruction::Move(PositionMM::new([0, 0])),
        PlotterInstruction::Move(PositionMM::new([100_000, 0])),
        PlotterInstruction::Move(PositionMM::new([100_000, 50_000])),
        PlotterInstruction::Move(PositionMM::new([0, 50_000])),
        PlotterInstruction::PenUp,
    ];
    PlotterProgram::from_instructions(ins).expect("program")
}

fn move_xy(ins: &PlotterInstruction) -> [i64; 2] {
    match ins {
        PlotterInstruction::Move(p) => p.iter(),
        _ => panic!("expected a move"),
    }
}

#[test]
fn limits_are_the_tight_bounding_box() {
    let p = square_program();
    assert_eq!(p.x_limits.val, [0, 100_000]);
    assert_eq!(p.y_limits.val, [0, 50_000]);
    assert_eq!(p.len(), 6);
}

#[test]
fn program_needs_a_move() {
    let ins = vec![PlotterInstruction::PenUp, PlotterInstruction::PenDown];
    assert_eq!(PlotterProgram::from_instructions(ins).unwrap_err(),
        "No value for axis limit");
}

#[test]
fn cursor_walks_then_exhausts() {
    let mut p = square_program();
    assert_eq!(p.current_position(), 0);
    let mut seen: usize = 0;
    while let Some(_ins) = p.advance() {
        seen += 1;
        assert_eq!(p.current_position(), seen);
    }
    assert_eq!(seen, 6);
    assert!(p.advance().is_none());
    assert_eq!(p.current_position(), 6);
    p.reset();
    assert_eq!(p.current_position(), 0);
    assert!(p.advance().is_some());
}

#[test]
fn scale_axis_lands_exactly_on_the_target() {
    let mut p = square_program();
    p.scale_axis(&AxisLimit::new([10_000, 210_000]), &Axis::X).expect("scale");
    assert_eq!(p.x_limits.val, [10_000, 210_000]);
    assert_eq!(p.y_limits.val, [0, 50_000]);
    // interior coordinates map affinely: 100 -> 210, 0 -> 10
    assert_eq!(move_xy(&p.instructions[1]), [10_000, 0]);
    assert_eq!(move_xy(&p.instructions[2]), [210_000, 0]);
}

#[test]
fn scale_axis_twice_changes_nothing() {
    let mut p = square_program();
    let target = AxisLimit::new([10_000, 210_000]);
    p.scale_axis(&target, &Axis::X).expect("scale");
    let once: Vec<[i64; 2]> = (1..5).map(|i| move_xy(&p.instructions[i])).collect();
    p.scale_axis(&target, &Axis::X).expect("scale again");
    let twice: Vec<[i64; 2]> = (1..5).map(|i| move_xy(&p.instructions[i])).collect();
    assert_eq!(once, twice);
    assert_eq!(p.x_limits.val, [10_000, 210_000]);
}

#[test]
fn scale_axis_refuses_a_degenerate_axis() {
    let ins = vec![
        PlotterInstruction::Move(PositionMM::new([7_000, 0])),
        PlotterInstruction::Move(PositionMM::new([7_000, 50_000])),
    ];
    let mut p = PlotterProgram::from_instructions(ins).expect("program");
    assert_eq!(p.scale_axis(&AxisLimit::new([0, 100]), &Axis::X).unwrap_err(), "Scale failed");
}

#[test]
fn scale_keep_aspect_fits_and_centres() {
    // bounds x [0,100], y [0,50]; targets both [0,200]: scale by 2,
    // x becomes [0,200], y becomes [50,150] (centred)
    let mut p = square_program();
    p.scale_keep_aspect(&AxisLimit::new([0, 200_000]), &AxisLimit::new([0, 200_000]))
        .expect("scale");
    assert_eq!(p.x_limits.val, [0, 200_000]);
    assert_eq!(p.y_limits.val, [50_000, 150_000]);
    assert_eq!(move_xy(&p.instructions[2]), [200_000, 50_000]);
    assert_eq!(move_xy(&p.instructions[3]), [200_000, 150_000]);
}

#[test]
fn scale_keep_aspect_preserves_the_extent_ratio() {
    let mut p = square_program();
    let ex = p.x_limits.val[1] - p.x_limits.val[0];
    let ey = p.y_limits.val[1] - p.y_limits.val[0];
    p.scale_keep_aspect(&AxisLimit::new([0, 150_000]), &AxisLimit::new([20_000, 120_000]))
        .expect("scale");
    let nx = p.x_limits.val[1] - p.x_limits.val[0];
    let ny = p.y_limits.val[1] - p.y_limits.val[0];
    // cross-multiplied ratio equal to within one unit of rounding per axis
    assert!((nx * ey - ny * ex).abs() <= ex.max(ey),
        "ratio drifted: {}:{} vs {}:{}", nx, ny, ex, ey);
}

#[test]
fn center_keep_aspect_translates_only() {
    let mut p = square_program();
    p.center_keep_aspect(&AxisLimit::new([0, 200_000]), &AxisLimit::new([0, 200_000]))
        .expect("center");
    assert_eq!(p.x_limits.val, [50_000, 150_000]);
    assert_eq!(p.y_limits.val, [75_000, 125_000]);
}

#[test]
fn center_keep_aspect_accepts_an_exact_fit() {
    // zero margin on both axes: the centring offset is zero and the call
    // still succeeds
    let mut p = square_program();
    p.center_keep_aspect(&AxisLimit::new([0, 100_000]), &AxisLimit::new([0, 50_000]))
        .expect("center");
    assert_eq!(p.x_limits.val, [0, 100_000]);
    assert_eq!(p.y_limits.val, [0, 50_000]);
}

#[test]
fn center_keep_aspect_refuses_a_larger_program() {
    let mut p = square_program();
    assert_eq!(p.center_keep_aspect(&AxisLimit::new([0, 50_000]),
        &AxisLimit::new([0, 200_000])).unwrap_err(), "Too large to center");
}

#[test]
fn within_limits_accepts_a_fitting_paper() {
    let p = square_program();
    assert!(p.within_limits(&[AxisLimit::new([-1_000, 101_000]),
        AxisLimit::new([-1_000, 51_000])]));
    assert!(!p.within_limits(&[AxisLimit::new([10_000, 101_000]),
        AxisLimit::new([-1_000, 51_000])]));
}

#[test]
fn gcode_carry_forward() {
    // a single-axis move reuses the last known value of the other axis
    let text = b"G0 X10 Y20\nG1 X15\nG1 Y25\n";
    let p = PlotterProgram::from_gcode(text).expect("parse");
    assert_eq!(p.len(), 3);
    assert_eq!(move_xy(&p.instructions[0]), [10_000, 20_000]);
    assert_eq!(move_xy(&p.instructions[1]), [15_000, 20_000]);
    assert_eq!(move_xy(&p.instructions[2]), [15_000, 25_000]);
}

#[test]
fn gcode_decimals_become_micrometres() {
    let p = PlotterProgram::from_gcode(b"G1 X10.5 Y-2.125\nG1 X1 Y1\n").expect("parse");
    assert_eq!(move_xy(&p.instructions[0]), [10_500, -2_125]);
}

#[test]
fn gcode_pen_words() {
    let p = PlotterProgram::from_gcode(b"G0 Z1\nG0 X5 Y5\nG0 Z0\n").expect("parse");
    assert!(matches!(p.instructions[0], PlotterInstruction::PenUp));
    assert!(matches!(p.instructions[2], PlotterInstruction::PenDown));
}

#[test]
fn gcode_modal_words_become_comments() {
    let p = PlotterProgram::from_gcode(b"G21\nG90\nG28\nG0 X5 Y5\n").expect("parse");
    match &p.instructions[0] {
        PlotterInstruction::Comment(c) => assert_eq!(c, "Use mm"),
        _ => panic!("expected a comment"),
    }
    match &p.instructions[1] {
        PlotterInstruction::Comment(c) => assert_eq!(c, "Absolute distance"),
        _ => panic!("expected a comment"),
    }
    match &p.instructions[2] {
        PlotterInstruction::Comment(c) => assert_eq!(c, "Auto homing"),
        _ => panic!("expected a comment"),
    }
}

#[test]
fn gcode_feed_only_move_is_a_comment() {
    let p = PlotterProgram::from_gcode(b"G1 F1500\nG1 X5 Y5\n").expect("parse");
    match &p.instructions[0] {
        PlotterInstruction::Comment(c) => assert_eq!(c, "feed 1500"),
        _ => panic!("expected a comment"),
    }
}

#[test]
fn gcode_feed_with_a_fraction() {
    let p = PlotterProgram::from_gcode(b"G1 F1500.5\nG1 X5 Y5\n").expect("parse");
    match &p.instructions[0] {
        PlotterInstruction::Comment(c) => assert_eq!(c, "feed 1500.500"),
        _ => panic!("expected a comment"),
    }
}

#[test]
fn gcode_parenthesised_comment() {
    let p = PlotterProgram::from_gcode(b"(hello plotter)\nG1 X5 Y5\n").expect("parse");
    match &p.instructions[0] {
        PlotterInstruction::Comment(c) => assert_eq!(c, "hello plotter"),
        _ => panic!("expected a comment"),
    }
}

#[test]
fn gcode_rejects_three_dimensional_moves() {
    assert_eq!(PlotterProgram::from_gcode(b"G1 X5 Y5 Z1\n").unwrap_err(),
        "Did not expect a 3D move");
}

#[test]
fn gcode_rejects_negative_z() {
    assert_eq!(PlotterProgram::from_gcode(b"G1 Z-1\n").unwrap_err(),
        "Did not expect negative z value");
}

#[test]
fn gcode_rejects_a_leading_single_axis_move() {
    assert_eq!(PlotterProgram::from_gcode(b"G1 X5\n").unwrap_err(),
        "Expecting to not start with a single axis move");
}

#[test]
fn gcode_rejects_unknown_words() {
    assert_eq!(PlotterProgram::from_gcode(b"M104 S0\n").unwrap_err(), "unrecognized letter");
    assert_eq!(PlotterProgram::from_gcode(b"G2 X5 Y5\n").unwrap_err(), "unrecognized G-code");
}

#[test]
fn gcode_last_line_without_newline() {
    let p = PlotterProgram::from_gcode(b"G0 X1 Y2\nG1 X3").expect("parse");
    assert_eq!(p.len(), 2);
    assert_eq!(move_xy(&p.instructions[1]), [3_000, 2_000]);
}
