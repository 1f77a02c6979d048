use eveline::controller::{DEFAULT_MAX_ACCELERATION, DEFAULT_MAX_JERK, MoveStatus};
use eveline::physical::Physical;
use eveline::position::PositionMM;
use eveline::scurve::SCurveSolver;

fn default_solver() -> SCurveSolver {
    let p = Physical::new();
    SCurveSolver::new(&p, DEFAULT_MAX_ACCELERATION, DEFAULT_MAX_JERK).expect("solver")
}

#[test]
fn solver_defaults() {
    let s = default_solver();
    // acceleration-limited jerk phase: m_a / m_j = 10 us
    assert_eq!(s.t_j0, 10_000);
    // the acceleration phase covers the rest of the velocity: about 490 us
    assert!(s.t_v1 > 480_000 && s.t_v1 < 500_000, "t_v1 = {}", s.t_v1);
    assert!(s.min_dist_truncated_max_acceleration <= s.min_dist_truncated_coast);
}

#[test]
fn one_millimetre_segment_reaches_its_end() {
    let s = default_solver();
    let start = PositionMM::new([100_000, 200_000]);
    let end = PositionMM::new([101_000, 200_000]);
    let c = s.solve_curve(start, end).expect("solvable");
    // 1 mm = 1_000_000 nm, endpoint within one part in a million plus 4 nm
    assert_eq!(c.len, 1_000_000);
    assert!((c.p[6] - c.len).abs() <= c.len / 1_000_000 + 4,
        "endpoint {} vs length {}", c.p[6], c.len);
    // with the default limits this is a full curve with a coast
    assert!(c.t_c3 > 0);
    assert_eq!(c.t_j0, s.t_j0);
    assert_eq!(c.t_v1, s.t_v1);
}

#[test]
fn long_segment_profile() {
    let s = default_solver();
    let start = PositionMM::new([50_000, 200_000]);
    let end = PositionMM::new([250_000, 200_000]);
    let c = s.solve_curve(start, end).expect("solvable");
    assert_eq!(c.len, 200_000_000);
    assert!(c.t_c3 > 0);
    // total time is 4 t_j0 + 2 t_v1 + t_c3
    assert_eq!(c.t[6], 4 * c.t_j0 + 2 * c.t_v1 + c.t_c3);
    // peak velocity within rounding of the machine ceiling
    let p = Physical::new();
    assert!((c.v2 - p.max_velocity).abs() <= 2, "peak {} ceiling {}", c.v2, p.max_velocity);
    assert!((c.p[6] - c.len).abs() <= c.len / 1_000_000 + 4);
}

#[test]
fn boundary_times_accumulate() {
    let s = default_solver();
    let c = s.solve_curve(PositionMM::new([100_000, 200_000]),
        PositionMM::new([150_000, 150_000])).expect("solvable");
    assert_eq!(c.t[0], c.t_j0);
    assert_eq!(c.t[1], c.t[0] + c.t_v1);
    assert_eq!(c.t[2], c.t[1] + c.t_j0);
    assert_eq!(c.t[3], c.t[2] + c.t_c3);
    assert_eq!(c.t[4], c.t[3] + c.t_j0);
    assert_eq!(c.t[5], c.t[4] + c.t_v1);
    assert_eq!(c.t[6], c.t[5] + c.t_j0);
}

#[test]
fn move_status_flips_at_total_time() {
    let s = default_solver();
    let c = s.solve_curve(PositionMM::new([100_000, 200_000]),
        PositionMM::new([101_000, 200_000])).expect("solvable");
    assert!(matches!(c.get_move_status(0), MoveStatus::Moving));
    assert!(matches!(c.get_move_status(c.t[6] - 1), MoveStatus::Moving));
    assert!(matches!(c.get_move_status(c.t[6]), MoveStatus::Stopped));
}

#[test]
fn desired_steps_follow_the_segment() {
    // a +x move lengthens the left cable monotonically
    let s = default_solver();
    let p = Physical::new();
    let start = PositionMM::new([100_000, 200_000]);
    let end = PositionMM::new([110_000, 200_000]);
    let c = s.solve_curve(start, end).expect("solvable");
    let target = p.get_motor_dist_fine(&end);
    let mut prev = c.get_desired(&s, &p, 0).iter()[0];
    let mut t: i64 = 0;
    while t < c.t[6] {
        let d = c.get_desired(&s, &p, t).iter()[0];
        assert!(d >= prev, "left cable shrank from {} to {} at {} ns", prev, d, t);
        prev = d;
        t += c.t[6] / 97 + 1;
    }
    let at_end = c.get_desired(&s, &p, c.t[6]).iter();
    // within a step of the target at the end
    assert!((at_end[0] - target.iter()[0]).abs() <= 1_000_000);
    assert!((at_end[1] - target.iter()[1]).abs() <= 1_000_000);
}

#[test]
fn profile_starts_at_the_start_point() {
    let s = default_solver();
    let p = Physical::new();
    let start = PositionMM::new([100_000, 200_000]);
    let c = s.solve_curve(start, PositionMM::new([120_000, 210_000])).expect("solvable");
    let d0 = c.get_desired(&s, &p, 0).iter();
    let here = p.get_motor_dist_fine(&start).iter();
    assert!((d0[0] - here[0]).abs() <= 1_000_000);
    assert!((d0[1] - here[1]).abs() <= 1_000_000);
}

#[test]
fn short_segment_drops_middle_phases() {
    // a gentle jerk ceiling makes the short regime reachable at real sizes
    let p = Physical::new();
    let s = SCurveSolver::new(&p, DEFAULT_MAX_ACCELERATION, 21_000_000_000_000).expect("solver");
    assert!(s.min_dist_truncated_max_acceleration > 4_000,
        "short-regime threshold {}", s.min_dist_truncated_max_acceleration);
    // a 3 um segment is below the threshold: only the four jerk ramps remain
    let start = PositionMM::new([100_000, 200_000]);
    let end = PositionMM::new([100_003, 200_000]);
    let c = s.solve_curve(start, end).expect("solvable");
    assert_eq!(c.len, 3_000);
    assert_eq!(c.t_v1, 0);
    assert_eq!(c.t_c3, 0);
    assert!((c.p[6] - c.len).abs() <= c.len / 1_000_000 + 4);
}

#[test]
fn middle_regime_solves_the_acceleration_phase() {
    // with the default limits a 1 um segment falls between the two
    // thresholds: no coast, a freshly solved acceleration time
    let s = default_solver();
    assert!(s.min_dist_truncated_max_acceleration < 1_000);
    assert!(s.min_dist_truncated_coast > 1_000);
    let c = s.solve_curve(PositionMM::new([100_000, 200_000]),
        PositionMM::new([100_001, 200_000])).expect("solvable");
    assert_eq!(c.t_c3, 0);
    assert_eq!(c.t_j0, s.t_j0);
    assert!(c.t_v1 > 0);
    assert!(c.t_v1 != s.t_v1);
    assert!((c.p[6] - c.len).abs() <= c.len / 1_000_000 + 4);
}

#[test]
fn zero_length_segment_is_refused() {
    let s = default_solver();
    let start = PositionMM::new([100_000, 200_000]);
    assert!(s.solve_curve(start, start).is_err());
}
