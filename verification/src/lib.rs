//! Motion-control core for a two-motor cable-driven ("polargraph") pen
//! plotter.
//!
//! Two stepper motors at fixed anchor points pull cables attached to a pen
//! carriage; coordinating the two cable lengths moves the pen in the plane.
//! The library translates pen-movement commands (move to a point, raise or
//! lower the pen) into a precisely timed sequence of stepper impulses that
//! realizes smooth, jerk-limited motion along straight-line segments.
//!
//! All quantities are held in fixed-point integer units so that every
//! computation can be specified and verified exactly: positions in
//! micrometres, the scalar displacement profile in nanometres, time in
//! nanoseconds, velocities in nanometres per second.

pub mod controller;
pub mod gcode;
pub mod motor;
pub mod num;
pub mod physical;
pub mod predictor;
pub mod position;
pub mod scurve;
