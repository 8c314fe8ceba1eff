//! A two-dimensional gravity sandbox: bodies placed by pointer gestures
//! attract each other by Newton's law, merge inelastically when they meet,
//! and are culled once they drift far off screen.
//!
//! All quantities are integers: positions, velocities and radii in
//! sub-pixel units (`fixed::UNIT` to a pixel), masses as whole numbers, one
//! frame as the unit of time.

pub mod fixed;
pub mod body;
pub mod simulation;
pub mod input;
pub mod background;
pub mod laws;
