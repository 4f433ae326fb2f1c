//! Geometry builder for rendering one vehicle sprite per simulation frame.
//!
//! All distances are exact fixed-point integers in thousandths of a
//! length-unit (a "milliunit"), so every computation here is deterministic
//! and free of floating point. A vehicle's centerline path comes in as a
//! polyline of such points; the library produces the body polygon (a
//! thick-line sweep plus a tapered nose), the optional decorations (turn
//! arrow, brake light, parked icon, label), and the colors for each, and
//! answers hit-testing and outline queries on the result.

pub mod abtest;
pub mod color;
pub mod cutscene;
pub mod geometry;
pub mod laws;
pub mod num;
pub mod path;
pub mod sprite;
