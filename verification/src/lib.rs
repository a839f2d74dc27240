//! Calibration engine for an inertial measurement unit.
//!
//! Every quantity is a fixed-point number that counts millionths of its unit
//! (rad/s, m/s², or a dimensionless gain), held in an `i32`.  Sums and
//! products are exact; quotients are rounded towards minus infinity; results
//! that leave the range of an `i32` stop at its ends.
//!
//! * [`gyro`] estimates the gyroscope bias from a stationary warm-up window.
//! * [`collector`] keeps one representative accelerometer reading for each
//!   orientation of the sensor.
//! * [`solver`] fits the accelerometer correction to those readings.
//! * [`model`] holds the calibration model and corrects raw samples with it.
//! * [`text`] writes a model as calibration text and reads it back.
//! * [`apply`] and [`calibrate`] run the two modes on a stream of samples.

pub mod apply;
pub mod calibrate;
pub mod collector;
pub mod error;
pub mod fixed;
pub mod gyro;
pub mod model;
pub mod solver;
pub mod stats;
pub mod text;
pub mod vector;
