//! The ways in which configuring, fitting and persisting a calibration fail.

use vstd::prelude::*;

verus! {

/// A configuration that the engine refuses to start with.
#[derive(Clone, Copy, Debug, PartialEq, Eq, Structural)]
pub enum ConfigurationError {
    /// The gyroscope warm-up window, or the batch per orientation, is not at
    /// least one sample long.
    NonPositiveSampleCount,
    /// The reference gravity is not above zero.
    NonPositiveGravity,
}

impl ConfigurationError {
    pub fn message(&self) -> (s: String)
        ensures
            *self == ConfigurationError::NonPositiveSampleCount ==> s@
                == "the number of samples must be at least one"@,
            *self == ConfigurationError::NonPositiveGravity ==> s@
                == "the reference gravity must be above zero"@,
    {
        match self {
            ConfigurationError::NonPositiveSampleCount => {
                "the number of samples must be at least one".to_string()
            },
            ConfigurationError::NonPositiveGravity => {
                "the reference gravity must be above zero".to_string()
            },
        }
    }
}

/// A fit of the accelerometer correction that cannot be used.
#[derive(Clone, Copy, Debug, PartialEq, Eq, Structural)]
pub enum CalibrationError {
    /// Fewer orientations were supplied than the correction has unknowns.
    InsufficientOrientations,
    /// The fit did not converge, or its matrix is close to singular.
    NonConvergent,
}

impl CalibrationError {
    pub fn message(&self) -> (s: String)
        ensures
            *self == CalibrationError::InsufficientOrientations ==> s@
                == "too few orientations for the accelerometer fit"@,
            *self == CalibrationError::NonConvergent ==> s@
                == "the accelerometer fit did not converge"@,
    {
        match self {
            CalibrationError::InsufficientOrientations => {
                "too few orientations for the accelerometer fit".to_string()
            },
            CalibrationError::NonConvergent => "the accelerometer fit did not converge".to_string(),
        }
    }
}

/// A calibration text that could not be had or used.
#[derive(Clone, Copy, Debug, PartialEq, Eq, Structural)]
pub enum PersistenceError {
    /// No text was available.
    Unavailable,
    /// The text does not follow the layout of a calibration.
    Malformed,
    /// The text follows the layout, but the model it holds breaks an invariant.
    InvalidModel,
}

impl PersistenceError {
    pub fn message(&self) -> (s: String)
        ensures
            *self == PersistenceError::Unavailable ==> s@
                == "the calibration could not be read or written"@,
            *self == PersistenceError::Malformed ==> s@ == "the calibration text is malformed"@,
            *self == PersistenceError::InvalidModel ==> s@
                == "the calibration text holds an invalid model"@,
    {
        match self {
            PersistenceError::Unavailable => {
                "the calibration could not be read or written".to_string()
            },
            PersistenceError::Malformed => "the calibration text is malformed".to_string(),
            PersistenceError::InvalidModel => {
                "the calibration text holds an invalid model".to_string()
            },
        }
    }
}

} // verus!
