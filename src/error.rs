use vstd::prelude::*;

verus! {

/// The typed failures of the analyses. Each is detected at the start of the
/// offending call and recurs deterministically on the same input.
#[derive(Clone, Copy, Debug, PartialEq, Eq, Structural)]
pub enum AnalysisError {
    /// A moving average was asked for with a period of zero.
    InvalidPeriod,
    /// The series is shorter than the slow window of the MACD.
    InsufficientData,
    /// The reference average volume is zero, so the volume ratio is undefined.
    DivisionByZero,
}

impl AnalysisError {
    /// A short human-readable description of the failure.
    pub fn message(&self) -> (r: &'static str) {
        match self {
            AnalysisError::InvalidPeriod => "period must be positive",
            AnalysisError::InsufficientData => "series too short for the MACD windows",
            AnalysisError::DivisionByZero => "average volume is zero",
        }
    }
}

} // verus!
