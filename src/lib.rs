//! Scoring of a single bowling round: at most two throws against ten pins,
//! each classified as a hit, spare, strike or miss, and a short display form.
pub mod laws;
pub mod round;
pub mod throw;

pub use round::{Round, RoundError, RoundState};
pub use throw::Throw;
