//! Running tests in the simulator: the attribute that marks a test, and the runs that it stands
//! for.

pub mod attribute;
pub mod laws;
pub mod plan;
