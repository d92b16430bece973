//! The plain-value parts of simulating an FMU: the status of a call, and the values
//! that start values and inputs are written as.
pub mod fmi2;
pub mod fmi3;
