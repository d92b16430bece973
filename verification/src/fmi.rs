//! The first model-description reader, for FMUs of either major version, and the
//! status of a call.
pub mod model_description;
pub mod simulate;
pub mod types;
