//! The FMI 2.0 interface types and the logging of an FMU's calls and messages.
pub mod log;
pub mod types;
