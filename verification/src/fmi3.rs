//! The FMI 3.0 interface types and the records of an FMU's calls and messages.
pub mod types;

use vstd::prelude::*;

use crate::fmi3::types::fmi3Status;

verus! {

/// A call of an FMU: the status it returned and how it was logged.
#[derive(Debug)]
pub struct Call {
    pub status: fmi3Status,
    pub message: String,
}

/// A message that an FMU sent.
#[derive(Debug)]
pub struct Message {
    pub status: fmi3Status,
    pub category: String,
    pub message: String,
}

} // verus!
