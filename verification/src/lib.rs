//! Reading, validating and checking FMI model descriptions (FMI 2.0 and 3.0), the
//! structured naming convention for variable names, and the plain-value parts of
//! simulating an FMU: the status of a call, and the values that start values and
//! inputs are written as.

pub mod fmi;
pub mod fmi2;
pub mod fmi3;
pub mod model_description;
pub mod sim;
pub mod text;
pub mod util;
pub mod xml;

use vstd::prelude::*;

verus! {

/// The sum of two numbers.
pub fn add(left: u64, right: u64) -> (res: u64)
    requires
        left + right <= u64::MAX,
    ensures
        res == left + right,
{
    left + right
}

/// The mode that an exported model is in.
#[derive(Debug, Clone, PartialEq, Eq, Structural, Copy)]
pub enum ModelMode {
    Instantiated,
    InitializationMode,
    EventMode,
    ContinuousTimeMode,
    StepMode,
    Terminated,
}

} // verus!
