//! The types of the FMI 2.0 C interface.
#![allow(non_camel_case_types, non_upper_case_globals)]

use vstd::prelude::*;

use crate::text::owned;

verus! {

/// The value reference of an FMI 2 variable.
pub type fmi2ValueReference = u32;

/// An FMI 2 Integer.
pub type fmi2Integer = i32;

/// An FMI 2 Boolean: `fmi2True` or `fmi2False`.
pub type fmi2Boolean = i32;

/// The FMI 2 Boolean for true.
pub const fmi2True: fmi2Boolean = 1;

/// The FMI 2 Boolean for false.
pub const fmi2False: fmi2Boolean = 0;

/// The status that an FMI 2 function returns.
#[derive(Debug, PartialEq, Eq, Structural, Clone, Copy, Hash)]
pub enum fmi2Status {
    fmi2OK,
    fmi2Warning,
    fmi2Discard,
    fmi2Error,
    fmi2Fatal,
    fmi2Pending,
}

impl fmi2Status {
    /// The name of the variant, as `{:?}` writes it.
    pub open spec fn spec_debug_name(self) -> Seq<char> {
        match self {
            fmi2Status::fmi2OK => "fmi2OK"@,
            fmi2Status::fmi2Warning => "fmi2Warning"@,
            fmi2Status::fmi2Discard => "fmi2Discard"@,
            fmi2Status::fmi2Error => "fmi2Error"@,
            fmi2Status::fmi2Fatal => "fmi2Fatal"@,
            fmi2Status::fmi2Pending => "fmi2Pending"@,
        }
    }

    /// The name of the variant, as `{:?}` writes it.
    pub fn debug_name(&self) -> (res: String)
        ensures
            res@ == self.spec_debug_name(),
    {
        match self {
            fmi2Status::fmi2OK => owned("fmi2OK"),
            fmi2Status::fmi2Warning => owned("fmi2Warning"),
            fmi2Status::fmi2Discard => owned("fmi2Discard"),
            fmi2Status::fmi2Error => owned("fmi2Error"),
            fmi2Status::fmi2Fatal => owned("fmi2Fatal"),
            fmi2Status::fmi2Pending => owned("fmi2Pending"),
        }
    }
}

} // verus!
