//! The types of the FMI C interface.
#![allow(non_camel_case_types)]

use vstd::prelude::*;

use crate::text::owned;

verus! {

/// The value reference of a variable.
pub type fmiValueReference = u32;

/// The status that an FMI function returns.
#[derive(Debug, PartialEq, Eq, Structural, Clone, Copy, Hash)]
pub enum fmiStatus {
    fmiOK,
    fmiWarning,
    fmiDiscard,
    fmiError,
    fmiFatal,
}

impl fmiStatus {
    /// The name of the variant, as `{:?}` writes it.
    pub open spec fn spec_debug_name(self) -> Seq<char> {
        match self {
            fmiStatus::fmiOK => "fmiOK"@,
            fmiStatus::fmiWarning => "fmiWarning"@,
            fmiStatus::fmiDiscard => "fmiDiscard"@,
            fmiStatus::fmiError => "fmiError"@,
            fmiStatus::fmiFatal => "fmiFatal"@,
        }
    }

    /// The name of the variant, as `{:?}` writes it.
    pub fn debug_name(&self) -> (res: String)
        ensures
            res@ == self.spec_debug_name(),
    {
        match self {
            fmiStatus::fmiOK => owned("fmiOK"),
            fmiStatus::fmiWarning => owned("fmiWarning"),
            fmiStatus::fmiDiscard => owned("fmiDiscard"),
            fmiStatus::fmiError => owned("fmiError"),
            fmiStatus::fmiFatal => owned("fmiFatal"),
        }
    }
}

} // verus!
