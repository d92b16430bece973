//! The types of the FMI 3.0 C interface.
#![allow(non_camel_case_types)]

use vstd::prelude::*;

use crate::text::owned;

verus! {

/// The status that an FMI 3 function returns.
#[derive(Debug, PartialEq, Eq, Structural, Clone, Copy, Hash)]
pub enum fmi3Status {
    fmi3OK,
    fmi3Warning,
    fmi3Discard,
    fmi3Error,
    fmi3Fatal,
}

impl fmi3Status {
    /// The name of the variant, as `{:?}` writes it.
    pub open spec fn spec_debug_name(self) -> Seq<char> {
        match self {
            fmi3Status::fmi3OK => "fmi3OK"@,
            fmi3Status::fmi3Warning => "fmi3Warning"@,
            fmi3Status::fmi3Discard => "fmi3Discard"@,
            fmi3Status::fmi3Error => "fmi3Error"@,
            fmi3Status::fmi3Fatal => "fmi3Fatal"@,
        }
    }

    /// The name of the variant, as `{:?}` writes it.
    pub fn debug_name(&self) -> (res: String)
        ensures
            res@ == self.spec_debug_name(),
    {
        match self {
            fmi3Status::fmi3OK => owned("fmi3OK"),
            fmi3Status::fmi3Warning => owned("fmi3Warning"),
            fmi3Status::fmi3Discard => owned("fmi3Discard"),
            fmi3Status::fmi3Error => owned("fmi3Error"),
            fmi3Status::fmi3Fatal => owned("fmi3Fatal"),
        }
    }
}

} // verus!
