//! The status of the calls made while simulating an FMU.
use vstd::prelude::*;

use crate::fmi::types::fmiStatus;
use crate::sim::fmi2::call_failed_message;
use crate::text::{owned, push_str};

verus! {

/// Passes on the status of a call that succeeded (`fmiOK` or `fmiWarning`); any
/// other status is an error.
pub fn call(status: fmiStatus) -> (res: Result<fmiStatus, String>)
    ensures
        match res {
            Ok(s) => s == status && (status == fmiStatus::fmiOK || status == fmiStatus::fmiWarning),
            Err(m) => status != fmiStatus::fmiOK && status != fmiStatus::fmiWarning && m@
                == call_failed_message(status.spec_debug_name()),
        },
{
    if status == fmiStatus::fmiOK || status == fmiStatus::fmiWarning {
        Ok(status)
    } else {
        let mut m = owned("FMI call failed with status: ");
        let name = status.debug_name();
        push_str(&mut m, name.as_str());
        Err(m)
    }
}

} // verus!
