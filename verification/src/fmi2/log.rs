//! Logging of an FMU's calls and messages: the `Logger` interface and the text of a
//! logged message.
use vstd::prelude::*;

use crate::fmi2::types::fmi2Status;
use crate::text::{is_white_space, is_white_space_char, owned, push_str, string_from_chars, chars_of};

verus! {

/// Where the calls of an FMU and the messages it sends are written.
pub trait Logger {
    /// Logs a call of the FMU that returned `status`.
    fn log_call(&self, status: fmi2Status, message: &str);

    /// Logs a message that the FMU sent with `status` in `category`.
    fn log_message(&self, status: fmi2Status, category: &str, message: &str);
}

/// The prefix that marks a message of this status.
pub open spec fn spec_message_prefix(status: fmi2Status) -> Seq<char> {
    match status {
        fmi2Status::fmi2OK => "[INFO]"@,
        fmi2Status::fmi2Warning => "[WARNING]"@,
        fmi2Status::fmi2Error => "[ERROR]"@,
        fmi2Status::fmi2Discard => "[DISCARD]"@,
        fmi2Status::fmi2Fatal => "[FATAL]"@,
        fmi2Status::fmi2Pending => "[PENDING]"@,
    }
}

/// The prefix that marks a message of this status.
pub fn message_prefix(status: fmi2Status) -> (res: &'static str)
    ensures
        res@ == spec_message_prefix(status),
{
    match status {
        fmi2Status::fmi2OK => "[INFO]",
        fmi2Status::fmi2Warning => "[WARNING]",
        fmi2Status::fmi2Error => "[ERROR]",
        fmi2Status::fmi2Discard => "[DISCARD]",
        fmi2Status::fmi2Fatal => "[FATAL]",
        fmi2Status::fmi2Pending => "[PENDING]",
    }
}

/// `s` without its trailing white space (`str::trim_end`).
pub open spec fn trim_end(s: Seq<char>) -> Seq<char>
    decreases s.len(),
{
    if s.len() > 0 && is_white_space(s.last()) {
        trim_end(s.drop_last())
    } else {
        s
    }
}

/// `s` without its trailing white space.
pub fn trimmed_end(s: &str) -> (res: String)
    ensures
        res@ == trim_end(s@),
{
    let cs = chars_of(s);
    let mut n: usize = cs.len();
    proof {
        assert(cs@.take(n as int) =~= cs@);
    }
    while n > 0 && is_white_space_char(cs[n - 1])
        invariant
            n <= cs@.len(),
            cs@ == s@,
            trim_end(cs@.take(n as int)) == trim_end(s@),
        decreases n,
    {
        proof {
            assert(cs@.take(n as int).drop_last() =~= cs@.take(n - 1));
        }
        n = n - 1;
    }
    proof {
        if n == 0 {
            assert(cs@.take(0) =~= Seq::<char>::empty());
        }
    }
    string_from_chars(&cs.as_slice()[0..n])
}

/// The line that logs a message: `"{prefix} [{category}] {message}"`, the message
/// without its trailing white space.
pub open spec fn spec_message_line(status: fmi2Status, category: Seq<char>, message: Seq<char>) -> Seq<
    char,
> {
    spec_message_prefix(status) + " ["@ + category + "] "@ + trim_end(message)
}

/// The line that logs a message sent with `status` in `category`.
pub fn message_line(status: fmi2Status, category: &str, message: &str) -> (res: String)
    ensures
        res@ == spec_message_line(status, category@, message@),
{
    let mut line = owned(message_prefix(status));
    push_str(&mut line, " [");
    push_str(&mut line, category);
    push_str(&mut line, "] ");
    let m = trimmed_end(message);
    push_str(&mut line, m.as_str());
    line
}

} // verus!
