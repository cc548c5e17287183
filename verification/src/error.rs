//! The failures that end a run, each with its process exit code.

use vstd::prelude::*;
use vstd::string::*;
use crate::text::{decimal, decimal_digits};

verus! {

/// The kinds of failure. Each has a fixed exit code, see [`ErrorType::code`].
#[derive(Copy, Clone, Debug, PartialEq, Eq, Structural)]
pub enum ErrorType {
    NoScriptName,
    InvalidScriptName,
    ScriptFailed,
    ScriptFailedWithSignal,
    NoScriptInfo,
    NoToml,
}

impl ErrorType {
    /// The exit code of each kind.
    pub open spec fn spec_code(self) -> u8 {
        match self {
            ErrorType::NoScriptName => 1,
            ErrorType::InvalidScriptName => 2,
            ErrorType::ScriptFailed => 3,
            ErrorType::ScriptFailedWithSignal => 4,
            ErrorType::NoScriptInfo => 5,
            ErrorType::NoToml => 6,
        }
    }

    /// The exit code with which the process reports this kind of failure.
    #[verifier::when_used_as_spec(spec_code)]
    pub fn code(self) -> (r: u8)
        ensures
            r == self.spec_code(),
            1 <= r <= 6,
    {
        match self {
            ErrorType::NoScriptName => 1,
            ErrorType::InvalidScriptName => 2,
            ErrorType::ScriptFailed => 3,
            ErrorType::ScriptFailedWithSignal => 4,
            ErrorType::NoScriptInfo => 5,
            ErrorType::NoToml => 6,
        }
    }
}

/// A failure: its kind and a reason for the reader.
#[derive(Debug)]
pub struct Error {
    pub error_type: ErrorType,
    pub reason: String,
}

/// What a finished child process maps to: `None` for success, else the kind
/// of failure. `exit_code` is the child's exit code, absent where the child
/// ended without one (killed by a signal).
pub open spec fn exit_failure(exit_code: Option<i32>) -> Option<ErrorType> {
    match exit_code {
        Some(code) => if code == 0 {
            None
        } else {
            Some(ErrorType::ScriptFailed)
        },
        None => Some(ErrorType::ScriptFailedWithSignal),
    }
}

impl Error {
    /// A failure of kind `code` with the given reason.
    pub fn new(code: ErrorType, reason: &str) -> (r: Self)
        ensures
            r.error_type == code,
            r.reason@ == reason@,
    {
        Error { error_type: code, reason: String::from_str(reason) }
    }

    /// The failure to report when the manifest at `file_path` could not be
    /// read as text.
    pub fn unreadable(file_path: &str) -> (r: Self)
        ensures
            r.error_type == ErrorType::NoToml,
            r.reason@ == "Failed to read "@ + file_path@,
    {
        Error { error_type: ErrorType::NoToml, reason: String::from_str("Failed to read ").concat(file_path) }
    }

    /// Maps the way a child process ended to the outcome of the run.
    pub fn parse_exit_status(exit_code: Option<i32>) -> (r: Result<(), Self>)
        ensures
            exit_failure(exit_code) is None <==> r is Ok,
            r is Err ==> Some(r->Err_0.error_type) == exit_failure(exit_code),
            r is Err && exit_code is Some ==> r->Err_0.reason@ == "script failed"@,
            r is Err && exit_code is None ==> r->Err_0.reason@ == "exited with signal"@,
    {
        match exit_code {
            Some(code) => {
                if code == 0 {
                    Ok(())
                } else {
                    Err(Error::new(ErrorType::ScriptFailed, "script failed"))
                }
            },
            None => Err(Error::new(ErrorType::ScriptFailedWithSignal, "exited with signal")),
        }
    }

    /// The exit code with which the process reports this failure.
    pub fn exit_code(&self) -> (r: u8)
        ensures
            r == self.error_type.spec_code(),
    {
        self.error_type.code()
    }

    /// The line that reports this failure.
    pub open spec fn spec_message(&self) -> Seq<char> {
        "error ["@ + decimal_digits(self.error_type.spec_code() as nat) + "]: "@ + self.reason@
    }

    /// The line that reports this failure: `error [<code>]: <reason>`.
    pub fn message(&self) -> (r: String)
        ensures
            r@ == self.spec_message(),
    {
        let code: u8 = self.error_type.code();
        let number = decimal(code as usize);
        let r = String::from_str("error [").concat(number.as_str()).concat("]: ").concat(
            self.reason.as_str(),
        );
        r
    }
}

impl PartialEq for Error {
    /// Two failures are equal when they are of the same kind, whatever
    /// their reasons.
    fn eq(&self, other: &Self) -> (r: bool) {
        self.error_type.code() == other.error_type.code()
    }
}

impl vstd::std_specs::cmp::PartialEqSpecImpl for Error {
    open spec fn obeys_eq_spec() -> bool {
        true
    }

    open spec fn eq_spec(&self, other: &Self) -> bool {
        self.error_type.spec_code() == other.error_type.spec_code()
    }
}

} // verus!
