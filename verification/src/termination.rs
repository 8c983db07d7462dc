//! How a command-line program ends: its exit code, and what it says.

use vstd::prelude::*;

use crate::cancel::{error_is_cancelled, holds_cancellation, ErrorChain};
use crate::text;

verus! {

/// The result of a program.
#[derive(Debug, PartialEq, Eq)]
pub struct CliTermination {
    pub result: Result<i32, ErrorChain>,
}

/// The exit code of a program, and the error that it reports where there is
/// one.
#[derive(Clone, Debug, PartialEq, Eq)]
pub struct TerminationReport {
    pub code: u8,
    pub error: Option<String>,
}

impl CliTermination {
    /// The end of a program with a result.
    pub fn new(result: Result<i32, ErrorChain>) -> (r: CliTermination)
        ensures
            r.result == result,
    {
        CliTermination { result }
    }

    /// The exit code and the reported error. A code from 0 to 255 is passed on;
    /// an interrupt ends with 130 and says nothing; any other error, and a code
    /// that is out of range, is reported and ends with 1.
    pub fn report(self) -> (r: TerminationReport)
        ensures
            match self.result {
                Ok(code) => if 0 <= code <= 255 {
                    r.code == code && r.error is None
                } else {
                    r.code == 1 && text::opt(r.error) == Some(
                        "invalid command exit code "@ + text::signed_decimal(code as int),
                    )
                },
                Err(error) => if holds_cancellation(error.causes@) {
                    r.code == 130 && r.error is None
                } else {
                    r.code == 1 && text::opt(r.error) == Some(error.words())
                },
            },
    {
        match self.result {
            Ok(code) => if 0 <= code && code <= 255 {
                TerminationReport { code: code as u8, error: None }
            } else {
                let digits = text::decimal_i32(code);
                let error = "invalid command exit code ".to_owned().concat(digits.as_str());
                TerminationReport { code: 1, error: Some(error) }
            },
            Err(error) => if error_is_cancelled(&error) {
                TerminationReport { code: 130, error: None }
            } else {
                TerminationReport { code: 1, error: Some(error.message()) }
            },
        }
    }
}

} // verus!
