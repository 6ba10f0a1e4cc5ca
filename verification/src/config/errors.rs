//! Errors that end the program with an exit code.
use vstd::prelude::*;

verus! {

/// An error of the command line tool: an optional message and the exit code.
#[derive(Clone, Debug)]
pub struct CliError {
    pub error: Option<String>,
    pub exit_code: i32,
}

impl CliError {
    /// An error with a message and an exit code.
    pub fn new(error: String, exit_code: i32) -> (res: CliError)
        ensures
            res.error == Some(error),
            res.exit_code == exit_code,
    {
        CliError { error: Some(error), exit_code }
    }

    /// An exit code without a message.
    pub fn code(exit_code: i32) -> (res: CliError)
        ensures
            res.error is None,
            res.exit_code == exit_code,
    {
        CliError { error: None, exit_code }
    }

    /// A failure of the tool itself: exit code 101.
    pub fn from_failure(error: String) -> (res: CliError)
        ensures
            res.error == Some(error),
            res.exit_code == 101,
    {
        CliError::new(error, 101)
    }

    /// An input/output failure: exit code 1.
    pub fn from_io(error: String) -> (res: CliError)
        ensures
            res.error == Some(error),
            res.exit_code == 1,
    {
        CliError::new(error, 1)
    }
}

} // verus!
