//! The outcome of a build step: how it concluded and what it printed.
use vstd::prelude::*;

use crate::text::concat;

verus! {

/// How a step of a command concluded.
#[allow(non_camel_case_types)]
#[derive(Clone, Copy, Debug, PartialEq, Eq, Structural)]
pub enum PartialConclusion {
    SUCCESS,
    FAILED,
    CACHED,
}

/// The outcome of a command: its name, its conclusion (none yet while it
/// runs), the exit status and what it wrote to its two streams.
#[derive(Clone, Debug)]
pub struct BuildkOutput {
    pub name: String,
    pub conclusion: Option<PartialConclusion>,
    pub status: i32,
    pub stdout: Option<String>,
    pub stderr: Option<String>,
}

impl BuildkOutput {
    /// A fresh outcome for the command `name`: not concluded, status 0 and
    /// nothing written.
    pub fn new(name: &str) -> (res: BuildkOutput)
        ensures
            res.name@ == name@,
            res.conclusion is None,
            res.status == 0,
            res.stdout is None,
            res.stderr is None,
    {
        BuildkOutput {
            name: crate::text::owned(name),
            conclusion: None,
            status: 0,
            stdout: None,
            stderr: None,
        }
    }

    /// Records how the command concluded.
    pub fn conclude(&mut self, conclusion: PartialConclusion)
        ensures
            *final(self) == (BuildkOutput { conclusion: Some(conclusion), ..*old(self) }),
    {
        self.conclusion = Some(conclusion);
    }

    /// Records the exit status.
    pub fn set_status(&mut self, status: i32)
        ensures
            *final(self) == (BuildkOutput { status, ..*old(self) }),
    {
        self.status = status;
    }

    /// Records what the command wrote to standard output.
    pub fn set_stdout(&mut self, stdout: String)
        ensures
            *final(self) == (BuildkOutput { stdout: Some(stdout), ..*old(self) }),
    {
        self.stdout = Some(stdout);
    }

    /// Records what the command wrote to standard error.
    pub fn set_stderr(&mut self, stderr: String)
        ensures
            *final(self) == (BuildkOutput { stderr: Some(stderr), ..*old(self) }),
    {
        self.stderr = Some(stderr);
    }

    /// Adds a line to what the command wrote to standard error.
    pub fn append_stderr(&mut self, err: String)
        ensures
            final(self).name == old(self).name,
            final(self).conclusion == old(self).conclusion,
            final(self).status == old(self).status,
            final(self).stdout == old(self).stdout,
            final(self).stderr matches Some(e) && e@ == match old(self).stderr {
                Some(prev) => prev@ + "\n"@ + err@,
                None => err@,
            },
    {
        let next = match &self.stderr {
            Some(prev) => {
                let with_newline = concat(prev.as_str(), "\n");
                concat(with_newline.as_str(), err.as_str())
            },
            None => err,
        };
        self.stderr = Some(next);
    }

    /// What the command wrote to standard error, if anything.
    pub fn get_stderr(&self) -> (res: Option<String>)
        ensures
            res == self.stderr,
    {
        match &self.stderr {
            Some(e) => Some(e.clone()),
            None => None,
        }
    }
}

} // verus!
