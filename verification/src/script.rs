//! A script run before the logfiles are searched (a prescript) or after (a postscript). The
//! process work is the caller's; this module says what is run and what its outcome means.
use vstd::prelude::*;

use crate::text::{decimal, u64_to_decimal};

verus! {

/// A script: a command with its arguments.
#[derive(Debug, Clone)]
pub struct Script {
    /// The command, then its arguments.
    pub command: Vec<String>,
    /// Milliseconds to wait after starting it.
    pub timeout: u64,
    /// When set, the script is not waited for.
    pub async_flag: bool,
    /// When set, a script which fails stops the run with an unknown state.
    pub exit_on_error: bool,
}

/// How a started script turned out, as the system tells it once its timeout is over.
#[derive(Debug, Clone, Copy, PartialEq, Eq, Structural)]
pub enum ScriptStatus {
    /// It exited, successfully or not.
    Exited { success: bool },
    /// It is still running.
    Running,
    /// Its status could not be fetched.
    Failed,
}

/// What the run does after starting a script.
#[derive(Debug, Clone, Copy, PartialEq, Eq, Structural)]
pub enum ScriptOutcome {
    /// The run goes on.
    Continue,
    /// The script is killed, and the run stops with an unknown state.
    KillAndExitUnknown,
    /// The run stops with an unknown state.
    ExitUnknown,
}

impl Script {
    /// Default wait after starting a script, in milliseconds.
    pub fn default_timeout() -> (r: u64)
        ensures
            r == 10,
    {
        10
    }

    /// The program to run.
    pub fn program(&self) -> (r: &String)
        requires
            self.command@.len() > 0,
        ensures
            *r == self.command@[0],
    {
        &self.command[0]
    }

    /// The arguments of the program.
    pub fn arguments(&self) -> (r: &[String])
        requires
            self.command@.len() > 0,
        ensures
            r@ == self.command@.skip(1),
    {
        let s = self.command.as_slice();
        let (_, rest) = s.split_at(1);
        rest
    }

    /// Whether the caller waits `timeout` milliseconds after starting the script.
    pub fn waits(&self) -> (r: bool)
        ensures
            r == (self.timeout != 0),
    {
        self.timeout != 0
    }

    /// What the run does after starting the script: an asynchronous script is not waited for;
    /// otherwise a script still running is killed and a script whose status cannot be fetched
    /// stops the run, as does a failed one with `exit_on_error`.
    pub fn outcome(&self, status: ScriptStatus) -> (r: ScriptOutcome)
        ensures
            self.async_flag ==> r == ScriptOutcome::Continue,
            !self.async_flag ==> r == match status {
                ScriptStatus::Exited { success } => if !success && self.exit_on_error {
                    ScriptOutcome::ExitUnknown
                } else {
                    ScriptOutcome::Continue
                },
                ScriptStatus::Running => ScriptOutcome::KillAndExitUnknown,
                ScriptStatus::Failed => ScriptOutcome::ExitUnknown,
            },
    {
        if self.async_flag {
            return ScriptOutcome::Continue;
        }
        match status {
            ScriptStatus::Exited { success } => if !success && self.exit_on_error {
                ScriptOutcome::ExitUnknown
            } else {
                ScriptOutcome::Continue
            },
            ScriptStatus::Running => ScriptOutcome::KillAndExitUnknown,
            ScriptStatus::Failed => ScriptOutcome::ExitUnknown,
        }
    }

    /// Appends the pids of the prescripts to the arguments of a postscript, in decimal.
    pub fn append_pids(&mut self, pids: &[u32])
        ensures
            final(self).command@.len() == old(self).command@.len() + pids@.len(),
            forall|i: int| 0 <= i < old(self).command@.len() ==> #[trigger] final(self).command@[i] == old(self).command@[i],
            forall|i: int| 0 <= i < pids@.len() ==> (#[trigger] final(self).command@[old(self).command@.len() + i])@ == decimal(pids@[i] as nat),
            final(self).timeout == old(self).timeout,
            final(self).async_flag == old(self).async_flag,
            final(self).exit_on_error == old(self).exit_on_error,
    {
        let mut i: usize = 0;
        let n0 = self.command.len();
        while i < pids.len()
            invariant
                i <= pids@.len(),
                n0 == old(self).command@.len(),
                self.command@.len() == n0 + i,
                forall|k: int| 0 <= k < n0 ==> #[trigger] self.command@[k] == old(self).command@[k],
                forall|k: int| 0 <= k < i ==> (#[trigger] self.command@[n0 + k])@ == decimal(pids@[k] as nat),
                self.timeout == old(self).timeout,
                self.async_flag == old(self).async_flag,
                self.exit_on_error == old(self).exit_on_error,
            decreases pids@.len() - i,
        {
            self.command.push(u64_to_decimal(pids[i] as u64));
            i = i + 1;
        }
    }
}

} // verus!
