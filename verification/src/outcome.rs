//! How a child process ended, and how the run of one process ended.

use vstd::prelude::*;

verus! {

/// How a child process ended: with an exit code, or with none when it was
/// ended from outside (by a signal).
#[derive(Debug, Clone, Copy, PartialEq, Eq)]
pub struct ExitStatus {
    pub code: Option<i32>,
}

impl ExitStatus {
    /// A child succeeded when it exited with code 0.
    pub open spec fn is_success(self) -> bool {
        self.code == Some(0i32)
    }

    /// Whether the child succeeded.
    pub fn success(&self) -> (success: bool)
        ensures
            success == self.is_success(),
    {
        match self.code {
            Some(code) => code == 0,
            None => false,
        }
    }
}

/// The terminal result of running one process.
#[derive(Debug, PartialEq, Eq)]
pub enum RunOutcome {
    /// The main command ran and exited successfully.
    Success,
    /// The gating command ended with this status, which is no success; the
    /// main command was not started.
    GateFailed(ExitStatus),
    /// The operating system did not create a child process, or could not wait
    /// for it; the text says why.
    SpawnFailed(String),
    /// The main command ended with this status, which is no success.
    ExitFailed(ExitStatus),
    /// A line could not be delivered because the consumer of the lines is gone.
    ChannelClosed,
}

/// Mathematical model of a `RunOutcome`.
pub enum RunOutcomeSpec {
    Success,
    GateFailed(ExitStatus),
    SpawnFailed(Seq<char>),
    ExitFailed(ExitStatus),
    ChannelClosed,
}

impl View for RunOutcome {
    type V = RunOutcomeSpec;

    open spec fn view(&self) -> RunOutcomeSpec {
        match self {
            RunOutcome::Success => RunOutcomeSpec::Success,
            RunOutcome::GateFailed(status) => RunOutcomeSpec::GateFailed(*status),
            RunOutcome::SpawnFailed(cause) => RunOutcomeSpec::SpawnFailed(cause@),
            RunOutcome::ExitFailed(status) => RunOutcomeSpec::ExitFailed(*status),
            RunOutcome::ChannelClosed => RunOutcomeSpec::ChannelClosed,
        }
    }
}

impl DeepView for RunOutcome {
    type V = RunOutcomeSpec;

    open spec fn deep_view(&self) -> RunOutcomeSpec {
        self@
    }
}

impl RunOutcome {
    /// Whether the run succeeded.
    pub fn is_success(&self) -> (success: bool)
        ensures
            success == (self@ is Success),
    {
        match self {
            RunOutcome::Success => true,
            _ => false,
        }
    }
}

} // verus!
