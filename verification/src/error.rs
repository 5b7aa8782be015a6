//! The errors that a run and the loading of a configuration end with, and
//! the words in which each is reported.

use crate::outcome::{ExitStatus, RunOutcome, RunOutcomeSpec};
use crate::text::{signed_decimal, signed_decimal_string};
use vstd::prelude::*;
use vstd::string::*;

verus! {

/// The words for an exit status: the exit code where there is one.
pub open spec fn status_text(status: ExitStatus) -> Seq<char> {
    match status.code {
        Some(code) => "exit status: "@ + signed_decimal(code as int),
        None => "no exit status"@,
    }
}

impl ExitStatus {
    /// The status in words.
    pub fn describe(&self) -> (text: String)
        ensures
            text@ == status_text(*self),
    {
        match self.code {
            Some(code) => {
                let mut text = "exit status: ".to_owned();
                let digits = signed_decimal_string(code);
                text.append(digits.as_str());
                text
            },
            None => "no exit status".to_owned(),
        }
    }
}

/// Why the run of one process failed.
#[derive(Debug, PartialEq, Eq)]
pub enum WatchError {
    /// A child process could not be created or waited for; the text says why.
    IoChildProcess(String),
    /// A line could not be sent on, because the consumer of the lines is gone.
    SendError,
    /// The command that the process waits for ended with this status, which
    /// is no success, so the main command was not run.
    AwaitFor(ExitStatus),
    /// The main command ended with this status, which is no success.
    ExitFailed(ExitStatus),
}

/// Mathematical model of a `WatchError`.
pub enum WatchErrorSpec {
    IoChildProcess(Seq<char>),
    SendError,
    AwaitFor(ExitStatus),
    ExitFailed(ExitStatus),
}

impl View for WatchError {
    type V = WatchErrorSpec;

    open spec fn view(&self) -> WatchErrorSpec {
        match self {
            WatchError::IoChildProcess(cause) => WatchErrorSpec::IoChildProcess(cause@),
            WatchError::SendError => WatchErrorSpec::SendError,
            WatchError::AwaitFor(status) => WatchErrorSpec::AwaitFor(*status),
            WatchError::ExitFailed(status) => WatchErrorSpec::ExitFailed(*status),
        }
    }
}

impl WatchErrorSpec {
    /// The error in words.
    pub open spec fn message(self) -> Seq<char> {
        match self {
            WatchErrorSpec::IoChildProcess(cause) => "child process io error: "@ + cause,
            WatchErrorSpec::SendError => "send failed to parent"@,
            WatchErrorSpec::AwaitFor(status) => "await for failed with status: "@ + status_text(
                status,
            ) + ", cannot proceed to run command!"@,
            WatchErrorSpec::ExitFailed(status) => "command failed with status: "@ + status_text(
                status,
            ),
        }
    }
}

impl WatchError {
    /// The error in words.
    pub fn message(&self) -> (text: String)
        ensures
            text@ == self@.message(),
    {
        match self {
            WatchError::IoChildProcess(cause) => {
                let mut text = "child process io error: ".to_owned();
                text.append(cause.as_str());
                text
            },
            WatchError::SendError => "send failed to parent".to_owned(),
            WatchError::AwaitFor(status) => {
                let mut text = "await for failed with status: ".to_owned();
                let status = status.describe();
                text.append(status.as_str());
                text.append(", cannot proceed to run command!");
                text
            },
            WatchError::ExitFailed(status) => {
                let mut text = "command failed with status: ".to_owned();
                let status = status.describe();
                text.append(status.as_str());
                text
            },
        }
    }
}

impl RunOutcomeSpec {
    /// The outcome as a result: nothing on success, else the error that
    /// stands for the failure.
    pub open spec fn as_result(self) -> Result<(), WatchErrorSpec> {
        match self {
            RunOutcomeSpec::Success => Ok(()),
            RunOutcomeSpec::GateFailed(status) => Err(WatchErrorSpec::AwaitFor(status)),
            RunOutcomeSpec::SpawnFailed(cause) => Err(WatchErrorSpec::IoChildProcess(cause)),
            RunOutcomeSpec::ExitFailed(status) => Err(WatchErrorSpec::ExitFailed(status)),
            RunOutcomeSpec::ChannelClosed => Err(WatchErrorSpec::SendError),
        }
    }
}

/// The model of a result that holds a `WatchError`.
pub open spec fn result_view(result: Result<(), WatchError>) -> Result<(), WatchErrorSpec> {
    match result {
        Ok(()) => Ok(()),
        Err(error) => Err(error@),
    }
}

impl RunOutcome {
    /// The outcome as a result.
    pub fn to_result(&self) -> (result: Result<(), WatchError>)
        ensures
            result_view(result) == self@.as_result(),
    {
        match self {
            RunOutcome::Success => Ok(()),
            RunOutcome::GateFailed(status) => Err(WatchError::AwaitFor(*status)),
            RunOutcome::SpawnFailed(cause) => Err(WatchError::IoChildProcess(cause.clone())),
            RunOutcome::ExitFailed(status) => Err(WatchError::ExitFailed(*status)),
            RunOutcome::ChannelClosed => Err(WatchError::SendError),
        }
    }
}

/// Why no configuration could be loaded.
#[derive(Debug, PartialEq, Eq)]
pub enum ConfigError {
    /// The document is not a valid configuration; the text says why.
    Parse(String),
    /// Standard input was to hold the configuration and held nothing.
    Missing,
    /// The current directory could not be searched for its configuration file.
    NoRcFile,
    /// The configuration file could not be read; the text says why.
    Io(String),
}

/// Mathematical model of a `ConfigError`.
pub enum ConfigErrorSpec {
    Parse(Seq<char>),
    Missing,
    NoRcFile,
    Io(Seq<char>),
}

impl View for ConfigError {
    type V = ConfigErrorSpec;

    open spec fn view(&self) -> ConfigErrorSpec {
        match self {
            ConfigError::Parse(cause) => ConfigErrorSpec::Parse(cause@),
            ConfigError::Missing => ConfigErrorSpec::Missing,
            ConfigError::NoRcFile => ConfigErrorSpec::NoRcFile,
            ConfigError::Io(cause) => ConfigErrorSpec::Io(cause@),
        }
    }
}

impl ConfigErrorSpec {
    /// The error in words. The words do not repeat the cause.
    pub open spec fn message(self) -> Seq<char> {
        match self {
            ConfigErrorSpec::Parse(_) => "serde yaml"@,
            ConfigErrorSpec::Missing => "config file not provided stdin"@,
            ConfigErrorSpec::NoRcFile => "no .watchmuxrc.yaml file in current directory"@,
            ConfigErrorSpec::Io(_) => "io failed to read file from path"@,
        }
    }
}

impl ConfigError {
    /// The error in words.
    pub fn message(&self) -> (text: String)
        ensures
            text@ == self@.message(),
    {
        match self {
            ConfigError::Parse(_) => "serde yaml".to_owned(),
            ConfigError::Missing => "config file not provided stdin".to_owned(),
            ConfigError::NoRcFile => "no .watchmuxrc.yaml file in current directory".to_owned(),
            ConfigError::Io(_) => "io failed to read file from path".to_owned(),
        }
    }
}

} // verus!
