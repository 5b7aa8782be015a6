//! Decision logic of a process multiplexer: how one configured process is
//! launched, how its output lines are tagged and forwarded, and how a whole run
//! is concluded. The host performs the operating-system work and reports what
//! happened; every decision in between is taken here.
//!
//! * `config`: what to run.
//! * `source`: where the configuration comes from.
//! * `line`, `reader`: one output line, and the reader that forwards the
//!   lines of one stream.
//! * `command`: the child processes that a description asks for.
//! * `runner`: the run of one process, step by step.
//! * `orchestrator`: the writer of the lines, and the outcome of a whole run.
//! * `flow`: readers, conduit and writer together, on paper.
//! * `outcome`, `error`: how things end, and the words for it.
//! * `text`: decimal numbers and splitting.

pub mod command;
pub mod config;
pub mod error;
pub mod flow;
pub mod line;
pub mod orchestrator;
pub mod outcome;
pub mod reader;
pub mod runner;
pub mod source;
pub mod text;
