use std::collections::VecDeque;

use watchmux::config::{Config, WatchProcess};
use watchmux::error::WatchError;
use watchmux::line::{Line, STDOUT_COLOR};
use watchmux::orchestrator::{
    drain, DrainAction, DrainEvent, DrainState, Failure, CONDUIT_CAPACITY,
};
use watchmux::outcome::{ExitStatus, RunOutcome};
use watchmux::reader::{LineReader, ReaderAction, ReaderEvent};
use watchmux::runner::{RunnerAction, RunnerEvent, RunnerState};

fn config(titles: &[&str]) -> Config {
    Config {
        processes: titles
            .iter()
            .map(|title| {
                WatchProcess::with_defaults(title.to_string(), "true".to_string()).unwrap()
            })
            .collect(),
    }
}

fn failed(code: i32) -> RunOutcome {
    RunOutcome::ExitFailed(ExitStatus { code: Some(code) })
}

#[test]
fn the_conduit_holds_1024_lines() {
    assert_eq!(CONDUIT_CAPACITY, 1024);
}

#[test]
fn a_line_is_written_as_it_came() {
    let line = Line::format("a", STDOUT_COLOR, "hello");
    let (state, action) = drain(DrainState::Draining, DrainEvent::Line(line));
    assert_eq!(state, DrainState::Draining);
    match action {
        DrainAction::Write(line) => {
            assert_eq!(line.as_str(), "\x1b[48;5;173m[ a ]\x1b[0m hello\n")
        }
        other => panic!("expected a write, got {other:?}"),
    }
}

#[test]
fn the_end_of_all_processes_closes_the_conduit() {
    let (state, action) = drain(DrainState::Draining, DrainEvent::AllFinished);
    assert_eq!(state, DrainState::Closed);
    assert_eq!(action, DrainAction::Close);
}

#[test]
fn nothing_is_written_once_closed() {
    let line = Line::format("a", STDOUT_COLOR, "late");
    let (state, action) = drain(DrainState::Closed, DrainEvent::Line(line));
    assert_eq!(state, DrainState::Closed);
    assert_eq!(action, DrainAction::Nothing);
    let (state, action) = drain(DrainState::Closed, DrainEvent::AllFinished);
    assert_eq!(state, DrainState::Closed);
    assert_eq!(action, DrainAction::Nothing);
}

#[test]
fn every_write_is_one_whole_line() {
    let mut state = DrainState::Draining;
    let mut output = String::new();
    let mut writes = 0;
    for n in 0..10 {
        let (next, action) =
            drain(state, DrainEvent::Line(Line::format("a", STDOUT_COLOR, &format!("{n}"))));
        state = next;
        if let DrainAction::Write(line) = action {
            assert!(line.as_str().ends_with('\n'));
            assert_eq!(line.as_str().matches('\n').count(), 1);
            output.push_str(line.as_str());
            writes += 1;
        }
    }
    assert_eq!(writes, 10);
    assert_eq!(output.lines().count(), 10);
}

#[test]
fn all_successes_make_a_success() {
    let config = config(&["a", "b", "c"]);
    let outcomes = vec![RunOutcome::Success, RunOutcome::Success, RunOutcome::Success];
    assert_eq!(config.aggregate(&outcomes), Ok(()));
}

#[test]
fn a_run_of_no_processes_succeeds() {
    assert_eq!(config(&[]).aggregate(&Vec::new()), Ok(()));
}

#[test]
fn the_first_failure_is_reported() {
    let config = config(&["a", "b", "c", "d"]);
    let outcomes = vec![
        RunOutcome::Success,
        failed(3),
        RunOutcome::ChannelClosed,
        RunOutcome::SpawnFailed("not found".to_string()),
    ];
    assert_eq!(
        config.aggregate(&outcomes),
        Err(Failure {
            index: 1,
            title: "b".to_string(),
            error: WatchError::ExitFailed(ExitStatus { code: Some(3) }),
        })
    );
}

#[test]
fn a_failure_in_the_last_place_is_found() {
    let config = config(&["a", "b"]);
    let outcomes = vec![RunOutcome::Success, RunOutcome::ChannelClosed];
    assert_eq!(
        config.aggregate(&outcomes),
        Err(Failure { index: 1, title: "b".to_string(), error: WatchError::SendError })
    );
}

#[test]
fn each_kind_of_failure_is_reported_as_its_error() {
    let status = ExitStatus { code: Some(2) };
    for (outcome, error) in [
        (RunOutcome::GateFailed(status), WatchError::AwaitFor(status)),
        (
            RunOutcome::SpawnFailed("denied".to_string()),
            WatchError::IoChildProcess("denied".to_string()),
        ),
        (RunOutcome::ExitFailed(status), WatchError::ExitFailed(status)),
        (RunOutcome::ChannelClosed, WatchError::SendError),
    ] {
        let config = config(&["only"]);
        assert_eq!(
            config.aggregate(&vec![outcome]),
            Err(Failure { index: 0, title: "only".to_string(), error })
        );
    }
}

#[test]
fn a_failure_names_the_process_and_what_went_wrong() {
    let failure = Failure {
        index: 1,
        title: "b".to_string(),
        error: WatchError::ExitFailed(ExitStatus { code: Some(1) }),
    };
    assert_eq!(failure.message(), "b: command failed with status: exit status: 1");
}

#[test]
fn two_processes_of_100_lines_give_200_tagged_lines() {
    let config = Config {
        processes: vec![
            WatchProcess::with_defaults("one".to_string(), "seq 100".to_string()).unwrap(),
            WatchProcess::with_defaults("two".to_string(), "seq 100".to_string()).unwrap(),
        ],
    };
    let mut readers = Vec::new();
    let mut states = Vec::new();
    for process in &config.processes {
        let (state, _) = process.run(RunnerState::Idle, RunnerEvent::Begin);
        let (state, action) = process.run(state, RunnerEvent::Spawned);
        match action {
            RunnerAction::Stream { stdout, stderr } => readers.push((stdout, stderr)),
            other => panic!("expected readers, got {other:?}"),
        }
        states.push(state);
    }

    // The readers take turns; the conduit keeps the order of arrival.
    let mut conduit = Vec::new();
    for n in 1..=100 {
        for (stdout, _) in readers.iter_mut() {
            match stdout.step(ReaderEvent::Line(n.to_string())) {
                ReaderAction::Push(line) => conduit.push(line),
                other => panic!("expected a push, got {other:?}"),
            }
            assert_eq!(stdout.step(ReaderEvent::Delivered), ReaderAction::Read);
        }
    }

    let mut drain_state = DrainState::Draining;
    let mut output = String::new();
    for line in conduit {
        let (next, action) = drain(drain_state, DrainEvent::Line(line));
        drain_state = next;
        match action {
            DrainAction::Write(line) => output.push_str(line.as_str()),
            other => panic!("expected a write, got {other:?}"),
        }
    }

    let mut outcomes = Vec::new();
    for ((process, state), (mut stdout, mut stderr)) in
        config.processes.iter().zip(states).zip(readers)
    {
        stdout.step(ReaderEvent::EndOfStream);
        stderr.step(ReaderEvent::EndOfStream);
        let done = RunnerEvent::ReadersDone {
            stdout: stdout.result().unwrap(),
            stderr: stderr.result().unwrap(),
        };
        let (state, _) = process.run(state, done);
        let (state, _) = process.run(state, RunnerEvent::Exited(ExitStatus { code: Some(0) }));
        match state {
            RunnerState::Finished(outcome) => outcomes.push(outcome),
            other => panic!("expected the end, got {other:?}"),
        }
    }
    let (drain_state, action) = drain(drain_state, DrainEvent::AllFinished);
    assert_eq!((drain_state, action), (DrainState::Closed, DrainAction::Close));

    let lines: Vec<&str> = output.lines().collect();
    assert_eq!(lines.len(), 200);
    for title in ["one", "two"] {
        let own: Vec<&&str> =
            lines.iter().filter(|line| line.contains(&format!("[ {title} ]"))).collect();
        assert_eq!(own.len(), 100);
        for (n, line) in own.iter().enumerate() {
            assert_eq!(**line, &format!("\x1b[48;5;173m[ {title} ]\x1b[0m {}", n + 1));
        }
    }
    assert_eq!(config.aggregate(&outcomes), Ok(()));
}

#[test]
fn a_full_conduit_delays_lines_but_loses_none() {
    let capacity = 2;
    let titles = ["one", "two", "three"];
    let mut readers: Vec<LineReader> =
        titles.iter().map(|title| LineReader::new(title.to_string(), STDOUT_COLOR)).collect();
    let mut next_line = vec![1; titles.len()];
    let mut waiting: Vec<Option<Line>> = titles.iter().map(|_| None).collect();
    let mut conduit: VecDeque<Line> = VecDeque::new();
    let mut output = String::new();
    let mut state = DrainState::Draining;
    let mut blocked = 0;

    // The producers are offered the conduit three times for every line that
    // the writer takes, so the conduit is full most of the time.
    let mut turn = 0;
    while output.lines().count() < 150 {
        for (reader, (pending, next)) in
            readers.iter_mut().zip(waiting.iter_mut().zip(next_line.iter_mut()))
        {
            if pending.is_none() && *next <= 50 {
                match reader.step(ReaderEvent::Line(next.to_string())) {
                    ReaderAction::Push(line) => *pending = Some(line),
                    other => panic!("expected a push, got {other:?}"),
                }
                *next += 1;
            }
            if pending.is_some() {
                if conduit.len() < capacity {
                    conduit.push_back(pending.take().unwrap());
                    assert_eq!(reader.step(ReaderEvent::Delivered), ReaderAction::Read);
                } else {
                    blocked += 1;
                    assert_eq!(
                        reader.step(ReaderEvent::Line("too early".to_string())),
                        ReaderAction::Nothing
                    );
                }
            }
        }
        turn += 1;
        if turn % 2 == 0 {
            if let Some(line) = conduit.pop_front() {
                let (next, action) = drain(state, DrainEvent::Line(line));
                state = next;
                match action {
                    DrainAction::Write(line) => output.push_str(line.as_str()),
                    other => panic!("expected a write, got {other:?}"),
                }
            }
        }
        assert!(conduit.len() <= capacity);
    }

    assert!(blocked > 0);
    let lines: Vec<&str> = output.lines().collect();
    assert_eq!(lines.len(), 150);
    for title in titles {
        let own: Vec<&&str> =
            lines.iter().filter(|line| line.contains(&format!("[ {title} ]"))).collect();
        assert_eq!(own.len(), 50);
        for (n, line) in own.iter().enumerate() {
            assert_eq!(**line, &format!("\x1b[48;5;173m[ {title} ]\x1b[0m {}", n + 1));
        }
    }
}
