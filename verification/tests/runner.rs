use watchmux::config::{RunType, WatchProcess};
use watchmux::line::{STDERR_COLOR, STDOUT_COLOR};
use watchmux::outcome::{ExitStatus, RunOutcome};
use watchmux::reader::{LineReader, ReaderAction, ReaderEvent, SinkClosed};
use watchmux::command::{command_line, SpawnRequest, SHELL, SHELL_RUN_FLAG};
use watchmux::runner::{GatePhase, RunPhase, RunnerAction, RunnerEvent, RunnerState};

fn owned(pieces: &[&str]) -> Vec<String> {
    pieces.iter().map(|piece| piece.to_string()).collect()
}

fn process(title: &str, cmd: &str, kind: Option<RunType>, gate: &str) -> WatchProcess {
    WatchProcess::new(
        title.to_string(),
        cmd.to_string(),
        true,
        kind,
        vec![("NAME".to_string(), "Nate".to_string())],
        gate.to_string(),
    )
    .unwrap()
}

fn env() -> Vec<(String, String)> {
    vec![("NAME".to_string(), "Nate".to_string())]
}

fn clean() -> RunnerEvent {
    RunnerEvent::ReadersDone { stdout: Ok(()), stderr: Ok(()) }
}

fn exited(code: i32) -> RunnerEvent {
    RunnerEvent::Exited(ExitStatus { code: Some(code) })
}

fn streaming(title: &str) -> RunnerAction {
    RunnerAction::Stream {
        stdout: LineReader::new(title.to_string(), STDOUT_COLOR),
        stderr: LineReader::new(title.to_string(), STDERR_COLOR),
    }
}

/// Runs `process` against the events in turn and returns the last state and
/// every action asked for.
fn drive(process: &WatchProcess, events: Vec<RunnerEvent>) -> (RunnerState, Vec<RunnerAction>) {
    let mut state = RunnerState::Idle;
    let mut actions = Vec::new();
    for event in events {
        let (next, action) = process.run(state, event);
        state = next;
        actions.push(action);
    }
    (state, actions)
}

/// Feeds `lines` to `reader` with a sink that takes them all, and returns
/// what was pushed.
fn forward(mut reader: LineReader, lines: &[&str]) -> (Vec<String>, Result<(), SinkClosed>) {
    let mut pushed = Vec::new();
    for text in lines {
        if let ReaderAction::Push(line) = reader.step(ReaderEvent::Line(text.to_string())) {
            pushed.push(line.into_string());
        }
        reader.step(ReaderEvent::Delivered);
    }
    reader.step(ReaderEvent::EndOfStream);
    (pushed, reader.result().unwrap())
}

#[test]
fn the_shell_is_bash() {
    assert_eq!(SHELL, "bash");
    assert_eq!(SHELL_RUN_FLAG, "-c");
}

#[test]
fn command_line_takes_the_first_piece_as_program() {
    assert_eq!(command_line("echo hello"), ("echo".to_string(), owned(&["hello"])));
    assert_eq!(
        command_line("cargo run --release"),
        ("cargo".to_string(), owned(&["run", "--release"]))
    );
}

#[test]
fn command_line_of_one_word_has_no_arguments() {
    assert_eq!(command_line("false"), ("false".to_string(), Vec::<String>::new()));
}

#[test]
fn command_line_skips_spaces_in_front() {
    assert_eq!(command_line("  echo hi"), ("echo".to_string(), owned(&["hi"])));
}

#[test]
fn command_line_keeps_empty_arguments() {
    assert_eq!(command_line("echo  hi"), ("echo".to_string(), owned(&["", "hi"])));
    assert_eq!(command_line("echo "), ("echo".to_string(), owned(&[""])));
}

#[test]
fn command_line_honours_no_quotes() {
    assert_eq!(
        command_line("sh -c 'echo a b'"),
        ("sh".to_string(), owned(&["-c", "'echo", "a", "b'"]))
    );
}

#[test]
fn command_line_of_spaces_names_no_program() {
    assert_eq!(command_line("   "), (String::new(), Vec::<String>::new()));
    assert_eq!(command_line(""), (String::new(), Vec::<String>::new()));
}

#[test]
fn main_request_of_a_command() {
    let process = process("a", "echo hello world", Some(RunType::Cmd), "");
    assert_eq!(
        process.main_request(),
        SpawnRequest { program: "echo".to_string(), args: owned(&["hello", "world"]), env: env() }
    );
}

#[test]
fn main_request_defaults_to_a_command() {
    let process = process("a", "echo hello", None, "");
    assert_eq!(
        process.main_request(),
        SpawnRequest { program: "echo".to_string(), args: owned(&["hello"]), env: env() }
    );
}

#[test]
fn main_request_of_a_shell_script_hands_the_text_over_whole() {
    let script = "while true; do\n  echo \"this is  true\"\n  sleep 1\ndone";
    let process = process("a", script, Some(RunType::Shell), "");
    assert_eq!(
        process.main_request(),
        SpawnRequest { program: "bash".to_string(), args: owned(&["-c", script]), env: env() }
    );
}

#[test]
fn gate_request_always_goes_through_the_shell() {
    for kind in [None, Some(RunType::Cmd), Some(RunType::Shell)] {
        let process = process("a", "echo never", kind, "exit 1");
        assert_eq!(
            process.gate_request(),
            SpawnRequest {
                program: "bash".to_string(),
                args: owned(&["-c", "exit 1"]),
                env: env(),
            }
        );
    }
}

#[test]
fn readers_tag_with_the_title_in_two_colours() {
    let process = process("web", "true", None, "");
    let (stdout, stderr) = process.readers();
    assert_eq!(stdout, LineReader::new("web".to_string(), 173));
    assert_eq!(stderr, LineReader::new("web".to_string(), 167));
}

#[test]
fn without_gate_the_main_command_is_spawned_at_once() {
    let process = process("a", "echo hello", None, "");
    let (state, action) = process.run(RunnerState::Idle, RunnerEvent::Begin);
    assert_eq!(state, RunnerState::Spawning);
    assert_eq!(action, RunnerAction::Spawn(process.main_request()));
}

#[test]
fn with_gate_the_gating_command_is_spawned_first() {
    let process = process("a", "echo hello", None, "test -f ready");
    let (state, action) = process.run(RunnerState::Idle, RunnerEvent::Begin);
    assert_eq!(state, RunnerState::Gating(GatePhase::Launching));
    assert_eq!(action, RunnerAction::Spawn(process.gate_request()));
}

#[test]
fn echo_hello_succeeds_with_one_tagged_line() {
    let process = process("a", "echo hello", Some(RunType::Cmd), "");
    let (state, actions) =
        drive(&process, vec![RunnerEvent::Begin, RunnerEvent::Spawned, clean(), exited(0)]);
    assert_eq!(state, RunnerState::Finished(RunOutcome::Success));
    assert_eq!(
        actions,
        vec![
            RunnerAction::Spawn(SpawnRequest {
                program: "echo".to_string(),
                args: owned(&["hello"]),
                env: env(),
            }),
            streaming("a"),
            RunnerAction::JoinExit,
            RunnerAction::Stop,
        ]
    );
    let (stdout, stderr) = process.readers();
    let (out, out_result) = forward(stdout, &["hello"]);
    let (err, err_result) = forward(stderr, &[]);
    assert_eq!((out_result, err_result), (Ok(()), Ok(())));
    assert_eq!(out.len() + err.len(), 1);
    assert!(out[0].ends_with("hello\n"));
    assert!(out[0].contains("[ a ]"));
    assert_eq!(out[0], "\x1b[48;5;173m[ a ]\x1b[0m hello\n");
}

#[test]
fn false_fails_with_its_status_and_no_lines() {
    let process = process("b", "false", Some(RunType::Cmd), "");
    let (state, actions) =
        drive(&process, vec![RunnerEvent::Begin, RunnerEvent::Spawned, clean(), exited(1)]);
    assert_eq!(
        state,
        RunnerState::Finished(RunOutcome::ExitFailed(ExitStatus { code: Some(1) }))
    );
    assert_eq!(actions.last(), Some(&RunnerAction::Stop));
    let (stdout, stderr) = process.readers();
    assert!(forward(stdout, &[]).0.is_empty());
    assert!(forward(stderr, &[]).0.is_empty());
}

#[test]
fn a_failed_gate_keeps_the_main_command_from_running() {
    let process = process("c", "echo never", None, "exit 1");
    let (state, actions) = drive(
        &process,
        vec![
            RunnerEvent::Begin,
            RunnerEvent::Spawned,
            clean(),
            exited(1),
            RunnerEvent::Spawned,
            clean(),
            exited(0),
        ],
    );
    assert_eq!(
        state,
        RunnerState::Finished(RunOutcome::GateFailed(ExitStatus { code: Some(1) }))
    );
    let spawns: Vec<&RunnerAction> =
        actions.iter().filter(|action| matches!(action, RunnerAction::Spawn(_))).collect();
    assert_eq!(spawns, vec![&RunnerAction::Spawn(process.gate_request())]);
    assert!(!actions.contains(&RunnerAction::Spawn(process.main_request())));
    assert_eq!(
        actions,
        vec![
            RunnerAction::Spawn(process.gate_request()),
            streaming("c"),
            RunnerAction::JoinExit,
            RunnerAction::Stop,
            RunnerAction::Stop,
            RunnerAction::Stop,
            RunnerAction::Stop,
        ]
    );
}

#[test]
fn a_gate_ended_by_a_signal_has_failed() {
    let process = process("c", "echo never", None, "sleep 100");
    let (state, _) = drive(
        &process,
        vec![
            RunnerEvent::Begin,
            RunnerEvent::Spawned,
            clean(),
            RunnerEvent::Exited(ExitStatus { code: None }),
        ],
    );
    assert_eq!(state, RunnerState::Finished(RunOutcome::GateFailed(ExitStatus { code: None })));
}

#[test]
fn a_gate_that_succeeds_lets_the_main_command_run() {
    let process = process("d", "echo now", None, "true");
    let (state, actions) = drive(
        &process,
        vec![
            RunnerEvent::Begin,
            RunnerEvent::Spawned,
            clean(),
            exited(0),
            RunnerEvent::Spawned,
            clean(),
            exited(0),
        ],
    );
    assert_eq!(state, RunnerState::Finished(RunOutcome::Success));
    assert_eq!(
        actions,
        vec![
            RunnerAction::Spawn(process.gate_request()),
            streaming("d"),
            RunnerAction::JoinExit,
            RunnerAction::Spawn(process.main_request()),
            streaming("d"),
            RunnerAction::JoinExit,
            RunnerAction::Stop,
        ]
    );
}

#[test]
fn the_states_of_a_run_with_gate() {
    let process = process("d", "echo now", None, "true");
    let mut state = RunnerState::Idle;
    let mut seen = Vec::new();
    for event in [
        RunnerEvent::Begin,
        RunnerEvent::Spawned,
        clean(),
        exited(0),
        RunnerEvent::Spawned,
        clean(),
    ] {
        state = process.run(state, event).0;
        seen.push(format!("{state:?}"));
    }
    assert_eq!(
        seen,
        vec![
            "Gating(Launching)",
            "Gating(Streaming)",
            "Gating(Joining)",
            "Spawning",
            "Running(Streaming)",
            "Running(Joining)",
        ]
    );
}

#[test]
fn a_refused_spawn_ends_the_run() {
    let process = process("e", "no-such-program", None, "");
    let (state, actions) = drive(
        &process,
        vec![RunnerEvent::Begin, RunnerEvent::SpawnRefused("not found".to_string())],
    );
    assert_eq!(state, RunnerState::Finished(RunOutcome::SpawnFailed("not found".to_string())));
    assert_eq!(actions[1], RunnerAction::Stop);
}

#[test]
fn a_refused_gate_ends_the_run() {
    let process = process("e", "echo hi", None, "true");
    let (state, actions) = drive(
        &process,
        vec![RunnerEvent::Begin, RunnerEvent::SpawnRefused("no shell".to_string())],
    );
    assert_eq!(state, RunnerState::Finished(RunOutcome::SpawnFailed("no shell".to_string())));
    assert_eq!(actions.len(), 2);
    assert_eq!(actions[0], RunnerAction::Spawn(process.gate_request()));
}

#[test]
fn a_closed_sink_abandons_the_wait() {
    for (stdout, stderr) in
        [(Err(SinkClosed), Ok(())), (Ok(()), Err(SinkClosed)), (Err(SinkClosed), Err(SinkClosed))]
    {
        let process = process("f", "yes", None, "");
        let (state, actions) = drive(
            &process,
            vec![
                RunnerEvent::Begin,
                RunnerEvent::Spawned,
                RunnerEvent::ReadersDone { stdout, stderr },
            ],
        );
        assert_eq!(state, RunnerState::Finished(RunOutcome::ChannelClosed));
        assert_eq!(actions[2], RunnerAction::AbandonExit);
    }
}

#[test]
fn a_closed_sink_during_gating_ends_the_run() {
    let process = process("f", "yes", None, "yes");
    let (state, actions) = drive(
        &process,
        vec![
            RunnerEvent::Begin,
            RunnerEvent::Spawned,
            RunnerEvent::ReadersDone { stdout: Err(SinkClosed), stderr: Ok(()) },
            exited(0),
        ],
    );
    assert_eq!(state, RunnerState::Finished(RunOutcome::ChannelClosed));
    assert_eq!(actions[2], RunnerAction::AbandonExit);
    assert_eq!(actions[3], RunnerAction::Stop);
}

#[test]
fn a_failed_wait_ends_the_run() {
    let process = process("g", "true", None, "");
    let (state, _) = drive(
        &process,
        vec![
            RunnerEvent::Begin,
            RunnerEvent::Spawned,
            clean(),
            RunnerEvent::WaitFailed("gone".to_string()),
        ],
    );
    assert_eq!(state, RunnerState::Finished(RunOutcome::SpawnFailed("gone".to_string())));
}

#[test]
fn a_failed_wait_for_the_gating_command_ends_the_run() {
    let process = process("g", "true", None, "true");
    let (state, actions) = drive(
        &process,
        vec![
            RunnerEvent::Begin,
            RunnerEvent::Spawned,
            clean(),
            RunnerEvent::WaitFailed("gone".to_string()),
        ],
    );
    assert_eq!(state, RunnerState::Finished(RunOutcome::SpawnFailed("gone".to_string())));
    assert_eq!(actions[3], RunnerAction::Stop);
}

#[test]
fn events_that_answer_nothing_change_nothing() {
    let process = process("h", "true", None, "");
    let (state, action) = process.run(RunnerState::Idle, RunnerEvent::Spawned);
    assert_eq!((state, action), (RunnerState::Idle, RunnerAction::Nothing));
    let (state, action) = process.run(RunnerState::Spawning, exited(0));
    assert_eq!((state, action), (RunnerState::Spawning, RunnerAction::Nothing));
    let (state, action) = process.run(RunnerState::Running(RunPhase::Streaming), exited(0));
    assert_eq!((state, action), (RunnerState::Running(RunPhase::Streaming), RunnerAction::Nothing));
    let (state, action) = process.run(RunnerState::Running(RunPhase::Joining), clean());
    assert_eq!((state, action), (RunnerState::Running(RunPhase::Joining), RunnerAction::Nothing));
    let (state, action) = process.run(RunnerState::Gating(GatePhase::Joining), RunnerEvent::Begin);
    assert_eq!((state, action), (RunnerState::Gating(GatePhase::Joining), RunnerAction::Nothing));
}

#[test]
fn a_finished_run_keeps_its_outcome() {
    let process = process("i", "true", None, "true");
    for event in [
        RunnerEvent::Begin,
        RunnerEvent::Spawned,
        RunnerEvent::SpawnRefused("late".to_string()),
        clean(),
        exited(0),
        RunnerEvent::WaitFailed("late".to_string()),
    ] {
        let (state, action) = process.run(RunnerState::Finished(RunOutcome::ChannelClosed), event);
        assert_eq!(state, RunnerState::Finished(RunOutcome::ChannelClosed));
        assert_eq!(action, RunnerAction::Stop);
    }
}

#[test]
fn the_environment_goes_into_every_request() {
    let process = WatchProcess::new(
        "j".to_string(),
        "printenv A".to_string(),
        true,
        None,
        vec![("A".to_string(), "1".to_string()), ("B".to_string(), "two words".to_string())],
        "printenv B".to_string(),
    )
    .unwrap();
    let expected =
        vec![("A".to_string(), "1".to_string()), ("B".to_string(), "two words".to_string())];
    assert_eq!(process.gate_request().env, expected);
    assert_eq!(process.main_request().env, expected);
}
