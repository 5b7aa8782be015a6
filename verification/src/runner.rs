//! The run of one process, as a state machine. The host creates the child
//! processes, runs the line readers and waits for exit statuses; after each of
//! these it reports what happened and is told what to do next.
//!
//! A run goes from `Idle` through `Gating` (only with a gate), `Spawning` and
//! `Running` to `Finished`, which holds the outcome.

use crate::command::{SpawnRequest, SpawnRequestSpec};
use crate::config::{ProcessSpec, WatchProcess};
use crate::line::{STDERR_COLOR, STDOUT_COLOR};
use crate::outcome::{ExitStatus, RunOutcome, RunOutcomeSpec};
use crate::reader::{LineReader, ReaderSpec, SinkClosed};
use vstd::prelude::*;

verus! {

/// Steps of a gating command on its way: being created, streaming its
/// output, and being waited for.
#[derive(Debug, Clone, Copy, PartialEq, Eq)]
pub enum GatePhase {
    Launching,
    Streaming,
    Joining,
}

/// Steps of the main command once it exists: streaming its output, and being
/// waited for.
#[derive(Debug, Clone, Copy, PartialEq, Eq)]
pub enum RunPhase {
    Streaming,
    Joining,
}

/// Where the run of one process stands.
#[derive(Debug, PartialEq, Eq)]
pub enum RunnerState {
    /// Nothing has happened yet.
    Idle,
    /// The gating command is on its way.
    Gating(GatePhase),
    /// The main command is being created.
    Spawning,
    /// The main command exists.
    Running(RunPhase),
    /// The run is over.
    Finished(RunOutcome),
}

/// Mathematical model of a `RunnerState`.
pub enum RunnerStateSpec {
    Idle,
    Gating(GatePhase),
    Spawning,
    Running(RunPhase),
    Finished(RunOutcomeSpec),
}

impl View for RunnerState {
    type V = RunnerStateSpec;

    open spec fn view(&self) -> RunnerStateSpec {
        match self {
            RunnerState::Idle => RunnerStateSpec::Idle,
            RunnerState::Gating(phase) => RunnerStateSpec::Gating(*phase),
            RunnerState::Spawning => RunnerStateSpec::Spawning,
            RunnerState::Running(phase) => RunnerStateSpec::Running(*phase),
            RunnerState::Finished(outcome) => RunnerStateSpec::Finished(outcome@),
        }
    }
}

/// What the host reports to a runner.
#[derive(Debug, PartialEq, Eq)]
pub enum RunnerEvent {
    /// The run is to start.
    Begin,
    /// The child process asked for exists.
    Spawned,
    /// The operating system did not create the child process; the text says why.
    SpawnRefused(String),
    /// Both line readers of the child are over, with these results.
    ReadersDone { stdout: Result<(), SinkClosed>, stderr: Result<(), SinkClosed> },
    /// The child has ended with this status.
    Exited(ExitStatus),
    /// Waiting for the child to end failed; the text says why.
    WaitFailed(String),
}

/// Mathematical model of a `RunnerEvent`.
pub enum RunnerEventSpec {
    Begin,
    Spawned,
    SpawnRefused(Seq<char>),
    ReadersDone { stdout: Result<(), SinkClosed>, stderr: Result<(), SinkClosed> },
    Exited(ExitStatus),
    WaitFailed(Seq<char>),
}

impl View for RunnerEvent {
    type V = RunnerEventSpec;

    open spec fn view(&self) -> RunnerEventSpec {
        match self {
            RunnerEvent::Begin => RunnerEventSpec::Begin,
            RunnerEvent::Spawned => RunnerEventSpec::Spawned,
            RunnerEvent::SpawnRefused(cause) => RunnerEventSpec::SpawnRefused(cause@),
            RunnerEvent::ReadersDone { stdout, stderr } => RunnerEventSpec::ReadersDone {
                stdout: *stdout,
                stderr: *stderr,
            },
            RunnerEvent::Exited(status) => RunnerEventSpec::Exited(*status),
            RunnerEvent::WaitFailed(cause) => RunnerEventSpec::WaitFailed(cause@),
        }
    }
}

/// What a runner asks of the host.
#[derive(Debug, PartialEq, Eq)]
pub enum RunnerAction {
    /// Create this child process and report whether it exists.
    Spawn(SpawnRequest),
    /// Run these two line readers side by side, the first on the child's
    /// standard output and the second on its standard error, while the wait
    /// for the child's end goes on beside them; report when both readers are
    /// over.
    Stream { stdout: LineReader, stderr: LineReader },
    /// Join the wait for the child's end and report the status.
    JoinExit,
    /// Abandon the wait for the child's end instead of joining it: there is
    /// nowhere left to report output. The run is over.
    AbandonExit,
    /// Nothing is left to do: the run is over.
    Stop,
    /// The event was not an answer to what the runner had asked; it changed nothing.
    Nothing,
}

/// Mathematical model of a `RunnerAction`.
pub enum RunnerActionSpec {
    Spawn(SpawnRequestSpec),
    Stream { stdout: ReaderSpec, stderr: ReaderSpec },
    JoinExit,
    AbandonExit,
    Stop,
    Nothing,
}

impl View for RunnerAction {
    type V = RunnerActionSpec;

    open spec fn view(&self) -> RunnerActionSpec {
        match self {
            RunnerAction::Spawn(request) => RunnerActionSpec::Spawn(request@),
            RunnerAction::Stream { stdout, stderr } => RunnerActionSpec::Stream {
                stdout: stdout@,
                stderr: stderr@,
            },
            RunnerAction::JoinExit => RunnerActionSpec::JoinExit,
            RunnerAction::AbandonExit => RunnerActionSpec::AbandonExit,
            RunnerAction::Stop => RunnerActionSpec::Stop,
            RunnerAction::Nothing => RunnerActionSpec::Nothing,
        }
    }
}

/// What follows when both readers of a child are over: the exit status is
/// waited for if both ended cleanly; if either found the sink closed, the
/// wait is given up and the run ends with `ChannelClosed`.
pub open spec fn readers_settled(
    state: RunnerStateSpec,
    joining: RunnerStateSpec,
    event: RunnerEventSpec,
) -> (RunnerStateSpec, RunnerActionSpec) {
    match event {
        RunnerEventSpec::ReadersDone { stdout, stderr } => if stdout is Ok && stderr is Ok {
            (joining, RunnerActionSpec::JoinExit)
        } else {
            (
                RunnerStateSpec::Finished(RunOutcomeSpec::ChannelClosed),
                RunnerActionSpec::AbandonExit,
            )
        },
        _ => (state, RunnerActionSpec::Nothing),
    }
}

impl ProcessSpec {
    /// What follows when the child process asked for was created or refused.
    /// The readers of a child that exists are fresh, tag with the title of
    /// the process, and have the colour of their stream, for a gating command
    /// as for the main command.
    pub open spec fn spawn_settled(
        self,
        state: RunnerStateSpec,
        streaming: RunnerStateSpec,
        event: RunnerEventSpec,
    ) -> (RunnerStateSpec, RunnerActionSpec) {
        match event {
            RunnerEventSpec::Spawned => (
                streaming,
                RunnerActionSpec::Stream {
                    stdout: ReaderSpec::fresh(self.title, STDOUT_COLOR),
                    stderr: ReaderSpec::fresh(self.title, STDERR_COLOR),
                },
            ),
            RunnerEventSpec::SpawnRefused(cause) => (
                RunnerStateSpec::Finished(RunOutcomeSpec::SpawnFailed(cause)),
                RunnerActionSpec::Stop,
            ),
            _ => (state, RunnerActionSpec::Nothing),
        }
    }

    /// The reaction of the run to one event: the state afterwards, and what
    /// the runner asks for.
    ///
    /// * `Idle`, on `Begin`: with a gate, its command is spawned and the run is
    ///   `Gating`; without one, the main command is spawned at once and the
    ///   run is `Spawning`.
    /// * A child that was asked for: once it exists its output is streamed; if
    ///   it was refused the run ends with `SpawnFailed`.
    /// * A child whose readers are over: see `readers_settled`.
    /// * The gating command has ended: on success the main command is spawned;
    ///   otherwise the run ends with `GateFailed` and the status.
    /// * The main command has ended: `Success` on success, else `ExitFailed`
    ///   with the status.
    /// * Waiting failed: the run ends with `SpawnFailed` and the cause.
    /// * `Finished` stays as it is.
    /// * Any other event is no answer to what was asked and changes nothing.
    pub open spec fn step(self, state: RunnerStateSpec, event: RunnerEventSpec) -> (
        RunnerStateSpec,
        RunnerActionSpec,
    ) {
        match state {
            RunnerStateSpec::Idle => match event {
                RunnerEventSpec::Begin => if self.gate() is Some {
                    (
                        RunnerStateSpec::Gating(GatePhase::Launching),
                        RunnerActionSpec::Spawn(self.gate_request()),
                    )
                } else {
                    (RunnerStateSpec::Spawning, RunnerActionSpec::Spawn(self.main_request()))
                },
                _ => (state, RunnerActionSpec::Nothing),
            },
            RunnerStateSpec::Gating(GatePhase::Launching) => self.spawn_settled(
                state,
                RunnerStateSpec::Gating(GatePhase::Streaming),
                event,
            ),
            RunnerStateSpec::Gating(GatePhase::Streaming) => readers_settled(
                state,
                RunnerStateSpec::Gating(GatePhase::Joining),
                event,
            ),
            RunnerStateSpec::Gating(GatePhase::Joining) => match event {
                RunnerEventSpec::Exited(status) => if status.is_success() {
                    (RunnerStateSpec::Spawning, RunnerActionSpec::Spawn(self.main_request()))
                } else {
                    (
                        RunnerStateSpec::Finished(RunOutcomeSpec::GateFailed(status)),
                        RunnerActionSpec::Stop,
                    )
                },
                RunnerEventSpec::WaitFailed(cause) => (
                    RunnerStateSpec::Finished(RunOutcomeSpec::SpawnFailed(cause)),
                    RunnerActionSpec::Stop,
                ),
                _ => (state, RunnerActionSpec::Nothing),
            },
            RunnerStateSpec::Spawning => self.spawn_settled(
                state,
                RunnerStateSpec::Running(RunPhase::Streaming),
                event,
            ),
            RunnerStateSpec::Running(RunPhase::Streaming) => readers_settled(
                state,
                RunnerStateSpec::Running(RunPhase::Joining),
                event,
            ),
            RunnerStateSpec::Running(RunPhase::Joining) => match event {
                RunnerEventSpec::Exited(status) => if status.is_success() {
                    (RunnerStateSpec::Finished(RunOutcomeSpec::Success), RunnerActionSpec::Stop)
                } else {
                    (
                        RunnerStateSpec::Finished(RunOutcomeSpec::ExitFailed(status)),
                        RunnerActionSpec::Stop,
                    )
                },
                RunnerEventSpec::WaitFailed(cause) => (
                    RunnerStateSpec::Finished(RunOutcomeSpec::SpawnFailed(cause)),
                    RunnerActionSpec::Stop,
                ),
                _ => (state, RunnerActionSpec::Nothing),
            },
            RunnerStateSpec::Finished(_) => (state, RunnerActionSpec::Stop),
        }
    }

    /// The state after a whole sequence of events, and everything the runner
    /// asked for on the way, in order.
    pub open spec fn run(self, state: RunnerStateSpec, events: Seq<RunnerEventSpec>) -> (
        RunnerStateSpec,
        Seq<RunnerActionSpec>,
    )
        decreases events.len(),
    {
        if events.len() == 0 {
            (state, Seq::empty())
        } else {
            let (before, asked) = self.run(state, events.drop_last());
            let (after, action) = self.step(before, events.last());
            (after, asked.push(action))
        }
    }
}

/// The child processes among `actions` that the runner asked for, in order.
pub open spec fn spawned(actions: Seq<RunnerActionSpec>) -> Seq<SpawnRequestSpec>
    decreases actions.len(),
{
    if actions.len() == 0 {
        Seq::empty()
    } else {
        match actions.last() {
            RunnerActionSpec::Spawn(request) => spawned(actions.drop_last()).push(request),
            _ => spawned(actions.drop_last()),
        }
    }
}

impl WatchProcess {
    /// The two readers of a child of this process: for its standard output
    /// and for its standard error.
    pub fn readers(&self) -> (pair: (LineReader, LineReader))
        ensures
            pair.0@ == ReaderSpec::fresh(self@.title, STDOUT_COLOR),
            pair.1@ == ReaderSpec::fresh(self@.title, STDERR_COLOR),
    {
        (
            LineReader::new(self.title().to_owned(), STDOUT_COLOR),
            LineReader::new(self.title().to_owned(), STDERR_COLOR),
        )
    }

    /// What follows when the child process asked for was created or refused.
    fn after_spawn(
        &self,
        state: RunnerState,
        streaming: RunnerState,
        event: RunnerEvent,
    ) -> (next: (RunnerState, RunnerAction))
        ensures
            (next.0@, next.1@) == self@.spawn_settled(state@, streaming@, event@),
    {
        match event {
            RunnerEvent::Spawned => {
                let (stdout, stderr) = self.readers();
                (streaming, RunnerAction::Stream { stdout, stderr })
            },
            RunnerEvent::SpawnRefused(cause) => (
                RunnerState::Finished(RunOutcome::SpawnFailed(cause)),
                RunnerAction::Stop,
            ),
            _ => (state, RunnerAction::Nothing),
        }
    }

    /// Takes the run of this process one step further: from `state`, on
    /// `event`, to the state that follows and what the host is to do next.
    pub fn run(&self, state: RunnerState, event: RunnerEvent) -> (next: (RunnerState, RunnerAction))
        ensures
            (next.0@, next.1@) == self@.step(state@, event@),
    {
        match state {
            RunnerState::Idle => match event {
                RunnerEvent::Begin => match self.gate() {
                    Some(_) => (
                        RunnerState::Gating(GatePhase::Launching),
                        RunnerAction::Spawn(self.gate_request()),
                    ),
                    None => (RunnerState::Spawning, RunnerAction::Spawn(self.main_request())),
                },
                _ => (state, RunnerAction::Nothing),
            },
            RunnerState::Gating(GatePhase::Launching) => self.after_spawn(
                state,
                RunnerState::Gating(GatePhase::Streaming),
                event,
            ),
            RunnerState::Gating(GatePhase::Streaming) => after_readers(
                state,
                RunnerState::Gating(GatePhase::Joining),
                event,
            ),
            RunnerState::Gating(GatePhase::Joining) => match event {
                RunnerEvent::Exited(status) => if status.success() {
                    (RunnerState::Spawning, RunnerAction::Spawn(self.main_request()))
                } else {
                    (RunnerState::Finished(RunOutcome::GateFailed(status)), RunnerAction::Stop)
                },
                RunnerEvent::WaitFailed(cause) => (
                    RunnerState::Finished(RunOutcome::SpawnFailed(cause)),
                    RunnerAction::Stop,
                ),
                _ => (state, RunnerAction::Nothing),
            },
            RunnerState::Spawning => self.after_spawn(
                state,
                RunnerState::Running(RunPhase::Streaming),
                event,
            ),
            RunnerState::Running(RunPhase::Streaming) => after_readers(
                state,
                RunnerState::Running(RunPhase::Joining),
                event,
            ),
            RunnerState::Running(RunPhase::Joining) => match event {
                RunnerEvent::Exited(status) => if status.success() {
                    (RunnerState::Finished(RunOutcome::Success), RunnerAction::Stop)
                } else {
                    (RunnerState::Finished(RunOutcome::ExitFailed(status)), RunnerAction::Stop)
                },
                RunnerEvent::WaitFailed(cause) => (
                    RunnerState::Finished(RunOutcome::SpawnFailed(cause)),
                    RunnerAction::Stop,
                ),
                _ => (state, RunnerAction::Nothing),
            },
            RunnerState::Finished(outcome) => (RunnerState::Finished(outcome), RunnerAction::Stop),
        }
    }
}

/// What follows when both readers of a child are over.
fn after_readers(state: RunnerState, joining: RunnerState, event: RunnerEvent) -> (next: (
    RunnerState,
    RunnerAction,
))
    ensures
        (next.0@, next.1@) == readers_settled(state@, joining@, event@),
{
    match event {
        RunnerEvent::ReadersDone { stdout, stderr } => if stdout.is_ok() && stderr.is_ok() {
            (joining, RunnerAction::JoinExit)
        } else {
            (RunnerState::Finished(RunOutcome::ChannelClosed), RunnerAction::AbandonExit)
        },
        _ => (state, RunnerAction::Nothing),
    }
}

/// What a run that began in `Idle` has asked to spawn, given where it stands:
/// nothing before it began; the gating command alone while gating and after
/// it failed; the gating command (if there is one) and then the main command
/// from `Spawning` on. A run that ended for want of a child or of the sink may have
/// ended at either child.
pub open spec fn spawned_so_far(
    process: ProcessSpec,
    state: RunnerStateSpec,
    requests: Seq<SpawnRequestSpec>,
) -> bool {
    let gate_only = process.gate() is Some && requests == seq![process.gate_request()];
    let main_too = requests == if process.gate() is Some {
        seq![process.gate_request(), process.main_request()]
    } else {
        seq![process.main_request()]
    };
    match state {
        RunnerStateSpec::Idle => requests == Seq::<SpawnRequestSpec>::empty(),
        RunnerStateSpec::Gating(_) => gate_only,
        RunnerStateSpec::Spawning | RunnerStateSpec::Running(_) => main_too,
        RunnerStateSpec::Finished(RunOutcomeSpec::GateFailed(status)) => gate_only
            && !status.is_success(),
        RunnerStateSpec::Finished(RunOutcomeSpec::Success) => main_too,
        RunnerStateSpec::Finished(RunOutcomeSpec::ExitFailed(status)) => main_too
            && !status.is_success(),
        RunnerStateSpec::Finished(_) => gate_only || main_too,
    }
}

/// One more event: the run so far, then one step.
pub proof fn lemma_run_push(
    process: ProcessSpec,
    state: RunnerStateSpec,
    events: Seq<RunnerEventSpec>,
    event: RunnerEventSpec,
)
    ensures
        process.run(state, events.push(event)).0 == process.step(
            process.run(state, events).0,
            event,
        ).0,
        process.run(state, events.push(event)).1 == process.run(state, events).1.push(
            process.step(process.run(state, events).0, event).1,
        ),
{
    assert(events.push(event).drop_last() =~= events);
}

/// One more action: one more spawn request if the action is a spawn, else none.
pub proof fn lemma_spawned_push(actions: Seq<RunnerActionSpec>, action: RunnerActionSpec)
    ensures
        spawned(actions.push(action)) == match action {
            RunnerActionSpec::Spawn(request) => spawned(actions).push(request),
            _ => spawned(actions),
        },
{
    assert(actions.push(action).drop_last() =~= actions);
}

/// Whatever the host reports, in whatever order, the children that a run has
/// asked for are those that its state accounts for.
pub proof fn lemma_spawns_follow_state(process: ProcessSpec, events: Seq<RunnerEventSpec>)
    ensures
        spawned_so_far(
            process,
            process.run(RunnerStateSpec::Idle, events).0,
            spawned(process.run(RunnerStateSpec::Idle, events).1),
        ),
    decreases events.len(),
{
    if events.len() > 0 {
        let shorter = events.drop_last();
        let event = events.last();
        lemma_spawns_follow_state(process, shorter);
        assert(shorter.push(event) =~= events);
        lemma_run_push(process, RunnerStateSpec::Idle, shorter, event);
        let before = process.run(RunnerStateSpec::Idle, shorter);
        lemma_spawned_push(before.1, process.step(before.0, event).1);
        let requests = spawned(before.1);
        if process.gate() is Some {
            assert(seq![process.gate_request()].push(process.main_request()) =~= seq![
                process.gate_request(),
                process.main_request(),
            ]);
            assert(Seq::<SpawnRequestSpec>::empty().push(process.gate_request()) =~= seq![
                process.gate_request(),
            ]);
        } else {
            assert(Seq::<SpawnRequestSpec>::empty().push(process.main_request()) =~= seq![
                process.main_request(),
            ]);
        }
    }
}

/// A process without a gate: its first step asks for the main command, and
/// no run of it is ever `Gating` or asks for any other child.
pub proof fn lemma_without_gate(process: ProcessSpec, events: Seq<RunnerEventSpec>)
    requires
        process.gate() is None,
    ensures
        process.step(RunnerStateSpec::Idle, RunnerEventSpec::Begin) == (
            RunnerStateSpec::Spawning,
            RunnerActionSpec::Spawn(process.main_request()),
        ),
        !(process.run(RunnerStateSpec::Idle, events).0 is Gating),
        spawned(process.run(RunnerStateSpec::Idle, events).1) == Seq::<SpawnRequestSpec>::empty()
            || spawned(process.run(RunnerStateSpec::Idle, events).1) == seq![
            process.main_request(),
        ],
{
    lemma_spawns_follow_state(process, events);
}

/// A finished run stays finished with its outcome, and asks for no child.
pub proof fn lemma_finished_stays(
    process: ProcessSpec,
    state: RunnerStateSpec,
    events: Seq<RunnerEventSpec>,
)
    requires
        state is Finished,
    ensures
        process.run(state, events).0 == state,
        spawned(process.run(state, events).1) == Seq::<SpawnRequestSpec>::empty(),
    decreases events.len(),
{
    if events.len() > 0 {
        let shorter = events.drop_last();
        lemma_finished_stays(process, state, shorter);
        assert(shorter.push(events.last()) =~= events);
        lemma_run_push(process, state, shorter, events.last());
        lemma_spawned_push(process.run(state, shorter).1, RunnerActionSpec::Stop);
    }
}

/// A run over `first` and then `second` is the run over `first` continued
/// over `second`, and asks for the children that the two stretches ask for.
pub proof fn lemma_run_concat(
    process: ProcessSpec,
    state: RunnerStateSpec,
    first: Seq<RunnerEventSpec>,
    second: Seq<RunnerEventSpec>,
)
    ensures
        process.run(state, first + second).0 == process.run(
            process.run(state, first).0,
            second,
        ).0,
        spawned(process.run(state, first + second).1) == spawned(process.run(state, first).1)
            + spawned(process.run(process.run(state, first).0, second).1),
    decreases second.len(),
{
    let mid = process.run(state, first).0;
    if second.len() == 0 {
        assert(first + second =~= first);
        assert(spawned(process.run(state, first).1) + spawned(process.run(mid, second).1)
            =~= spawned(process.run(state, first).1));
    } else {
        let shorter = second.drop_last();
        let event = second.last();
        lemma_run_concat(process, state, first, shorter);
        assert((first + shorter).push(event) =~= first + second);
        assert(shorter.push(event) =~= second);
        lemma_run_push(process, state, first + shorter, event);
        lemma_run_push(process, mid, shorter, event);
        let action = process.step(process.run(mid, shorter).0, event).1;
        lemma_spawned_push(process.run(state, first + shorter).1, action);
        lemma_spawned_push(process.run(mid, shorter).1, action);
        match action {
            RunnerActionSpec::Spawn(request) => {
                assert((spawned(process.run(state, first).1) + spawned(
                    process.run(mid, shorter).1,
                )).push(request) =~= spawned(process.run(state, first).1) + spawned(
                    process.run(mid, shorter).1,
                ).push(request));
            },
            _ => {},
        }
    }
}

/// A gate that ends without success ends the run: whatever led to the wait
/// for it, and whatever is reported afterwards, the outcome is `GateFailed`
/// with its status, and the only child ever asked for is the gating command.
/// The main command is never spawned.
pub proof fn lemma_failed_gate_ends_run(
    process: ProcessSpec,
    before: Seq<RunnerEventSpec>,
    status: ExitStatus,
    afterwards: Seq<RunnerEventSpec>,
)
    requires
        process.run(RunnerStateSpec::Idle, before).0 == RunnerStateSpec::Gating(GatePhase::Joining),
        !status.is_success(),
    ensures
        process.run(
            RunnerStateSpec::Idle,
            before.push(RunnerEventSpec::Exited(status)) + afterwards,
        ).0 == RunnerStateSpec::Finished(RunOutcomeSpec::GateFailed(status)),
        spawned(
            process.run(
                RunnerStateSpec::Idle,
                before.push(RunnerEventSpec::Exited(status)) + afterwards,
            ).1,
        ) == seq![process.gate_request()],
{
    let until_exit = before.push(RunnerEventSpec::Exited(status));
    lemma_run_push(process, RunnerStateSpec::Idle, before, RunnerEventSpec::Exited(status));
    lemma_spawns_follow_state(process, until_exit);
    let failed = process.run(RunnerStateSpec::Idle, until_exit).0;
    lemma_finished_stays(process, failed, afterwards);
    lemma_run_concat(process, RunnerStateSpec::Idle, until_exit, afterwards);
    assert(seq![process.gate_request()] + Seq::<SpawnRequestSpec>::empty() =~= seq![
        process.gate_request(),
    ]);
}

/// Whether `event` reports on what `action` asked for.
pub open spec fn answers(action: RunnerActionSpec, event: RunnerEventSpec) -> bool {
    match action {
        RunnerActionSpec::Spawn(_) => event is Spawned || event is SpawnRefused,
        RunnerActionSpec::Stream { .. } => event is ReadersDone,
        RunnerActionSpec::JoinExit => event is Exited || event is WaitFailed,
        _ => false,
    }
}

/// Whether `events` is what a host reports that begins the run and from then
/// on answers what it was asked, each time.
pub open spec fn in_turn(process: ProcessSpec, events: Seq<RunnerEventSpec>) -> bool {
    &&& events.len() > 0 ==> events[0] is Begin
    &&& forall|k: int|
        1 <= k < events.len() ==> answers(
            #[trigger] process.run(RunnerStateSpec::Idle, events.take(k)).1.last(),
            events[k],
        )
}

/// How far a run has come: the number of events that can at most lie behind.
pub open spec fn progress(state: RunnerStateSpec) -> int {
    match state {
        RunnerStateSpec::Idle => 0,
        RunnerStateSpec::Gating(GatePhase::Launching) => 1,
        RunnerStateSpec::Gating(GatePhase::Streaming) => 2,
        RunnerStateSpec::Gating(GatePhase::Joining) => 3,
        RunnerStateSpec::Spawning => 4,
        RunnerStateSpec::Running(RunPhase::Streaming) => 5,
        RunnerStateSpec::Running(RunPhase::Joining) => 6,
        RunnerStateSpec::Finished(_) => 7,
    }
}

/// Whether `action` is what a run in `state` waits to be answered.
pub open spec fn asked_in(state: RunnerStateSpec, action: RunnerActionSpec) -> bool {
    match state {
        RunnerStateSpec::Idle => false,
        RunnerStateSpec::Gating(GatePhase::Launching) | RunnerStateSpec::Spawning => action
            is Spawn,
        RunnerStateSpec::Gating(GatePhase::Streaming)
        | RunnerStateSpec::Running(RunPhase::Streaming) => action is Stream,
        RunnerStateSpec::Gating(GatePhase::Joining)
        | RunnerStateSpec::Running(RunPhase::Joining) => action is JoinExit,
        RunnerStateSpec::Finished(_) => action is Stop || action is AbandonExit,
    }
}

/// With a host that reports in turn, every event takes the run further: the
/// runner never answers `Nothing`, what it asks for is what its state waits
/// for, and the run is over after seven events at the latest. Each run thus
/// comes to one outcome.
pub proof fn lemma_run_comes_to_an_end(process: ProcessSpec, events: Seq<RunnerEventSpec>)
    requires
        in_turn(process, events),
        events.len() > 0,
    ensures
        events.len() <= progress(process.run(RunnerStateSpec::Idle, events).0) <= 7,
        asked_in(
            process.run(RunnerStateSpec::Idle, events).0,
            process.run(RunnerStateSpec::Idle, events).1.last(),
        ),
        process.run(RunnerStateSpec::Idle, events).1.len() == events.len(),
        events.len() == 7 ==> process.run(RunnerStateSpec::Idle, events).0 is Finished,
    decreases events.len(),
{
    let shorter = events.drop_last();
    let event = events.last();
    assert(shorter.push(event) =~= events);
    lemma_run_push(process, RunnerStateSpec::Idle, shorter, event);
    if shorter.len() == 0 {
        assert(event == events[0]);
    } else {
        assert forall|k: int| 1 <= k < shorter.len() implies answers(
            #[trigger] process.run(RunnerStateSpec::Idle, shorter.take(k)).1.last(),
            shorter[k],
        ) by {
            assert(shorter.take(k) =~= events.take(k));
        }
        assert(shorter[0] == events[0]);
        lemma_run_comes_to_an_end(process, shorter);
        let k = shorter.len() as int;
        assert(events.take(k) =~= shorter);
        assert(answers(process.run(RunnerStateSpec::Idle, events.take(k)).1.last(), events[k]));
    }
}

} // verus!
