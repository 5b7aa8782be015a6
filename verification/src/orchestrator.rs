//! The whole run: the lines of all processes are written out one by one
//! while the processes run, and when every process has finished the run is
//! closed and its outcome is the first failure, if there was one.

use crate::config::Config;
use crate::error::{WatchError, WatchErrorSpec};
use crate::line::{is_line, Line};
use crate::outcome::{RunOutcome, RunOutcomeSpec};
use vstd::prelude::*;
use vstd::string::*;

verus! {

/// How many lines the conduit between the readers and the writer holds
/// before a reader has to wait.
pub const CONDUIT_CAPACITY: usize = 1024;

/// Where the writer stands.
#[derive(Debug, Clone, Copy, PartialEq, Eq)]
pub enum DrainState {
    /// Lines are taken from the conduit and written out.
    Draining,
    /// Every process has finished; nothing more is taken from the conduit.
    Closed,
}

/// What the host reports to the writer.
#[derive(Debug, PartialEq, Eq)]
pub enum DrainEvent {
    /// The conduit handed out this line.
    Line(Line),
    /// Every process of the run has finished.
    AllFinished,
}

/// Mathematical model of a `DrainEvent`.
pub enum DrainEventSpec {
    Line(Seq<char>),
    AllFinished,
}

impl View for DrainEvent {
    type V = DrainEventSpec;

    open spec fn view(&self) -> DrainEventSpec {
        match self {
            DrainEvent::Line(line) => DrainEventSpec::Line(line@),
            DrainEvent::AllFinished => DrainEventSpec::AllFinished,
        }
    }
}

/// What the writer asks of the host.
#[derive(Debug, PartialEq, Eq)]
pub enum DrainAction {
    /// Write this line to the output, whole and in one write.
    Write(Line),
    /// Close the conduit and stop taking lines from it.
    Close,
    /// The event changed nothing.
    Nothing,
}

/// Mathematical model of a `DrainAction`.
pub enum DrainActionSpec {
    Write(Seq<char>),
    Close,
    Nothing,
}

impl View for DrainAction {
    type V = DrainActionSpec;

    open spec fn view(&self) -> DrainActionSpec {
        match self {
            DrainAction::Write(line) => DrainActionSpec::Write(line@),
            DrainAction::Close => DrainActionSpec::Close,
            DrainAction::Nothing => DrainActionSpec::Nothing,
        }
    }
}

/// The reaction of the writer to one event. While draining, a line is written
/// out as it came, and the end of all processes closes the conduit at once,
/// whatever it still holds. Once closed, nothing is written any more.
pub open spec fn drain_step(state: DrainState, event: DrainEventSpec) -> (
    DrainState,
    DrainActionSpec,
) {
    match state {
        DrainState::Draining => match event {
            DrainEventSpec::Line(line) => (DrainState::Draining, DrainActionSpec::Write(line)),
            DrainEventSpec::AllFinished => (DrainState::Closed, DrainActionSpec::Close),
        },
        DrainState::Closed => (DrainState::Closed, DrainActionSpec::Nothing),
    }
}

/// The writer after a whole sequence of events, and everything it asked for
/// on the way, in order.
pub open spec fn drain_run(state: DrainState, events: Seq<DrainEventSpec>) -> (
    DrainState,
    Seq<DrainActionSpec>,
)
    decreases events.len(),
{
    if events.len() == 0 {
        (state, Seq::empty())
    } else {
        let (before, asked) = drain_run(state, events.drop_last());
        let (after, action) = drain_step(before, events.last());
        (after, asked.push(action))
    }
}

/// What was written among `actions`, write by write.
pub open spec fn written(actions: Seq<DrainActionSpec>) -> Seq<Seq<char>>
    decreases actions.len(),
{
    if actions.len() == 0 {
        Seq::empty()
    } else {
        match actions.last() {
            DrainActionSpec::Write(line) => written(actions.drop_last()).push(line),
            _ => written(actions.drop_last()),
        }
    }
}

/// The lines that the conduit hands out before the processes are reported
/// finished, in order.
pub open spec fn lines_before_finish(events: Seq<DrainEventSpec>) -> Seq<Seq<char>>
    decreases events.len(),
{
    if events.len() == 0 {
        Seq::empty()
    } else {
        match events.first() {
            DrainEventSpec::Line(line) => seq![line] + lines_before_finish(events.drop_first()),
            DrainEventSpec::AllFinished => Seq::empty(),
        }
    }
}

/// Takes the writer one step further.
pub fn drain(state: DrainState, event: DrainEvent) -> (next: (DrainState, DrainAction))
    ensures
        (next.0, next.1@) == drain_step(state, event@),
        next.1 matches DrainAction::Write(line) ==> is_line(line@),
{
    match state {
        DrainState::Draining => match event {
            DrainEvent::Line(line) => {
                line.recall_whole();
                (DrainState::Draining, DrainAction::Write(line))
            },
            DrainEvent::AllFinished => (DrainState::Closed, DrainAction::Close),
        },
        DrainState::Closed => (DrainState::Closed, DrainAction::Nothing),
    }
}

/// A run of the writer seen from its first event: one step, then the rest.
pub proof fn lemma_drain_run_first(state: DrainState, events: Seq<DrainEventSpec>)
    requires
        events.len() > 0,
    ensures
        drain_run(state, events).0 == drain_run(
            drain_step(state, events.first()).0,
            events.drop_first(),
        ).0,
        drain_run(state, events).1 == seq![drain_step(state, events.first()).1] + drain_run(
            drain_step(state, events.first()).0,
            events.drop_first(),
        ).1,
    decreases events.len(),
{
    let (next, action) = drain_step(state, events.first());
    if events.len() == 1 {
        assert(events.drop_last() =~= Seq::<DrainEventSpec>::empty());
        assert(events.drop_first() =~= Seq::<DrainEventSpec>::empty());
        assert(events.last() == events.first());
        assert(drain_run(state, Seq::<DrainEventSpec>::empty()).0 == state);
        assert(drain_run(next, Seq::<DrainEventSpec>::empty()).0 == next);
        assert(drain_run(state, events).1 =~= seq![action] + Seq::<DrainActionSpec>::empty());
    } else {
        let shorter = events.drop_last();
        lemma_drain_run_first(state, shorter);
        assert(shorter.first() == events.first());
        assert(events.drop_first().drop_last() =~= shorter.drop_first());
        assert(events.drop_first().last() == events.last());
        let rest = drain_run(next, shorter.drop_first());
        let last = drain_step(rest.0, events.last()).1;
        assert((seq![action] + rest.1).push(last) =~= seq![action] + rest.1.push(last));
    }
}

/// What was written when one action came first.
pub proof fn lemma_written_first(action: DrainActionSpec, actions: Seq<DrainActionSpec>)
    ensures
        written(seq![action] + actions) == match action {
            DrainActionSpec::Write(line) => seq![line] + written(actions),
            _ => written(actions),
        },
    decreases actions.len(),
{
    let all = seq![action] + actions;
    if actions.len() == 0 {
        assert(all.drop_last() =~= Seq::<DrainActionSpec>::empty());
        assert(written(all.drop_last()) =~= Seq::<Seq<char>>::empty());
        match action {
            DrainActionSpec::Write(line) => {
                assert(Seq::<Seq<char>>::empty().push(line) =~= seq![line] + written(actions));
            },
            _ => {},
        }
    } else {
        lemma_written_first(action, actions.drop_last());
        assert(all.drop_last() =~= seq![action] + actions.drop_last());
        assert(all.last() == actions.last());
        match (action, actions.last()) {
            (DrainActionSpec::Write(line), DrainActionSpec::Write(last)) => {
                assert((seq![line] + written(actions.drop_last())).push(last) =~= seq![line]
                    + written(actions.drop_last()).push(last));
            },
            _ => {},
        }
    }
}

/// Once closed, the writer writes nothing, whatever is reported.
pub proof fn lemma_closed_writes_nothing(events: Seq<DrainEventSpec>)
    ensures
        drain_run(DrainState::Closed, events).0 == DrainState::Closed,
        written(drain_run(DrainState::Closed, events).1) == Seq::<Seq<char>>::empty(),
    decreases events.len(),
{
    if events.len() > 0 {
        lemma_closed_writes_nothing(events.drop_last());
        let asked = drain_run(DrainState::Closed, events.drop_last()).1;
        assert(asked.push(DrainActionSpec::Nothing).drop_last() =~= asked);
    }
}

/// Every write is one line that the conduit handed out, unchanged and whole:
/// what is written is, write by write, the lines that came before the
/// processes were reported finished. Nothing is written in parts, twice, or
/// after the conduit was closed.
pub proof fn lemma_writes_are_whole_lines(events: Seq<DrainEventSpec>)
    ensures
        written(drain_run(DrainState::Draining, events).1) == lines_before_finish(events),
    decreases events.len(),
{
    if events.len() > 0 {
        let rest = events.drop_first();
        lemma_drain_run_first(DrainState::Draining, events);
        match events.first() {
            DrainEventSpec::Line(line) => {
                lemma_writes_are_whole_lines(rest);
                lemma_written_first(
                    DrainActionSpec::Write(line),
                    drain_run(DrainState::Draining, rest).1,
                );
            },
            DrainEventSpec::AllFinished => {
                lemma_closed_writes_nothing(rest);
                lemma_written_first(DrainActionSpec::Close, drain_run(DrainState::Closed, rest).1);
            },
        }
    }
}

/// The failure of a run: which process failed, and how.
#[derive(Debug, PartialEq, Eq)]
pub struct Failure {
    /// Place of the process among the processes of the configuration.
    pub index: usize,
    /// Title of the process.
    pub title: String,
    /// What went wrong.
    pub error: WatchError,
}

/// Mathematical model of a `Failure`.
pub struct FailureSpec {
    pub index: int,
    pub title: Seq<char>,
    pub error: WatchErrorSpec,
}

impl View for Failure {
    type V = FailureSpec;

    open spec fn view(&self) -> FailureSpec {
        FailureSpec { index: self.index as int, title: self.title@, error: self.error@ }
    }
}

impl FailureSpec {
    /// The failure in words: the title of the process, then what went wrong.
    pub open spec fn message(self) -> Seq<char> {
        self.title + ": "@ + self.error.message()
    }
}

impl Failure {
    /// The failure in words.
    pub fn message(&self) -> (text: String)
        ensures
            text@ == self@.message(),
    {
        let mut text = self.title.clone();
        text.append(": ");
        let error = self.error.message();
        text.append(error.as_str());
        text
    }
}

/// The model of the result of a whole run.
pub open spec fn aggregate_view(result: Result<(), Failure>) -> Result<(), FailureSpec> {
    match result {
        Ok(()) => Ok(()),
        Err(failure) => Err(failure@),
    }
}

/// The first `count` outcomes are all successes.
pub open spec fn all_succeeded(outcomes: Seq<RunOutcomeSpec>, count: int) -> bool {
    forall|i: int| 0 <= i < count ==> (#[trigger] outcomes[i]) is Success
}

/// The outcome of a whole run, from the titles and the outcomes of its
/// processes in the order of the configuration: success if every process
/// succeeded, else the first process that did not, with its failure.
pub open spec fn aggregates(
    titles: Seq<Seq<char>>,
    outcomes: Seq<RunOutcomeSpec>,
    result: Result<(), FailureSpec>,
) -> bool {
    match result {
        Ok(()) => all_succeeded(outcomes, outcomes.len() as int),
        Err(failure) => {
            &&& 0 <= failure.index < outcomes.len()
            &&& all_succeeded(outcomes, failure.index)
            &&& failure.title == titles[failure.index]
            &&& outcomes[failure.index].as_result() == Err::<(), WatchErrorSpec>(failure.error)
        },
    }
}

/// The outcome of a whole run is settled by the outcomes of its processes:
/// two results that both fit are one and the same.
pub proof fn lemma_aggregate_is_settled(
    titles: Seq<Seq<char>>,
    outcomes: Seq<RunOutcomeSpec>,
    one: Result<(), FailureSpec>,
    other: Result<(), FailureSpec>,
)
    requires
        aggregates(titles, outcomes, one),
        aggregates(titles, outcomes, other),
    ensures
        one == other,
{
    if one is Err && other is Err {
        let a = one->Err_0;
        let b = other->Err_0;
        if a.index < b.index {
            assert(outcomes[a.index] is Success);
        }
        if b.index < a.index {
            assert(outcomes[b.index] is Success);
        }
        assert(Err::<(), WatchErrorSpec>(a.error) == Err::<(), WatchErrorSpec>(b.error));
        assert(a == b);
    } else if one is Err {
        assert(outcomes[one->Err_0.index] is Success);
    } else if other is Err {
        assert(outcomes[other->Err_0.index] is Success);
    } else {
        assert(one->Ok_0 == other->Ok_0);
    }
}

impl Config {
    /// The titles of the processes, in order.
    pub open spec fn titles(&self) -> Seq<Seq<char>> {
        Seq::new(self.processes@.len(), |i: int| self.processes@[i]@.title)
    }

    /// The outcome of the whole run, from the outcome of each process.
    pub fn aggregate(&self, outcomes: &Vec<RunOutcome>) -> (result: Result<(), Failure>)
        requires
            outcomes.len() == self.processes.len(),
        ensures
            aggregates(self.titles(), outcomes.deep_view(), aggregate_view(result)),
    {
        let n = outcomes.len();
        let mut i: usize = 0;
        while i < n
            invariant
                n == outcomes.len(),
                n == self.processes.len(),
                i <= n,
                all_succeeded(outcomes.deep_view(), i as int),
            decreases n - i,
        {
            match outcomes[i].to_result() {
                Ok(()) => {},
                Err(error) => {
                    let title = self.processes[i].title().to_owned();
                    return Err(Failure { index: i, title, error });
                },
            }
            i = i + 1;
        }
        Ok(())
    }
}

} // verus!
