//! The line reader of one output stream. It asks the host for the next line,
//! hands the formatted line back to be pushed into the shared sink, and asks
//! for another line only once the sink has taken the last one. It stops at the
//! end of the stream, or as soon as the sink is gone.

use crate::line::{formatted, Line};
use vstd::prelude::*;

verus! {

/// The far end of the sink has been closed for good.
#[derive(Debug, Clone, Copy, PartialEq, Eq, Structural)]
pub struct SinkClosed;

/// Where a reader stands.
#[derive(Debug, Clone, Copy, PartialEq, Eq)]
pub enum ReaderState {
    /// Waiting for the stream to yield its next line.
    Reading,
    /// Waiting for the sink to take the line just formatted.
    Sending,
    /// Over, with the result of the whole reading.
    Finished(Result<(), SinkClosed>),
}

/// What the host reports to a reader.
#[derive(Debug, PartialEq, Eq)]
pub enum ReaderEvent {
    /// The stream yielded one line, given without its line ending.
    Line(String),
    /// The stream has no more data.
    EndOfStream,
    /// The stream could not be read, or held bytes that are not valid UTF-8.
    ReadFailed,
    /// The sink took the line.
    Delivered,
    /// The sink could not take the line, because its far end is closed.
    SinkGone,
}

/// Mathematical model of a `ReaderEvent`.
pub enum ReaderEventSpec {
    Line(Seq<char>),
    EndOfStream,
    ReadFailed,
    Delivered,
    SinkGone,
}

impl View for ReaderEvent {
    type V = ReaderEventSpec;

    open spec fn view(&self) -> ReaderEventSpec {
        match self {
            ReaderEvent::Line(text) => ReaderEventSpec::Line(text@),
            ReaderEvent::EndOfStream => ReaderEventSpec::EndOfStream,
            ReaderEvent::ReadFailed => ReaderEventSpec::ReadFailed,
            ReaderEvent::Delivered => ReaderEventSpec::Delivered,
            ReaderEvent::SinkGone => ReaderEventSpec::SinkGone,
        }
    }
}

/// What a reader asks of the host.
#[derive(Debug, PartialEq, Eq)]
pub enum ReaderAction {
    /// Read the next line of the stream and report it.
    Read,
    /// Push this line into the sink, waiting while the sink is full, and
    /// report whether it was taken.
    Push(Line),
    /// Stop: the reading is over with this result.
    Finish(Result<(), SinkClosed>),
    /// The event was not an answer to what the reader had asked; it changed nothing.
    Nothing,
}

/// Mathematical model of a `ReaderAction`.
pub enum ReaderActionSpec {
    Read,
    Push(Seq<char>),
    Finish(Result<(), SinkClosed>),
    Nothing,
}

impl View for ReaderAction {
    type V = ReaderActionSpec;

    open spec fn view(&self) -> ReaderActionSpec {
        match self {
            ReaderAction::Read => ReaderActionSpec::Read,
            ReaderAction::Push(line) => ReaderActionSpec::Push(line@),
            ReaderAction::Finish(result) => ReaderActionSpec::Finish(*result),
            ReaderAction::Nothing => ReaderActionSpec::Nothing,
        }
    }
}

/// Mathematical model of a reader: whose lines it tags, in which colour, and
/// where it stands.
pub struct ReaderSpec {
    pub title: Seq<char>,
    pub color: u8,
    pub state: ReaderState,
}

impl ReaderSpec {
    /// A reader that has not read anything yet.
    pub open spec fn fresh(title: Seq<char>, color: u8) -> ReaderSpec {
        ReaderSpec { title, color, state: ReaderState::Reading }
    }

    /// The reaction to one event: the reader afterwards, and what it asks for.
    ///
    /// While reading, a line is formatted and handed over for pushing; the end
    /// of the stream, and a stream that cannot be read or decoded, both end
    /// the reading cleanly. While sending, a delivery lets the reading go on,
    /// and a closed sink ends it with `SinkClosed`, at once and without a
    /// second attempt. A finished reader stays as it is. Any other event is
    /// no answer to what was asked and changes nothing.
    pub open spec fn step(self, event: ReaderEventSpec) -> (ReaderSpec, ReaderActionSpec) {
        match self.state {
            ReaderState::Reading => match event {
                ReaderEventSpec::Line(text) => (
                    ReaderSpec { state: ReaderState::Sending, ..self },
                    ReaderActionSpec::Push(formatted(self.title, self.color, text)),
                ),
                ReaderEventSpec::EndOfStream | ReaderEventSpec::ReadFailed => (
                    ReaderSpec { state: ReaderState::Finished(Ok(())), ..self },
                    ReaderActionSpec::Finish(Ok(())),
                ),
                _ => (self, ReaderActionSpec::Nothing),
            },
            ReaderState::Sending => match event {
                ReaderEventSpec::Delivered => (
                    ReaderSpec { state: ReaderState::Reading, ..self },
                    ReaderActionSpec::Read,
                ),
                ReaderEventSpec::SinkGone => (
                    ReaderSpec { state: ReaderState::Finished(Err(SinkClosed)), ..self },
                    ReaderActionSpec::Finish(Err(SinkClosed)),
                ),
                _ => (self, ReaderActionSpec::Nothing),
            },
            ReaderState::Finished(result) => (self, ReaderActionSpec::Finish(result)),
        }
    }

    /// The reader after a whole sequence of events, and everything it asked
    /// for on the way, in order.
    pub open spec fn run(self, events: Seq<ReaderEventSpec>) -> (ReaderSpec, Seq<ReaderActionSpec>)
        decreases events.len(),
    {
        if events.len() == 0 {
            (self, Seq::empty())
        } else {
            let (before, asked) = self.run(events.drop_last());
            let (after, action) = before.step(events.last());
            (after, asked.push(action))
        }
    }
}

/// The lines among `actions` that were handed over for pushing, in order.
pub open spec fn pushed(actions: Seq<ReaderActionSpec>) -> Seq<Seq<char>>
    decreases actions.len(),
{
    if actions.len() == 0 {
        Seq::empty()
    } else {
        match actions.last() {
            ReaderActionSpec::Push(line) => pushed(actions.drop_last()).push(line),
            _ => pushed(actions.drop_last()),
        }
    }
}

/// What a host reports that reads `lines` one after the other from the stream
/// and finds the sink willing each time: every line, each followed by its
/// delivery.
pub open spec fn deliveries(lines: Seq<Seq<char>>) -> Seq<ReaderEventSpec>
    decreases lines.len(),
{
    if lines.len() == 0 {
        Seq::empty()
    } else {
        deliveries(lines.drop_last()).push(ReaderEventSpec::Line(lines.last())).push(
            ReaderEventSpec::Delivered,
        )
    }
}

/// The lines of a stream as the reader `title`, `color` formats them.
pub open spec fn all_formatted(title: Seq<char>, color: u8, lines: Seq<Seq<char>>) -> Seq<
    Seq<char>,
> {
    Seq::new(lines.len(), |i: int| formatted(title, color, lines[i]))
}

/// The reader of one stream of one process.
#[derive(Debug, PartialEq, Eq)]
pub struct LineReader {
    title: String,
    color: u8,
    state: ReaderState,
}

impl View for LineReader {
    type V = ReaderSpec;

    closed spec fn view(&self) -> ReaderSpec {
        ReaderSpec { title: self.title@, color: self.color, state: self.state }
    }
}

impl LineReader {
    /// A reader for the stream of the process called `title`, tagging in
    /// `color`. It has read nothing yet: the host starts by reading a line.
    pub fn new(title: String, color: u8) -> (reader: LineReader)
        ensures
            reader@ == ReaderSpec::fresh(title@, color),
    {
        LineReader { title, color, state: ReaderState::Reading }
    }

    /// Where the reader stands.
    pub fn state(&self) -> (state: ReaderState)
        ensures
            state == self@.state,
    {
        self.state
    }

    /// The result of the reading, once it is over.
    pub fn result(&self) -> (result: Option<Result<(), SinkClosed>>)
        ensures
            result == match self@.state {
                ReaderState::Finished(r) => Some(r),
                _ => None,
            },
    {
        match self.state {
            ReaderState::Finished(r) => Some(r),
            _ => None,
        }
    }

    /// Takes in one event and says what the host is to do next.
    pub fn step(&mut self, event: ReaderEvent) -> (action: ReaderAction)
        ensures
            (final(self)@, action@) == old(self)@.step(event@),
    {
        match self.state {
            ReaderState::Reading => match event {
                ReaderEvent::Line(text) => {
                    let line = Line::format(self.title.as_str(), self.color, text.as_str());
                    self.state = ReaderState::Sending;
                    ReaderAction::Push(line)
                },
                ReaderEvent::EndOfStream | ReaderEvent::ReadFailed => {
                    self.state = ReaderState::Finished(Ok(()));
                    ReaderAction::Finish(Ok(()))
                },
                _ => ReaderAction::Nothing,
            },
            ReaderState::Sending => match event {
                ReaderEvent::Delivered => {
                    self.state = ReaderState::Reading;
                    ReaderAction::Read
                },
                ReaderEvent::SinkGone => {
                    self.state = ReaderState::Finished(Err(SinkClosed));
                    ReaderAction::Finish(Err(SinkClosed))
                },
                _ => ReaderAction::Nothing,
            },
            ReaderState::Finished(result) => ReaderAction::Finish(result),
        }
    }
}

/// One more event: the run so far, then one step.
pub proof fn lemma_run_push(
    reader: ReaderSpec,
    events: Seq<ReaderEventSpec>,
    event: ReaderEventSpec,
)
    ensures
        reader.run(events.push(event)).0 == reader.run(events).0.step(event).0,
        reader.run(events.push(event)).1 == reader.run(events).1.push(
            reader.run(events).0.step(event).1,
        ),
{
    assert(events.push(event).drop_last() =~= events);
}

/// One more action: one more pushed line if the action is a push, else none.
pub proof fn lemma_pushed_push(actions: Seq<ReaderActionSpec>, action: ReaderActionSpec)
    ensures
        pushed(actions.push(action)) == match action {
            ReaderActionSpec::Push(line) => pushed(actions).push(line),
            _ => pushed(actions),
        },
{
    assert(actions.push(action).drop_last() =~= actions);
}

/// A finished reader stays finished, and hands over nothing more.
pub proof fn lemma_finished_stays(reader: ReaderSpec, events: Seq<ReaderEventSpec>)
    requires
        reader.state is Finished,
    ensures
        reader.run(events).0 == reader,
        pushed(reader.run(events).1) == Seq::<Seq<char>>::empty(),
    decreases events.len(),
{
    if events.len() > 0 {
        lemma_finished_stays(reader, events.drop_last());
        assert(events.drop_last().push(events.last()) =~= events);
        lemma_run_push(reader, events.drop_last(), events.last());
        lemma_pushed_push(reader.run(events.drop_last()).1, reader.step(events.last()).1);
    }
}

/// A run over `first` and then `second` is the run over `first` continued
/// over `second`, and hands over what the two stretches hand over.
pub proof fn lemma_run_concat(
    reader: ReaderSpec,
    first: Seq<ReaderEventSpec>,
    second: Seq<ReaderEventSpec>,
)
    ensures
        reader.run(first + second).0 == reader.run(first).0.run(second).0,
        pushed(reader.run(first + second).1) == pushed(reader.run(first).1) + pushed(
            reader.run(first).0.run(second).1,
        ),
    decreases second.len(),
{
    let mid = reader.run(first).0;
    if second.len() == 0 {
        assert(first + second =~= first);
        assert(pushed(reader.run(first).1) + pushed(mid.run(second).1) =~= pushed(
            reader.run(first).1,
        ));
    } else {
        let shorter = second.drop_last();
        let event = second.last();
        lemma_run_concat(reader, first, shorter);
        assert((first + shorter).push(event) =~= first + second);
        assert(shorter.push(event) =~= second);
        lemma_run_push(reader, first + shorter, event);
        lemma_run_push(mid, shorter, event);
        let before = mid.run(shorter).0;
        let action = before.step(event).1;
        lemma_pushed_push(reader.run(first + shorter).1, action);
        lemma_pushed_push(mid.run(shorter).1, action);
        match action {
            ReaderActionSpec::Push(line) => {
                assert((pushed(reader.run(first).1) + pushed(mid.run(shorter).1)).push(line)
                    =~= pushed(reader.run(first).1) + pushed(mid.run(shorter).1).push(line));
            },
            _ => {},
        }
    }
}

/// While the sink takes every line, a fresh reader stays ready to read, and
/// what it has handed over for pushing is exactly the lines read so far, each
/// formatted, each once, in the order of the stream.
pub proof fn lemma_forwards_in_order(title: Seq<char>, color: u8, lines: Seq<Seq<char>>)
    ensures
        ReaderSpec::fresh(title, color).run(deliveries(lines)).0 == ReaderSpec::fresh(title, color),
        pushed(ReaderSpec::fresh(title, color).run(deliveries(lines)).1) == all_formatted(
            title,
            color,
            lines,
        ),
    decreases lines.len(),
{
    let fresh = ReaderSpec::fresh(title, color);
    if lines.len() == 0 {
        assert(pushed(fresh.run(deliveries(lines)).1) =~= all_formatted(title, color, lines));
    } else {
        let shorter = lines.drop_last();
        lemma_forwards_in_order(title, color, shorter);
        let head = deliveries(shorter);
        let with_line = head.push(ReaderEventSpec::Line(lines.last()));
        lemma_run_push(fresh, head, ReaderEventSpec::Line(lines.last()));
        lemma_run_push(fresh, with_line, ReaderEventSpec::Delivered);
        let line = formatted(title, color, lines.last());
        lemma_pushed_push(fresh.run(head).1, ReaderActionSpec::Push(line));
        lemma_pushed_push(fresh.run(with_line).1, ReaderActionSpec::Read);
        assert(all_formatted(title, color, shorter).push(line) =~= all_formatted(
            title,
            color,
            lines,
        ));
    }
}

/// A stream that ends after `lines`, with a sink that took them all: the
/// reading ends cleanly and every line was forwarded, in order.
pub proof fn lemma_whole_stream_forwarded(title: Seq<char>, color: u8, lines: Seq<Seq<char>>)
    ensures
        ReaderSpec::fresh(title, color).run(
            deliveries(lines).push(ReaderEventSpec::EndOfStream),
        ).0.state == ReaderState::Finished(Ok(())),
        pushed(
            ReaderSpec::fresh(title, color).run(
                deliveries(lines).push(ReaderEventSpec::EndOfStream),
            ).1,
        ) == all_formatted(title, color, lines),
{
    let fresh = ReaderSpec::fresh(title, color);
    lemma_forwards_in_order(title, color, lines);
    lemma_run_push(fresh, deliveries(lines), ReaderEventSpec::EndOfStream);
    lemma_pushed_push(fresh.run(deliveries(lines)).1, ReaderActionSpec::Finish(Ok(())));
}

/// A sink that takes the first `taken` lines and is closed when the next one
/// arrives: the reading ends with `SinkClosed`; the lines handed over are the
/// first `taken + 1`, in order; and whatever is reported afterwards, no
/// further line is handed over.
pub proof fn lemma_stops_when_sink_closes(
    title: Seq<char>,
    color: u8,
    lines: Seq<Seq<char>>,
    taken: int,
    afterwards: Seq<ReaderEventSpec>,
)
    requires
        0 <= taken < lines.len(),
    ensures
        ReaderSpec::fresh(title, color).run(
            deliveries(lines.take(taken)).push(ReaderEventSpec::Line(lines[taken])).push(
                ReaderEventSpec::SinkGone,
            ) + afterwards,
        ).0.state == ReaderState::Finished(Err(SinkClosed)),
        pushed(
            ReaderSpec::fresh(title, color).run(
                deliveries(lines.take(taken)).push(ReaderEventSpec::Line(lines[taken])).push(
                    ReaderEventSpec::SinkGone,
                ) + afterwards,
            ).1,
        ) == all_formatted(title, color, lines.take(taken + 1)),
{
    let fresh = ReaderSpec::fresh(title, color);
    let head = deliveries(lines.take(taken));
    let with_line = head.push(ReaderEventSpec::Line(lines[taken]));
    let until_closed = with_line.push(ReaderEventSpec::SinkGone);
    let line = formatted(title, color, lines[taken]);
    lemma_forwards_in_order(title, color, lines.take(taken));
    lemma_run_push(fresh, head, ReaderEventSpec::Line(lines[taken]));
    lemma_run_push(fresh, with_line, ReaderEventSpec::SinkGone);
    lemma_pushed_push(fresh.run(head).1, ReaderActionSpec::Push(line));
    lemma_pushed_push(fresh.run(with_line).1, ReaderActionSpec::Finish(Err(SinkClosed)));
    assert(all_formatted(title, color, lines.take(taken)).push(line) =~= all_formatted(
        title,
        color,
        lines.take(taken + 1),
    ));
    let closed = fresh.run(until_closed).0;
    lemma_finished_stays(closed, afterwards);
    lemma_run_concat(fresh, until_closed, afterwards);
    assert(pushed(fresh.run(until_closed).1) + Seq::<Seq<char>>::empty() =~= pushed(
        fresh.run(until_closed).1,
    ));
}

/// A reader that waits for the sink does nothing else: until the sink has
/// answered, it stays as it is, reads no further line and hands none over. A
/// full sink thus holds the reader back, and no line is dropped or overtaken.
pub proof fn lemma_waits_for_sink(reader: ReaderSpec, events: Seq<ReaderEventSpec>)
    requires
        reader.state == ReaderState::Sending,
        forall|i: int|
            0 <= i < events.len() ==> !(#[trigger] events[i] is Delivered) && !(events[i]
                is SinkGone),
    ensures
        reader.run(events).0 == reader,
        reader.run(events).1.len() == events.len(),
        forall|i: int|
            0 <= i < events.len() ==> #[trigger] reader.run(events).1[i]
                == ReaderActionSpec::Nothing,
    decreases events.len(),
{
    if events.len() > 0 {
        let shorter = events.drop_last();
        assert forall|i: int| 0 <= i < shorter.len() implies !(#[trigger] shorter[i]
            is Delivered) && !(shorter[i] is SinkGone) by {
            assert(shorter[i] == events[i]);
        }
        lemma_waits_for_sink(reader, shorter);
        assert(!(events[events.len() - 1] is Delivered));
    }
}

} // verus!
