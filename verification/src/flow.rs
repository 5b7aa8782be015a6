//! How lines travel from the readers through the conduit to the writer. The
//! conduit is the host's: a queue of bounded size that hands lines out in the
//! order in which it took them in, and that makes a reader wait while it is
//! full. This module models a run on such a conduit, with the readers and the
//! writer reacting as the library makes them, and shows that under every
//! interleaving and for every bound each line of each stream arrives exactly
//! once and in the order of its stream.

use crate::orchestrator::{drain_step, DrainActionSpec, DrainEventSpec, DrainState};
use crate::reader::{all_formatted, ReaderActionSpec, ReaderEventSpec, ReaderSpec, ReaderState};
use vstd::prelude::*;

verus! {

/// A line on its way, with the number of the reader that formatted it.
pub struct Parcel {
    pub origin: int,
    pub line: Seq<char>,
}

/// One reader with its stream.
pub struct Producer {
    /// The reader.
    pub reader: ReaderSpec,
    /// The lines that the stream has yielded so far.
    pub read: Seq<Seq<char>>,
    /// The formatted line that waits for room in the conduit, if any.
    pub pending: Option<Seq<char>>,
}

/// One thing that happens in a run.
pub enum Move {
    /// The stream of this producer yields a line.
    Read { producer: int, text: Seq<char> },
    /// The stream of this producer ends.
    End { producer: int },
    /// This producer offers its waiting line to the conduit.
    Offer { producer: int },
    /// The writer takes the oldest line out of the conduit.
    Take,
}

/// A run in progress.
pub struct Flow {
    /// How many lines the conduit holds at most.
    pub capacity: nat,
    /// The producers, by number.
    pub producers: Seq<Producer>,
    /// The lines in the conduit, oldest first.
    pub conduit: Seq<Parcel>,
    /// The lines written so far, write by write.
    pub written: Seq<Parcel>,
}

/// The lines among `parcels` that came from `origin`, in order.
pub open spec fn lines_from(origin: int, parcels: Seq<Parcel>) -> Seq<Seq<char>>
    decreases parcels.len(),
{
    if parcels.len() == 0 {
        Seq::empty()
    } else if parcels.last().origin == origin {
        lines_from(origin, parcels.drop_last()).push(parcels.last().line)
    } else {
        lines_from(origin, parcels.drop_last())
    }
}

/// The waiting line as a sequence of at most one line.
pub open spec fn waiting(pending: Option<Seq<char>>) -> Seq<Seq<char>> {
    match pending {
        Some(line) => seq![line],
        None => Seq::empty(),
    }
}

impl Producer {
    /// A producer whose reader is fresh and whose stream has yielded nothing.
    pub open spec fn fresh(reader: ReaderSpec) -> Producer {
        Producer {
            reader: ReaderSpec::fresh(reader.title, reader.color),
            read: Seq::empty(),
            pending: None,
        }
    }

    /// The stream yields `text`. Only a reader that is reading takes it.
    pub open spec fn read_line(self, text: Seq<char>) -> Producer {
        match self.reader.step(ReaderEventSpec::Line(text)) {
            (reader, ReaderActionSpec::Push(line)) => Producer {
                reader,
                read: self.read.push(text),
                pending: Some(line),
            },
            _ => self,
        }
    }

    /// The stream ends. Only a reader that is reading notices.
    pub open spec fn end(self) -> Producer {
        Producer { reader: self.reader.step(ReaderEventSpec::EndOfStream).0, ..self }
    }

    /// The conduit took the waiting line.
    pub open spec fn delivered(self) -> Producer {
        Producer {
            reader: self.reader.step(ReaderEventSpec::Delivered).0,
            pending: None,
            ..self
        }
    }

    /// A line waits exactly while the reader is sending.
    pub open spec fn steady(self) -> bool {
        self.pending is Some <==> self.reader.state == ReaderState::Sending
    }
}

impl Flow {
    /// The start of a run: nothing read, nothing in the conduit, nothing written.
    pub open spec fn start(capacity: nat, readers: Seq<ReaderSpec>) -> Flow {
        Flow {
            capacity,
            producers: Seq::new(readers.len(), |i: int| Producer::fresh(readers[i])),
            conduit: Seq::empty(),
            written: Seq::empty(),
        }
    }

    /// The run after one move.
    ///
    /// An offer puts the waiting line at the end of the conduit if there is
    /// room; if the conduit is full nothing happens, and the producer goes on
    /// waiting with its line. A take hands the oldest line to the writer, which
    /// reacts as it does while draining.
    pub open spec fn advance(self, m: Move) -> Flow {
        match m {
            Move::Read { producer, text } => if 0 <= producer < self.producers.len() {
                Flow {
                    producers: self.producers.update(
                        producer,
                        self.producers[producer].read_line(text),
                    ),
                    ..self
                }
            } else {
                self
            },
            Move::End { producer } => if 0 <= producer < self.producers.len() {
                Flow {
                    producers: self.producers.update(producer, self.producers[producer].end()),
                    ..self
                }
            } else {
                self
            },
            Move::Offer { producer } => if 0 <= producer < self.producers.len()
                && self.conduit.len() < self.capacity {
                match self.producers[producer].pending {
                    Some(line) => Flow {
                        producers: self.producers.update(
                            producer,
                            self.producers[producer].delivered(),
                        ),
                        conduit: self.conduit.push(Parcel { origin: producer, line }),
                        ..self
                    },
                    None => self,
                }
            } else {
                self
            },
            Move::Take => if self.conduit.len() > 0 {
                match drain_step(
                    DrainState::Draining,
                    DrainEventSpec::Line(self.conduit.first().line),
                ).1 {
                    DrainActionSpec::Write(line) => Flow {
                        conduit: self.conduit.drop_first(),
                        written: self.written.push(
                            Parcel { origin: self.conduit.first().origin, line },
                        ),
                        ..self
                    },
                    _ => Flow { conduit: self.conduit.drop_first(), ..self },
                }
            } else {
                self
            },
        }
    }

    /// The run after a sequence of moves.
    pub open spec fn after(self, moves: Seq<Move>) -> Flow
        decreases moves.len(),
    {
        if moves.len() == 0 {
            self
        } else {
            self.after(moves.drop_last()).advance(moves.last())
        }
    }

    /// The lines of producer `i` that are under way or have arrived: those
    /// written, then those in the conduit, then the one that waits.
    pub open spec fn under_way(self, i: int) -> Seq<Seq<char>> {
        lines_from(i, self.written) + lines_from(i, self.conduit) + waiting(
            self.producers[i].pending,
        )
    }

    /// Every line that producer `i` has read is accounted for: formatted by
    /// its reader, it is written, in the conduit, or waiting; once, and in the
    /// order in which the stream yielded it.
    pub open spec fn accounts_for(self, i: int) -> bool {
        let producer = self.producers[i];
        self.under_way(i) == all_formatted(
            producer.reader.title,
            producer.reader.color,
            producer.read,
        )
    }

    /// What holds throughout a run: the conduit stays within its bound, no
    /// line is in it or written that came from nowhere, and every producer is
    /// steady and has all its lines accounted for.
    pub open spec fn sound(self) -> bool {
        &&& self.conduit.len() <= self.capacity
        &&& forall|i: int| 0 <= i < self.producers.len() ==> (#[trigger] self.producers[i]).steady()
        &&& forall|i: int| 0 <= i < self.producers.len() ==> #[trigger] self.accounts_for(i)
    }
}

/// Putting a parcel at the end adds its line for its origin and for no other.
pub proof fn lemma_lines_from_push(origin: int, parcels: Seq<Parcel>, parcel: Parcel)
    ensures
        lines_from(origin, parcels.push(parcel)) == if parcel.origin == origin {
            lines_from(origin, parcels).push(parcel.line)
        } else {
            lines_from(origin, parcels)
        },
{
    assert(parcels.push(parcel).drop_last() =~= parcels);
}

/// Taking the oldest parcel away takes its line from the front for its
/// origin, and changes nothing for any other.
pub proof fn lemma_lines_from_drop_first(origin: int, parcels: Seq<Parcel>)
    requires
        parcels.len() > 0,
    ensures
        lines_from(origin, parcels) == if parcels.first().origin == origin {
            seq![parcels.first().line] + lines_from(origin, parcels.drop_first())
        } else {
            lines_from(origin, parcels.drop_first())
        },
    decreases parcels.len(),
{
    if parcels.len() == 1 {
        assert(parcels.drop_last() =~= Seq::<Parcel>::empty());
        assert(parcels.drop_first() =~= Seq::<Parcel>::empty());
        assert(lines_from(origin, Seq::<Parcel>::empty()) =~= Seq::<Seq<char>>::empty());
        if parcels.first().origin == origin {
            assert(Seq::<Seq<char>>::empty().push(parcels.first().line) =~= seq![
                parcels.first().line,
            ] + Seq::<Seq<char>>::empty());
        }
    } else {
        let shorter = parcels.drop_last();
        lemma_lines_from_drop_first(origin, shorter);
        assert(shorter.first() == parcels.first());
        assert(parcels.drop_first().drop_last() =~= shorter.drop_first());
        assert(parcels.drop_first().last() == parcels.last());
        if parcels.last().origin == origin && parcels.first().origin == origin {
            assert((seq![parcels.first().line] + lines_from(origin, shorter.drop_first())).push(
                parcels.last().line,
            ) =~= seq![parcels.first().line] + lines_from(origin, shorter.drop_first()).push(
                parcels.last().line,
            ));
        }
    }
}

/// One move keeps a sound run sound.
pub proof fn lemma_advance_keeps_sound(flow: Flow, m: Move)
    requires
        flow.sound(),
    ensures
        flow.advance(m).sound(),
        flow.advance(m).capacity == flow.capacity,
        flow.advance(m).producers.len() == flow.producers.len(),
{
    let next = flow.advance(m);
    assert forall|i: int| 0 <= i < next.producers.len() implies (
    #[trigger] next.producers[i]).steady() && next.accounts_for(i) by {
        let before = flow.producers[i];
        assert(before.steady());
        assert(flow.accounts_for(i));
        match m {
            Move::Read { producer, text } => {
                if producer == i && before.reader.state == ReaderState::Reading {
                    let line = next.producers[i].pending->0;
                    assert(next.under_way(i) =~= flow.under_way(i).push(line));
                    assert(all_formatted(
                        before.reader.title,
                        before.reader.color,
                        before.read.push(text),
                    ) =~= all_formatted(before.reader.title, before.reader.color, before.read).push(
                        line,
                    ));
                }
            },
            Move::End { producer } => {},
            Move::Offer { producer } => {
                if 0 <= producer < flow.producers.len() && flow.conduit.len() < flow.capacity
                    && flow.producers[producer].pending is Some {
                    let line = flow.producers[producer].pending->0;
                    lemma_lines_from_push(i, flow.conduit, Parcel { origin: producer, line });
                    if producer == i {
                        assert(next.under_way(i) =~= flow.under_way(i));
                    }
                }
            },
            Move::Take => {
                if flow.conduit.len() > 0 {
                    let oldest = flow.conduit.first();
                    lemma_lines_from_drop_first(i, flow.conduit);
                    lemma_lines_from_push(i, flow.written, oldest);
                    if oldest.origin == i {
                        assert(next.under_way(i) =~= flow.under_way(i));
                    }
                }
            },
        }
    }
}

/// Whatever the bound of the conduit, however many readers there are, and in
/// whatever order streams yield lines, readers offer them and the writer
/// takes them: the conduit never holds more than its bound, and every line
/// that a stream has yielded is written, in the conduit or still waiting with
/// its reader, formatted, exactly once and in the order of its stream. A full
/// conduit delays lines; it never loses, repeats or reorders one.
pub proof fn lemma_no_line_lost(capacity: nat, readers: Seq<ReaderSpec>, moves: Seq<Move>)
    ensures
        Flow::start(capacity, readers).after(moves).sound(),
        Flow::start(capacity, readers).after(moves).capacity == capacity,
        Flow::start(capacity, readers).after(moves).producers.len() == readers.len(),
    decreases moves.len(),
{
    let start = Flow::start(capacity, readers);
    if moves.len() == 0 {
        assert forall|i: int| 0 <= i < start.producers.len() implies start.accounts_for(i) by {
            assert(start.under_way(i) =~= Seq::<Seq<char>>::empty());
            let producer = start.producers[i];
            assert(all_formatted(producer.reader.title, producer.reader.color, producer.read)
                =~= Seq::<Seq<char>>::empty());
        }
    } else {
        lemma_no_line_lost(capacity, readers, moves.drop_last());
        lemma_advance_keeps_sound(start.after(moves.drop_last()), moves.last());
    }
}

/// What was written is what the readers handed over, kept in order: the lines
/// written for one producer are the first of the lines that its stream has
/// yielded, formatted, in the order of the stream.
pub proof fn lemma_written_in_stream_order(
    capacity: nat,
    readers: Seq<ReaderSpec>,
    moves: Seq<Move>,
    i: int,
)
    requires
        0 <= i < readers.len(),
    ensures
        ({
            let flow = Flow::start(capacity, readers).after(moves);
            let written = lines_from(i, flow.written);
            let all = all_formatted(readers[i].title, readers[i].color, flow.producers[i].read);
            written.len() <= all.len() && written == all.take(written.len() as int)
        }),
{
    lemma_no_line_lost(capacity, readers, moves);
    lemma_reader_kept(capacity, readers, moves, i);
    let flow = Flow::start(capacity, readers).after(moves);
    assert(flow.accounts_for(i));
    let written = lines_from(i, flow.written);
    let rest = lines_from(i, flow.conduit) + waiting(flow.producers[i].pending);
    assert(flow.under_way(i) =~= written + rest);
    assert((written + rest).take(written.len() as int) =~= written);
}

/// A producer keeps the title and the colour of its reader throughout.
pub proof fn lemma_reader_kept(capacity: nat, readers: Seq<ReaderSpec>, moves: Seq<Move>, i: int)
    requires
        0 <= i < readers.len(),
    ensures
        Flow::start(capacity, readers).after(moves).producers.len() == readers.len(),
        Flow::start(capacity, readers).after(moves).producers[i].reader.title == readers[i].title,
        Flow::start(capacity, readers).after(moves).producers[i].reader.color == readers[i].color,
    decreases moves.len(),
{
    if moves.len() > 0 {
        lemma_reader_kept(capacity, readers, moves.drop_last(), i);
    }
}

} // verus!
