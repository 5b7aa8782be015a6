use watchmux::line::{Line, STDERR_COLOR, STDOUT_COLOR};
use watchmux::reader::{LineReader, ReaderAction, ReaderEvent, ReaderState, SinkClosed};

fn reader(title: &str) -> LineReader {
    LineReader::new(title.to_string(), STDOUT_COLOR)
}

fn line_event(text: &str) -> ReaderEvent {
    ReaderEvent::Line(text.to_string())
}

#[test]
fn a_new_reader_is_reading() {
    let reader = reader("a");
    assert_eq!(reader.state(), ReaderState::Reading);
    assert_eq!(reader.result(), None);
}

#[test]
fn a_line_is_formatted_and_handed_over() {
    let mut reader = reader("a");
    let action = reader.step(line_event("hello"));
    assert_eq!(action, ReaderAction::Push(Line::format("a", STDOUT_COLOR, "hello")));
    assert_eq!(reader.state(), ReaderState::Sending);
}

#[test]
fn the_reader_tags_in_its_own_colour() {
    let mut reader = LineReader::new("a".to_string(), STDERR_COLOR);
    match reader.step(line_event("oops")) {
        ReaderAction::Push(line) => {
            assert_eq!(line.as_str(), "\x1b[48;5;167m[ a ]\x1b[0m oops\n")
        }
        other => panic!("expected a push, got {other:?}"),
    }
}

#[test]
fn a_delivery_lets_the_reading_go_on() {
    let mut reader = reader("a");
    reader.step(line_event("one"));
    assert_eq!(reader.step(ReaderEvent::Delivered), ReaderAction::Read);
    assert_eq!(reader.state(), ReaderState::Reading);
}

#[test]
fn the_end_of_the_stream_ends_the_reading_cleanly() {
    let mut reader = reader("a");
    assert_eq!(reader.step(ReaderEvent::EndOfStream), ReaderAction::Finish(Ok(())));
    assert_eq!(reader.state(), ReaderState::Finished(Ok(())));
    assert_eq!(reader.result(), Some(Ok(())));
}

#[test]
fn bytes_that_cannot_be_decoded_end_the_reading_cleanly() {
    let mut reader = reader("a");
    reader.step(line_event("fine"));
    reader.step(ReaderEvent::Delivered);
    assert_eq!(reader.step(ReaderEvent::ReadFailed), ReaderAction::Finish(Ok(())));
    assert_eq!(reader.result(), Some(Ok(())));
}

#[test]
fn a_closed_sink_ends_the_reading_at_once() {
    let mut reader = reader("a");
    reader.step(line_event("lost"));
    assert_eq!(reader.step(ReaderEvent::SinkGone), ReaderAction::Finish(Err(SinkClosed)));
    assert_eq!(reader.state(), ReaderState::Finished(Err(SinkClosed)));
    assert_eq!(reader.result(), Some(Err(SinkClosed)));
}

#[test]
fn a_finished_reader_stays_finished() {
    let mut reader = reader("a");
    reader.step(line_event("lost"));
    reader.step(ReaderEvent::SinkGone);
    for event in [
        line_event("more"),
        ReaderEvent::Delivered,
        ReaderEvent::EndOfStream,
        ReaderEvent::ReadFailed,
        ReaderEvent::SinkGone,
    ] {
        assert_eq!(reader.step(event), ReaderAction::Finish(Err(SinkClosed)));
        assert_eq!(reader.state(), ReaderState::Finished(Err(SinkClosed)));
    }
}

#[test]
fn a_reader_that_reads_ignores_news_of_the_sink() {
    let mut reader = reader("a");
    assert_eq!(reader.step(ReaderEvent::Delivered), ReaderAction::Nothing);
    assert_eq!(reader.step(ReaderEvent::SinkGone), ReaderAction::Nothing);
    assert_eq!(reader.state(), ReaderState::Reading);
}

#[test]
fn a_reader_that_sends_reads_no_further_line() {
    let mut reader = reader("a");
    reader.step(line_event("first"));
    assert_eq!(reader.step(line_event("second")), ReaderAction::Nothing);
    assert_eq!(reader.step(ReaderEvent::EndOfStream), ReaderAction::Nothing);
    assert_eq!(reader.step(ReaderEvent::ReadFailed), ReaderAction::Nothing);
    assert_eq!(reader.state(), ReaderState::Sending);
    assert_eq!(reader.step(ReaderEvent::Delivered), ReaderAction::Read);
}

#[test]
fn lines_are_forwarded_in_the_order_of_the_stream() {
    let mut reader = reader("a");
    let mut pushed = Vec::new();
    for n in 0..100 {
        match reader.step(line_event(&format!("line {n}"))) {
            ReaderAction::Push(line) => pushed.push(line.into_string()),
            other => panic!("expected a push, got {other:?}"),
        }
        assert_eq!(reader.step(ReaderEvent::Delivered), ReaderAction::Read);
    }
    assert_eq!(reader.step(ReaderEvent::EndOfStream), ReaderAction::Finish(Ok(())));
    assert_eq!(pushed.len(), 100);
    for (n, line) in pushed.iter().enumerate() {
        assert_eq!(line, &format!("\x1b[48;5;173m[ a ]\x1b[0m line {n}\n"));
    }
}

#[test]
fn nothing_is_forwarded_after_the_sink_closed() {
    let mut reader = reader("a");
    let mut pushes = 0;
    let lines = ["one", "two", "three", "four"];
    for (n, text) in lines.iter().enumerate() {
        if let ReaderAction::Push(_) = reader.step(line_event(text)) {
            pushes += 1;
        }
        let answer = if n < 2 { ReaderEvent::Delivered } else { ReaderEvent::SinkGone };
        reader.step(answer);
    }
    assert_eq!(pushes, 3);
    assert_eq!(reader.result(), Some(Err(SinkClosed)));
}

#[test]
fn an_empty_stream_forwards_nothing() {
    let mut reader = reader("quiet");
    assert_eq!(reader.step(ReaderEvent::EndOfStream), ReaderAction::Finish(Ok(())));
}
