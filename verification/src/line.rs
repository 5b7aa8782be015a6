//! Output lines: how a line of a child's output is tagged with the title of
//! its process, and the reader that forwards the lines of one stream to the
//! shared sink, one at a time.

use crate::text::{decimal, is_digit, lemma_decimal_is_digits};
use ansi_term::{Color, Style};
use vstd::prelude::*;
use vstd::string::*;

verus! {

/// Background colour of the tag in front of lines from a child's standard output.
pub const STDOUT_COLOR: u8 = 173;

/// Background colour of the tag in front of lines from a child's standard error.
pub const STDERR_COLOR: u8 = 167;

/// `text` on the background colour `color` of the 256-colour palette: the
/// escape sequence that selects the background, the text, and the sequence
/// that resets all styles.
pub open spec fn painted(color: u8, text: Seq<char>) -> Seq<char> {
    seq!['\x1b', '[', '4', '8', ';', '5', ';'] + decimal(color as nat) + seq!['m'] + text
        + seq!['\x1b', '[', '0', 'm']
}

/// The tag of a process: its title between square brackets, painted.
pub open spec fn tag(title: Seq<char>, color: u8) -> Seq<char> {
    painted(color, seq!['[', ' '] + title + seq![' ', ']'])
}

/// One output line as it is written out: the tag, a space, the text of the
/// line, and a newline.
pub open spec fn formatted(title: Seq<char>, color: u8, text: Seq<char>) -> Seq<char> {
    tag(title, color) + seq![' '] + text + seq!['\n']
}

/// Whether `s` is a complete formatted line of some process.
pub open spec fn is_line(s: Seq<char>) -> bool {
    exists|title: Seq<char>, color: u8, text: Seq<char>|
        s == #[trigger] formatted(title, color, text)
}

/// Calls `ansi_term::Style::paint` with the style that `Style::new().on(Color::Fixed(color))`
/// builds, and renders the painted text with its `Display` impl. For a style
/// that sets nothing but a fixed background, that impl writes `ESC [ 4 8 ; 5 ;`,
/// the colour number in decimal and `m`, then the text unchanged, then the
/// reset sequence `ESC [ 0 m`.
#[verifier::external_body]
fn paint_on(color: u8, text: &str) -> (out: String)
    ensures
        out@ == painted(color, text@),
{
    Style::new().on(Color::Fixed(color)).paint(text).to_string()
}

/// A complete formatted line. It can only be made by formatting, so whoever
/// holds one holds a whole line, tag and newline included.
#[derive(Debug, PartialEq, Eq)]
pub struct Line {
    text: String,
}

impl View for Line {
    type V = Seq<char>;

    closed spec fn view(&self) -> Seq<char> {
        self.text@
    }
}

impl Line {
    #[verifier::type_invariant]
    spec fn inv(self) -> bool {
        is_line(self.text@)
    }

    /// Formats one line of output of the process called `title`.
    pub fn format(title: &str, color: u8, text: &str) -> (line: Line)
        ensures
            line@ == formatted(title@, color, text@),
    {
        let mut label = "[ ".to_owned();
        label.append(title);
        label.append(" ]");
        let mut out = paint_on(color, label.as_str());
        out.append(" ");
        out.append(text);
        out.append("\n");
        proof {
            reveal_strlit("[ ");
            reveal_strlit(" ]");
            reveal_strlit(" ");
            reveal_strlit("\n");
            assert(label@ =~= seq!['[', ' '] + title@ + seq![' ', ']']);
            assert(out@ =~= formatted(title@, color, text@));
        }
        Line { text: out }
    }

    /// Brings to mind that the line is a whole one.
    pub(crate) fn recall_whole(&self)
        ensures
            is_line(self@),
    {
        proof {
            use_type_invariant(self);
        }
    }

    /// The characters of the line.
    pub fn as_str(&self) -> (text: &str)
        ensures
            text@ == self@,
            is_line(self@),
    {
        proof {
            use_type_invariant(self);
        }
        self.text.as_str()
    }

    /// Gives up the line for its text.
    pub fn into_string(self) -> (text: String)
        ensures
            text@ == self@,
            is_line(self@),
    {
        proof {
            use_type_invariant(&self);
        }
        self.text
    }
}

/// Every formatted line ends in a newline, and starts with the escape
/// character that opens the tag.
pub proof fn lemma_line_shape(s: Seq<char>)
    requires
        is_line(s),
    ensures
        s.len() >= 2,
        s.first() == '\x1b',
        s.last() == '\n',
{
    let (title, color, text) = choose|title: Seq<char>, color: u8, text: Seq<char>|
        s == #[trigger] formatted(title, color, text);
    assert(s == formatted(title, color, text));
}

/// A line made from a title and a text without newline holds one newline, at
/// its very end: written out, it is one line and no more.
pub proof fn lemma_one_newline(title: Seq<char>, color: u8, text: Seq<char>)
    requires
        forall|j: int| 0 <= j < title.len() ==> title[j] != '\n',
        forall|j: int| 0 <= j < text.len() ==> text[j] != '\n',
    ensures
        formatted(title, color, text).last() == '\n',
        forall|j: int|
            0 <= j < formatted(title, color, text).len() - 1 ==> formatted(title, color, text)[j]
                != '\n',
{
    let number = decimal(color as nat);
    lemma_decimal_is_digits(color as nat);
    assert forall|j: int| 0 <= j < number.len() implies number[j] != '\n' by {
        assert(is_digit(number[j]));
    }
    let label = seq!['[', ' '] + title + seq![' ', ']'];
    assert forall|j: int| 0 <= j < label.len() implies label[j] != '\n' by {
        if 2 <= j < 2 + title.len() {
            assert(label[j] == title[j - 2]);
        }
    }
    let opening = seq!['\x1b', '[', '4', '8', ';', '5', ';'];
    let reset = seq!['\x1b', '[', '0', 'm'];
    let painted_label = opening + number + seq!['m'] + label + reset;
    assert forall|j: int| 0 <= j < painted_label.len() implies painted_label[j] != '\n' by {
        if j < 7 {
        } else if j < 7 + number.len() {
            assert(painted_label[j] == number[j - 7]);
        } else if j < 8 + number.len() {
        } else if j < 8 + number.len() + label.len() {
            assert(painted_label[j] == label[j - 8 - number.len()]);
        } else {
        }
    }
    let line = formatted(title, color, text);
    assert(line =~= painted_label + seq![' '] + text + seq!['\n']);
    assert forall|j: int| 0 <= j < line.len() - 1 implies line[j] != '\n' by {
        if j < painted_label.len() {
            assert(line[j] == painted_label[j]);
        } else if j == painted_label.len() {
        } else {
            assert(line[j] == text[j - painted_label.len() - 1]);
        }
    }
}

} // verus!
