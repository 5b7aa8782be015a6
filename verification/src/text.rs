//! Text helpers: decimal rendering and splitting on a separator.

use vstd::prelude::*;
use vstd::string::*;

verus! {

/// The ten decimal digits, in order.
pub open spec fn digits() -> Seq<char> {
    seq!['0', '1', '2', '3', '4', '5', '6', '7', '8', '9']
}

/// Decimal notation of `n`, most significant digit first, without padding.
pub open spec fn decimal(n: nat) -> Seq<char>
    decreases n,
{
    if n < 10 {
        seq![digits()[n as int]]
    } else {
        decimal(n / 10).push(digits()[(n % 10) as int])
    }
}

/// Decimal notation of a possibly negative number: a minus sign where needed,
/// then the digits of the magnitude.
pub open spec fn signed_decimal(i: int) -> Seq<char> {
    if i < 0 {
        seq!['-'] + decimal((-i) as nat)
    } else {
        decimal(i as nat)
    }
}

/// Whether `c` is one of the ten decimal digits.
pub open spec fn is_digit(c: char) -> bool {
    exists|d: int| 0 <= d < 10 && c == #[trigger] digits()[d]
}

/// Decimal notation is never empty and holds nothing but digits.
pub proof fn lemma_decimal_is_digits(n: nat)
    ensures
        decimal(n).len() >= 1,
        forall|j: int| 0 <= j < decimal(n).len() ==> is_digit(#[trigger] decimal(n)[j]),
    decreases n,
{
    if n < 10 {
        assert(decimal(n)[0] == digits()[n as int]);
    } else {
        lemma_decimal_is_digits(n / 10);
        let d = (n % 10) as int;
        assert(decimal(n).last() == digits()[d]);
        assert forall|j: int| 0 <= j < decimal(n).len() implies is_digit(
            #[trigger] decimal(n)[j],
        ) by {
            if j < decimal(n / 10).len() {
                assert(decimal(n)[j] == decimal(n / 10)[j]);
            }
        }
    }
}

/// The one-character text of the digit `d`.
fn digit_text(d: u64) -> (s: &'static str)
    requires
        d < 10,
    ensures
        s@ == seq![digits()[d as int]],
{
    let all: &'static str = "0123456789";
    proof {
        reveal_strlit("0123456789");
    }
    let at: usize = d as usize;
    let s = all.substring_char(at, at + 1);
    assert(s@ =~= seq![digits()[d as int]]);
    s
}

/// Renders `n` in decimal.
pub fn decimal_string(n: u64) -> (s: String)
    ensures
        s@ == decimal(n as nat),
    decreases n,
{
    if n < 10 {
        digit_text(n).to_owned()
    } else {
        let mut s = decimal_string(n / 10);
        s.append(digit_text(n % 10));
        assert(s@ =~= decimal(n as nat));
        s
    }
}

/// Renders `i` in decimal, with a leading minus sign when it is negative.
pub fn signed_decimal_string(i: i32) -> (s: String)
    ensures
        s@ == signed_decimal(i as int),
{
    if i < 0 {
        let magnitude: u64 = (-(i as i64)) as u64;
        let mut s = "-".to_owned();
        proof {
            reveal_strlit("-");
        }
        let digits = decimal_string(magnitude);
        s.append(digits.as_str());
        assert(s@ =~= signed_decimal(i as int));
        s
    } else {
        decimal_string(i as u64)
    }
}

/// The pieces of `s` between occurrences of `sep`, read from left to right:
/// every `sep` closes the current piece and opens a new one, and every other
/// character extends the current piece. There is always at least one piece,
/// and a piece is empty where two separators touch or one stands at an end.
pub open spec fn split(s: Seq<char>, sep: char) -> Seq<Seq<char>>
    decreases s.len(),
{
    if s.len() == 0 {
        seq![Seq::<char>::empty()]
    } else {
        let before = split(s.drop_last(), sep);
        if s.last() == sep {
            before.push(Seq::<char>::empty())
        } else {
            before.drop_last().push(before.last().push(s.last()))
        }
    }
}

/// The pieces put together again, with one `sep` between neighbours.
pub open spec fn join(pieces: Seq<Seq<char>>, sep: char) -> Seq<char>
    decreases pieces.len(),
{
    if pieces.len() == 0 {
        Seq::<char>::empty()
    } else if pieces.len() == 1 {
        pieces[0]
    } else {
        join(pieces.drop_last(), sep).push(sep) + pieces.last()
    }
}

/// How often `sep` occurs in `s`.
pub open spec fn occurrences(s: Seq<char>, sep: char) -> nat
    decreases s.len(),
{
    if s.len() == 0 {
        0
    } else {
        occurrences(s.drop_last(), sep) + if s.last() == sep { 1nat } else { 0nat }
    }
}

/// Splitting yields one piece more than there are separators, no piece holds
/// the separator, and joining the pieces gives the text back.
pub proof fn lemma_split_join(s: Seq<char>, sep: char)
    ensures
        split(s, sep).len() == occurrences(s, sep) + 1,
        forall|i: int, j: int|
            0 <= i < split(s, sep).len() && 0 <= j < split(s, sep)[i].len()
                ==> split(s, sep)[i][j] != sep,
        join(split(s, sep), sep) == s,
    decreases s.len(),
{
    if s.len() == 0 {
        assert(join(split(s, sep), sep) =~= s);
    } else {
        let shorter = s.drop_last();
        lemma_split_join(shorter, sep);
        let before = split(shorter, sep);
        let pieces = split(s, sep);
        if s.last() == sep {
            assert(pieces.drop_last() =~= before);
            assert(join(pieces, sep) =~= shorter.push(sep));
            assert(shorter.push(sep) =~= s);
        } else {
            let grown = before.last().push(s.last());
            assert(pieces.last() == grown);
            if before.len() == 1 {
                assert(before[0] == shorter);
                assert(join(pieces, sep) =~= s);
            } else {
                assert(pieces.drop_last() =~= before.drop_last());
                assert(join(before, sep) == join(before.drop_last(), sep).push(sep)
                    + before.last());
                assert(join(pieces, sep) =~= join(before, sep).push(s.last()));
                assert(shorter.push(s.last()) =~= s);
            }
        }
    }
}

/// Splits `s` at every `sep`.
pub fn split_text(s: &str, sep: char) -> (pieces: Vec<String>)
    ensures
        pieces.deep_view() == split(s@, sep),
{
    let n = s.unicode_len();
    let mut pieces: Vec<String> = Vec::new();
    let mut start: usize = 0;
    let mut i: usize = 0;
    assert(s@.take(0) =~= Seq::<char>::empty());
    for c in it: s.chars()
        invariant
            n == s@.len(),
            it.seq() == s@,
            i == it.index(),
            start <= i <= n,
            split(s@.take(i as int), sep) == pieces.deep_view().push(
                s@.subrange(start as int, i as int),
            ),
    {
        let ghost before = split(s@.take(i as int), sep);
        let ghost done = pieces.deep_view();
        proof {
            assert(s@.take(i + 1).drop_last() =~= s@.take(i as int));
            assert(s@.take(i + 1).last() == c);
        }
        if c == sep {
            let piece = s.substring_char(start, i).to_owned();
            let ghost closed = s@.subrange(start as int, i as int);
            pieces.push(piece);
            start = i + 1;
            proof {
                assert(pieces.deep_view() =~= done.push(closed));
                assert(s@.subrange(start as int, i + 1) =~= Seq::<char>::empty());
            }
        } else {
            proof {
                assert(before.drop_last() =~= done);
                assert(before.last().push(c) =~= s@.subrange(start as int, i + 1));
            }
        }
        i = i + 1;
    }
    let piece = s.substring_char(start, n).to_owned();
    pieces.push(piece);
    proof {
        assert(s@.take(n as int) =~= s@);
        assert(pieces.deep_view() =~= split(s@, sep));
    }
    pieces
}

} // verus!
