//! The mathematics of cutting a byte stream into lines.
//!
//! A line ends at a line feed. A carriage return directly before that line feed
//! belongs to the terminator; any other carriage return is ordinary text.

use vstd::prelude::*;
use vstd::utf8::{
    is_char_boundary_iff_not_is_continuation_byte, pop_first_scalar, valid_utf8, valid_utf8_split,
};

verus! {

/// Line feed, the byte that ends every line.
pub const LF: u8 = 0x0a;

/// Carriage return, part of the terminator when it stands directly before a line feed.
pub const CR: u8 = 0x0d;

/// The terminator that ended a line.
#[derive(Clone, Copy, Debug, PartialEq, Eq, Structural)]
pub enum Terminator {
    /// A lone line feed.
    Lf,
    /// A carriage return followed by a line feed.
    CrLf,
}

impl Terminator {
    /// The bytes of the terminator as they stood in the stream.
    pub open spec fn bytes(self) -> Seq<u8> {
        match self {
            Terminator::Lf => seq![LF],
            Terminator::CrLf => seq![CR, LF],
        }
    }
}

/// A completed line: its text without the terminator, and the terminator.
pub struct Line {
    pub text: Seq<u8>,
    pub terminator: Terminator,
}

impl Line {
    /// The line as it stood in the stream, terminator included.
    pub open spec fn raw(self) -> Seq<u8> {
        self.text + self.terminator.bytes()
    }

    /// The text holds no line feed, and a text that ends in a carriage return was
    /// not ended by a lone line feed.
    pub open spec fn canonical(self) -> bool {
        &&& !self.text.contains(LF)
        &&& self.terminator == Terminator::Lf ==> !(self.text.len() > 0 && self.text.last() == CR)
    }
}

/// The line that a line feed completes when `held` is what came since the line feed before.
pub open spec fn close_line(held: Seq<u8>) -> Line {
    if held.len() > 0 && held.last() == CR {
        Line { text: held.drop_last(), terminator: Terminator::CrLf }
    } else {
        Line { text: held, terminator: Terminator::Lf }
    }
}

/// The part of `stream` after its last line feed: the line that is still open.
///
/// Together with [`lines_of`] this is the one cut of the stream that
/// [`is_split`] admits: see [`lemma_split_exists`] and [`lemma_split_unique`].
pub open spec fn tail_of(stream: Seq<u8>) -> Seq<u8>
    decreases stream.len(),
{
    if stream.len() == 0 {
        Seq::empty()
    } else if stream.last() == LF {
        Seq::empty()
    } else {
        tail_of(stream.drop_last()).push(stream.last())
    }
}

/// The completed lines of `stream`, in the order in which they ended: each time
/// a line feed comes, what was open until then is closed as a line.
pub open spec fn lines_of(stream: Seq<u8>) -> Seq<Line>
    decreases stream.len(),
{
    if stream.len() == 0 {
        Seq::empty()
    } else if stream.last() == LF {
        lines_of(stream.drop_last()).push(close_line(tail_of(stream.drop_last())))
    } else {
        lines_of(stream.drop_last())
    }
}

/// The lines written out one after the other, each with its terminator.
pub open spec fn join_lines(lines: Seq<Line>) -> Seq<u8>
    decreases lines.len(),
{
    if lines.len() == 0 {
        Seq::empty()
    } else {
        join_lines(lines.drop_last()) + lines.last().raw()
    }
}

/// `lines` followed by the open line `tail` is a way to cut `stream`: nothing is
/// lost or added, every line is canonical, and the open line holds no line feed.
pub open spec fn is_split(stream: Seq<u8>, lines: Seq<Line>, tail: Seq<u8>) -> bool {
    &&& join_lines(lines) + tail == stream
    &&& forall|i: int| 0 <= i < lines.len() ==> (#[trigger] lines[i]).canonical()
    &&& !tail.contains(LF)
}

/// The open line never holds a line feed.
pub proof fn lemma_tail_has_no_line_feed(stream: Seq<u8>)
    ensures
        !tail_of(stream).contains(LF),
    decreases stream.len(),
{
    if stream.len() > 0 && stream.last() != LF {
        let shorter = stream.drop_last();
        lemma_tail_has_no_line_feed(shorter);
        let tail = tail_of(stream);
        assert forall|i: int| 0 <= i < tail.len() implies tail[i] != LF by {
            if i < tail.len() - 1 {
                assert(tail[i] == tail_of(shorter)[i]);
                assert(tail_of(shorter).contains(tail_of(shorter)[i]));
            }
        }
    }
}

/// What a line feed completes is a canonical line, if no line feed was held.
pub proof fn lemma_close_line_canonical(held: Seq<u8>)
    requires
        !held.contains(LF),
    ensures
        close_line(held).canonical(),
        close_line(held).raw() == held.push(LF),
{
    let line = close_line(held);
    assert forall|i: int| 0 <= i < line.text.len() implies line.text[i] != LF by {
        assert(held.contains(held[i]));
    }
    assert(line.raw() =~= held.push(LF));
}

/// Every line that `lines_of` yields is canonical.
pub proof fn lemma_lines_canonical(stream: Seq<u8>)
    ensures
        forall|i: int|
            0 <= i < lines_of(stream).len() ==> (#[trigger] lines_of(stream)[i]).canonical(),
    decreases stream.len(),
{
    if stream.len() > 0 {
        let shorter = stream.drop_last();
        lemma_lines_canonical(shorter);
        if stream.last() == LF {
            lemma_tail_has_no_line_feed(shorter);
            lemma_close_line_canonical(tail_of(shorter));
        }
        let lines = lines_of(stream);
        assert forall|i: int| 0 <= i < lines.len() implies (#[trigger] lines[i]).canonical() by {
            if i < lines_of(shorter).len() {
                assert(lines[i] == lines_of(shorter)[i]);
            }
        }
    }
}

/// Nothing is lost or added: the lines, each with its terminator, followed by the
/// open line, are the stream again.
pub proof fn lemma_reassembly(stream: Seq<u8>)
    ensures
        join_lines(lines_of(stream)) + tail_of(stream) == stream,
    decreases stream.len(),
{
    if stream.len() == 0 {
        assert(join_lines(lines_of(stream)) + tail_of(stream) =~= stream);
    } else {
        let shorter = stream.drop_last();
        lemma_reassembly(shorter);
        if stream.last() == LF {
            let lines = lines_of(stream);
            assert(lines.last().raw() =~= tail_of(shorter).push(LF));
            assert(lines.drop_last() =~= lines_of(shorter));
            assert(join_lines(lines) + tail_of(stream) =~= (join_lines(lines_of(shorter)) + tail_of(
                shorter,
            )).push(LF));
            assert(stream =~= shorter.push(LF));
        } else {
            assert(join_lines(lines_of(stream)) + tail_of(stream) =~= (join_lines(
                lines_of(shorter),
            ) + tail_of(shorter)).push(stream.last()));
            assert(stream =~= shorter.push(stream.last()));
        }
    }
}

/// The cut that `lines_of` and `tail_of` make is a split of the stream.
pub proof fn lemma_split_exists(stream: Seq<u8>)
    ensures
        is_split(stream, lines_of(stream), tail_of(stream)),
{
    lemma_reassembly(stream);
    lemma_lines_canonical(stream);
    lemma_tail_has_no_line_feed(stream);
}

/// Joined lines are empty only when there are no lines, and otherwise end in a line feed.
pub proof fn lemma_join_ends_in_line_feed(lines: Seq<Line>)
    ensures
        lines.len() == 0 ==> join_lines(lines).len() == 0,
        lines.len() > 0 ==> join_lines(lines).len() > 0 && join_lines(lines).last() == LF,
{
}

/// A stream can be cut into canonical lines and an open line in one way only.
pub proof fn lemma_split_unique(stream: Seq<u8>, lines: Seq<Line>, tail: Seq<u8>)
    requires
        is_split(stream, lines, tail),
    ensures
        lines == lines_of(stream),
        tail == tail_of(stream),
    decreases stream.len(),
{
    lemma_join_ends_in_line_feed(lines);
    if stream.len() == 0 {
        assert(lines =~= lines_of(stream));
        assert(tail =~= tail_of(stream));
    } else {
        let shorter = stream.drop_last();
        if stream.last() != LF {
            // The last byte belongs to the open line.
            assert(tail.len() > 0);
            let open = tail.drop_last();
            assert(join_lines(lines) + open =~= shorter);
            assert forall|i: int| 0 <= i < open.len() implies open[i] != LF by {
                assert(tail.contains(tail[i]));
            }
            lemma_split_unique(shorter, lines, open);
            assert(tail =~= open.push(stream.last()));
        } else {
            // The last byte ends the last line, and the open line is empty.
            if tail.len() > 0 {
                assert(tail.contains(tail[tail.len() - 1]));
            }
            assert(tail =~= tail_of(stream));
            assert(join_lines(lines) =~= stream);
            let last = lines.last();
            let before = lines.drop_last();
            let held = match last.terminator {
                Terminator::Lf => last.text,
                Terminator::CrLf => last.text.push(CR),
            };
            assert(last.canonical());
            assert(held.push(LF) =~= last.raw());
            assert(join_lines(before) + held =~= shorter);
            assert forall|i: int| 0 <= i < held.len() implies held[i] != LF by {
                if i < last.text.len() {
                    assert(last.text.contains(last.text[i]));
                }
            }
            assert forall|i: int| 0 <= i < before.len() implies (#[trigger] before[i]).canonical(
            ) by {
                assert(before[i] == lines[i]);
            }
            lemma_split_unique(shorter, before, held);
            assert(close_line(held) == last) by {
                if last.terminator == Terminator::CrLf {
                    assert(held.drop_last() =~= last.text);
                }
            }
            assert(lines =~= before.push(last));
        }
    }
}

/// Joining distributes over concatenation of line sequences.
pub proof fn lemma_join_concat(first: Seq<Line>, second: Seq<Line>)
    ensures
        join_lines(first + second) == join_lines(first) + join_lines(second),
    decreases second.len(),
{
    if second.len() == 0 {
        assert(first + second =~= first);
        assert(join_lines(first) + join_lines(second) =~= join_lines(first));
    } else {
        lemma_join_concat(first, second.drop_last());
        assert((first + second).drop_last() =~= first + second.drop_last());
        assert(join_lines(first + second) =~= join_lines(first) + join_lines(second));
    }
}

/// Cutting is indifferent to where a stream was divided: the lines of `head + rest`
/// are those of `head`, then those that `rest` completes after the open line of `head`.
pub proof fn lemma_lines_concat(head: Seq<u8>, rest: Seq<u8>)
    ensures
        lines_of(head + rest) == lines_of(head) + lines_of(tail_of(head) + rest),
        tail_of(head + rest) == tail_of(tail_of(head) + rest),
    decreases rest.len(),
{
    let open = tail_of(head);
    if rest.len() == 0 {
        assert(head + rest =~= head);
        assert(open + rest =~= open);
        lemma_tail_has_no_line_feed(head);
        lemma_open_line_alone(open);
        assert(lines_of(head) + lines_of(open) =~= lines_of(head));
    } else {
        let shorter = rest.drop_last();
        lemma_lines_concat(head, shorter);
        assert((head + rest).drop_last() =~= head + shorter);
        assert((open + rest).drop_last() =~= open + shorter);
        assert((head + rest).last() == rest.last());
        assert((open + rest).last() == rest.last());
        if rest.last() == LF {
            assert(lines_of(head + rest) =~= lines_of(head) + lines_of(open + rest));
        }
    }
}

/// A stream without a line feed has no completed line and is its own open line.
pub proof fn lemma_open_line_alone(stream: Seq<u8>)
    requires
        !stream.contains(LF),
    ensures
        lines_of(stream) == Seq::<Line>::empty(),
        tail_of(stream) == stream,
    decreases stream.len(),
{
    if stream.len() == 0 {
        assert(tail_of(stream) =~= stream);
    } else {
        let shorter = stream.drop_last();
        assert(stream.contains(stream[stream.len() - 1]));
        assert forall|i: int| 0 <= i < shorter.len() implies shorter[i] != LF by {
            assert(stream.contains(stream[i]));
        }
        lemma_open_line_alone(shorter);
        assert(tail_of(stream) =~= stream);
    }
}

/// The first line ends at the first line feed, and the rest of the stream is cut
/// as if it stood alone.
pub proof fn lemma_first_line(stream: Seq<u8>, end: int)
    requires
        0 <= end < stream.len(),
        stream[end] == LF,
        forall|i: int| 0 <= i < end ==> stream[i] != LF,
    ensures
        lines_of(stream) == seq![close_line(stream.take(end))] + lines_of(stream.skip(end + 1)),
        tail_of(stream) == tail_of(stream.skip(end + 1)),
{
    let first = stream.take(end);
    let ended = stream.take(end + 1);
    let rest = stream.skip(end + 1);
    assert(stream =~= ended + rest);
    assert(ended.drop_last() =~= first);
    assert(!first.contains(LF));
    lemma_open_line_alone(first);
    assert(lines_of(ended) =~= seq![close_line(first)]);
    assert(tail_of(ended) + rest =~= rest);
    lemma_lines_concat(ended, rest);
}

/// No line boundary falls inside a character: if the stream is valid UTF-8, so
/// is the text of every line, and so is the open line.
pub proof fn lemma_text_stays_text(stream: Seq<u8>)
    requires
        valid_utf8(stream),
    ensures
        forall|i: int|
            0 <= i < lines_of(stream).len() ==> valid_utf8((#[trigger] lines_of(stream)[i]).text),
        valid_utf8(tail_of(stream)),
    decreases stream.len(),
{
    stream.index_of_first_ensures(LF);
    match stream.index_of_first(LF) {
        None => {
            lemma_open_line_alone(stream);
        },
        Some(end) => {
            let first = stream.take(end);
            let rest = stream.skip(end + 1);
            lemma_first_line(stream, end);
            // A line feed is a character of its own: the stream is text before it and after it.
            is_char_boundary_iff_not_is_continuation_byte(stream, end);
            valid_utf8_split(stream, end);
            let from_end = stream.subrange(end, stream.len() as int);
            assert(first =~= stream.subrange(0, end));
            assert(from_end[0] == LF);
            assert(pop_first_scalar(from_end) =~= rest);
            lemma_text_stays_text(rest);
            // A carriage return is one too: the text before it is text.
            let line = close_line(first);
            if first.len() > 0 && first.last() == CR {
                is_char_boundary_iff_not_is_continuation_byte(first, first.len() - 1);
                valid_utf8_split(first, first.len() - 1);
                assert(line.text =~= first.subrange(0, first.len() - 1));
            }
            let lines = lines_of(stream);
            assert forall|i: int| 0 <= i < lines.len() implies valid_utf8(
                (#[trigger] lines[i]).text,
            ) by {
                if i > 0 {
                    assert(lines[i] == lines_of(rest)[i - 1]);
                }
            }
        },
    }
}

/// Lines that have ended stay as they are, whatever is submitted afterwards.
pub proof fn lemma_lines_prefix(head: Seq<u8>, rest: Seq<u8>)
    ensures
        lines_of(head).len() <= lines_of(head + rest).len(),
        lines_of(head + rest).take(lines_of(head).len() as int) == lines_of(head),
{
    lemma_lines_concat(head, rest);
    assert(lines_of(head + rest).take(lines_of(head).len() as int) =~= lines_of(head));
}

} // verus!
