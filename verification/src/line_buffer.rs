//! The line reassembly buffer: raw fragments go in, completed lines come out.
//!
//! The buffer stands for the whole stream submitted to it so far, together with the
//! number of lines already handed out. What it holds in memory is the part of that
//! stream that has not been handed out yet.

use crate::lines::{
    close_line, join_lines, lemma_join_concat, lemma_lines_concat, lemma_reassembly, lines_of,
    tail_of, Line, Terminator, CR, LF,
};
use vstd::prelude::*;

verus! {

/// A completed line as the buffer hands it out.
#[derive(Debug, PartialEq, Eq)]
pub struct CompletedLine {
    /// The bytes of the line, without its terminator.
    pub text: Vec<u8>,
    /// The terminator that ended the line.
    pub terminator: Terminator,
}

impl View for CompletedLine {
    type V = Line;

    open spec fn view(&self) -> Line {
        Line { text: self.text@, terminator: self.terminator }
    }
}

/// The lines of `lines` as mathematical values.
pub open spec fn line_views(lines: Seq<CompletedLine>) -> Seq<Line> {
    lines.map_values(|line: CompletedLine| line@)
}

/// What a buffer stands for: every byte submitted so far, in order, and the number
/// of completed lines that have been handed out.
pub struct Stream {
    pub submitted: Seq<u8>,
    pub drained: nat,
}

impl Stream {
    /// No more lines were handed out than have been completed.
    pub open spec fn wf(self) -> bool {
        self.drained <= lines_of(self.submitted).len()
    }

    /// The stream of a buffer that has seen nothing.
    pub open spec fn fresh() -> Stream {
        Stream { submitted: Seq::empty(), drained: 0 }
    }

    /// The lines that were handed out, oldest first.
    pub open spec fn handed_out(self) -> Seq<Line> {
        lines_of(self.submitted).take(self.drained as int)
    }

    /// The completed lines that wait to be handed out, oldest first.
    pub open spec fn completed(self) -> Seq<Line> {
        lines_of(self.submitted).skip(self.drained as int)
    }

    /// The open line: what came after the last line feed.
    pub open spec fn pending(self) -> Seq<u8> {
        tail_of(self.submitted)
    }

    /// The stream after `chunk` was submitted.
    pub open spec fn submit(self, chunk: Seq<u8>) -> Stream {
        Stream { submitted: self.submitted + chunk, drained: self.drained }
    }

    /// The stream after all waiting lines were handed out.
    pub open spec fn drain(self) -> Stream {
        Stream { submitted: self.submitted, drained: lines_of(self.submitted).len() }
    }
}

/// The stream after each of `chunks` was submitted, in order.
pub open spec fn submit_all(stream: Stream, chunks: Seq<Seq<u8>>) -> Stream
    decreases chunks.len(),
{
    if chunks.len() == 0 {
        stream
    } else {
        submit_all(stream.submit(chunks.first()), chunks.drop_first())
    }
}

/// No byte is lost, added or moved: the lines handed out, then the lines that
/// wait, each with its terminator, then the open line, are what was submitted.
pub proof fn lemma_no_loss(stream: Stream)
    requires
        stream.wf(),
    ensures
        join_lines(stream.handed_out()) + join_lines(stream.completed()) + stream.pending()
            == stream.submitted,
{
    lemma_reassembly(stream.submitted);
    lemma_join_concat(stream.handed_out(), stream.completed());
    assert(stream.handed_out() + stream.completed() =~= lines_of(stream.submitted));
}

/// What a submission does to what a buffer holds: the open line is continued by
/// the fragment, the lines that this completes are added behind those that wait,
/// and what is left open is the new open line. Lines handed out are not touched.
pub proof fn lemma_submit_continues(stream: Stream, chunk: Seq<u8>)
    requires
        stream.wf(),
    ensures
        stream.submit(chunk).wf(),
        stream.submit(chunk).handed_out() == stream.handed_out(),
        stream.submit(chunk).completed() == stream.completed() + lines_of(
            stream.pending() + chunk,
        ),
        stream.submit(chunk).pending() == tail_of(stream.pending() + chunk),
{
    lemma_lines_concat(stream.submitted, chunk);
    let after = stream.submit(chunk);
    assert(after.handed_out() =~= stream.handed_out());
    assert(after.completed() =~= stream.completed() + lines_of(stream.pending() + chunk));
}

/// Submitting fragments one by one is submitting them joined together.
pub proof fn lemma_submit_all_joins(stream: Stream, chunks: Seq<Seq<u8>>)
    ensures
        submit_all(stream, chunks) == stream.submit(chunks.flatten()),
    decreases chunks.len(),
{
    if chunks.len() == 0 {
        assert(stream.submitted + chunks.flatten() =~= stream.submitted);
    } else {
        lemma_submit_all_joins(stream.submit(chunks.first()), chunks.drop_first());
        assert((stream.submitted + chunks.first()) + chunks.drop_first().flatten()
            =~= stream.submitted + chunks.flatten());
    }
}

/// Where the boundaries between fragments fall makes no difference: two ways to
/// divide the same text leave the same lines, in the same order, and the same
/// open line.
pub proof fn lemma_chunking_is_irrelevant(
    stream: Stream,
    one_way: Seq<Seq<u8>>,
    another_way: Seq<Seq<u8>>,
)
    requires
        one_way.flatten() == another_way.flatten(),
    ensures
        submit_all(stream, one_way) == submit_all(stream, another_way),
{
    lemma_submit_all_joins(stream, one_way);
    lemma_submit_all_joins(stream, another_way);
}

/// Accepts text in fragments of any shape and cuts it into lines.
pub struct LineBuffer {
    completed: Vec<CompletedLine>,
    pending: Vec<u8>,
    submitted: Ghost<Seq<u8>>,
    drained: Ghost<nat>,
}

impl View for LineBuffer {
    type V = Stream;

    closed spec fn view(&self) -> Stream {
        Stream { submitted: self.submitted@, drained: self.drained@ }
    }
}

/// The lines and the open line that a buffer keeps in memory are those of its
/// stream that were not handed out.
spec fn keeps(completed: Seq<CompletedLine>, pending: Seq<u8>, stream: Stream) -> bool {
    &&& stream.wf()
    &&& line_views(completed) == stream.completed()
    &&& pending == stream.pending()
}

impl LineBuffer {
    #[verifier::type_invariant]
    spec fn keeps_the_rest(&self) -> bool {
        keeps(self.completed@, self.pending@, self@)
    }

    /// An empty buffer.
    pub fn new() -> (buffer: LineBuffer)
        ensures
            buffer@ == Stream::fresh(),
    {
        let completed: Vec<CompletedLine> = Vec::new();
        let pending: Vec<u8> = Vec::new();
        proof {
            assert(line_views(completed@) =~= Stream::fresh().completed());
            assert(pending@ =~= Stream::fresh().pending());
        }
        LineBuffer { completed, pending, submitted: Ghost(Seq::empty()), drained: Ghost(0) }
    }

    /// Takes in the next fragment of the stream.
    ///
    /// The fragment may end anywhere, also between a carriage return and its line
    /// feed or inside a multi-byte character. An empty fragment changes nothing.
    pub fn submit(&mut self, chunk: &[u8])
        ensures
            final(self)@ == old(self)@.submit(chunk@),
            final(self)@.completed() == old(self)@.completed() + lines_of(
                old(self)@.pending() + chunk@,
            ),
            final(self)@.pending() == tail_of(old(self)@.pending() + chunk@),
            chunk@.len() == 0 ==> final(self)@ == old(self)@,
            final(self)@.wf(),
    {
        proof {
            use_type_invariant(&*self);
            lemma_submit_continues(self@, chunk@);
            assert(chunk@.len() == 0 ==> self@.submitted + chunk@ =~= self@.submitted);
        }
        let mut held = LineBuffer::new();
        std::mem::swap(self, &mut held);
        let LineBuffer { completed, pending, submitted, drained } = held;
        let mut completed = completed;
        let mut pending = pending;
        let ghost before = Stream { submitted: submitted@, drained: drained@ };
        proof {
            assert(chunk@.take(0) =~= Seq::<u8>::empty());
            assert(before.submit(chunk@.take(0)).submitted =~= before.submitted);
        }
        let mut i: usize = 0;
        while i < chunk.len()
            invariant
                i <= chunk.len(),
                keeps(completed@, pending@, before.submit(chunk@.take(i as int))),
            decreases chunk.len() - i,
        {
            let byte = chunk[i];
            let ghost seen = before.submit(chunk@.take(i as int));
            let ghost next = before.submit(chunk@.take(i + 1));
            proof {
                assert(chunk@.take(i + 1) =~= chunk@.take(i as int).push(byte));
                assert(next.submitted =~= seen.submitted.push(byte));
                assert(next.submitted.drop_last() =~= seen.submitted);
            }
            if byte == LF {
                let mut text: Vec<u8> = Vec::new();
                std::mem::swap(&mut text, &mut pending);
                let terminator = if text.len() > 0 && text[text.len() - 1] == CR {
                    text.pop();
                    Terminator::CrLf
                } else {
                    Terminator::Lf
                };
                let line = CompletedLine { text, terminator };
                proof {
                    assert(line@.text =~= close_line(seen.pending()).text);
                    assert(line@ == close_line(seen.pending()));
                    assert(lines_of(next.submitted) == lines_of(seen.submitted).push(line@));
                    assert(next.completed() =~= seen.completed().push(line@));
                    assert(line_views(completed@.push(line)) =~= line_views(completed@).push(
                        line@,
                    ));
                }
                completed.push(line);
            } else {
                pending.push(byte);
                proof {
                    assert(line_views(completed@) =~= next.completed());
                }
            }
            i += 1;
        }
        proof {
            assert(chunk@.take(chunk.len() as int) =~= chunk@);
        }
        *self = LineBuffer {
            completed,
            pending,
            submitted: Ghost(before.submitted + chunk@),
            drained,
        };
    }

    /// Removes and returns every line completed since the last call, oldest first.
    pub fn drain_completed(&mut self) -> (lines: Vec<CompletedLine>)
        ensures
            line_views(lines@) == old(self)@.completed(),
            final(self)@ == old(self)@.drain(),
            final(self)@.handed_out() == old(self)@.handed_out() + line_views(lines@),
            final(self)@.wf(),
    {
        proof {
            use_type_invariant(&*self);
        }
        let mut held = LineBuffer::new();
        std::mem::swap(self, &mut held);
        let LineBuffer { completed, pending, submitted, drained } = held;
        let ghost before = Stream { submitted: submitted@, drained: drained@ };
        let ghost after = before.drain();
        let rest: Vec<CompletedLine> = Vec::new();
        proof {
            assert(line_views(rest@) =~= after.completed());
            assert(after.handed_out() =~= before.handed_out() + before.completed());
        }
        *self = LineBuffer {
            completed: rest,
            pending,
            submitted,
            drained: Ghost(after.drained),
        };
        completed
    }

    /// The open line: what was submitted after the last line feed. Nothing is consumed.
    pub fn peek_pending(&self) -> (pending: &[u8])
        ensures
            pending@ == self@.pending(),
            self@.wf(),
    {
        proof {
            use_type_invariant(self);
        }
        self.pending.as_slice()
    }
}

} // verus!
