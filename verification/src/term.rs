//! The display driver: a scrollback history that only grows, above a live
//! viewport of fixed height whose content is replaced as a whole.

use crate::content::{Content, LiveContent};
use crate::line_buffer::{line_views, LineBuffer, Stream};
use crate::lines::{lemma_lines_prefix, lines_of, Line};
use crate::text::{decode_lossy, shows, string_views, utf8_lossy};
use vstd::prelude::*;

verus! {

/// The texts under which `lines` are shown.
pub open spec fn texts(lines: Seq<Line>) -> Seq<Seq<char>> {
    lines.map_values(|line: Line| utf8_lossy(line.text))
}

/// The history above the viewport. Lines are appended and never changed,
/// reordered or taken back.
pub struct ScrollbackRegion {
    history: Vec<String>,
}

impl View for ScrollbackRegion {
    type V = Seq<Seq<char>>;

    closed spec fn view(&self) -> Seq<Seq<char>> {
        string_views(self.history@)
    }
}

impl ScrollbackRegion {
    /// A history without lines.
    pub fn new() -> (region: ScrollbackRegion)
        ensures
            region@ == Seq::<Seq<char>>::empty(),
    {
        let region = ScrollbackRegion { history: Vec::new() };
        assert(region@ =~= Seq::<Seq<char>>::empty());
        region
    }

    /// Appends one line below all earlier ones.
    pub fn append(&mut self, line: String)
        ensures
            final(self)@ == old(self)@.push(line@),
    {
        self.history.push(line);
        assert(final(self)@ =~= old(self)@.push(line@));
    }

    /// The lines appended so far, oldest first.
    pub fn lines(&self) -> (lines: &Vec<String>)
        ensures
            string_views(lines@) == self@,
    {
        &self.history
    }
}

/// The live area: a fixed number of rows whose content is replaced as a whole.
pub struct Viewport {
    height: u16,
    content: Option<LiveContent>,
}

/// A viewport as a mathematical value.
pub struct Area {
    pub height: u16,
    pub content: Option<Content>,
}

impl View for Viewport {
    type V = Area;

    closed spec fn view(&self) -> Area {
        Area {
            height: self.height,
            content: match self.content {
                Some(content) => Some(content@),
                None => None,
            },
        }
    }
}

impl Viewport {
    #[verifier::type_invariant]
    spec fn has_rows(&self) -> bool {
        self.height > 0
    }

    /// A viewport of `height` rows that shows nothing yet.
    pub fn new(height: u16) -> (viewport: Viewport)
        requires
            height > 0,
        ensures
            viewport@ == (Area { height, content: None }),
    {
        Viewport { height, content: None }
    }

    /// The number of rows, which never changes and is never zero.
    pub fn height(&self) -> (height: u16)
        ensures
            height == self@.height,
            height > 0,
    {
        proof {
            use_type_invariant(self);
        }
        self.height
    }

    /// What the viewport shows, if anything was rendered yet.
    pub fn content(&self) -> (content: Option<&LiveContent>)
        ensures
            match content {
                Some(shown) => self@.content == Some(shown@),
                None => self@.content is None,
            },
    {
        self.content.as_ref()
    }

    /// Replaces what the viewport shows.
    pub fn replace(&mut self, content: LiveContent)
        ensures
            final(self)@ == (Area { height: old(self)@.height, content: Some(content@) }),
    {
        proof {
            use_type_invariant(&*self);
        }
        self.content = Some(content);
    }
}

/// What the display driver stands for: the stream written to it, of which the
/// lines handed out are the history, and the viewport.
pub struct DisplayState {
    pub stream: Stream,
    pub viewport: Area,
}

impl DisplayState {
    /// No more lines were flushed than have been completed, and the viewport has rows.
    pub open spec fn wf(self) -> bool {
        &&& self.stream.wf()
        &&& self.viewport.height > 0
    }

    /// A display of `height` rows that has seen nothing.
    pub open spec fn fresh(height: u16) -> DisplayState {
        DisplayState { stream: Stream::fresh(), viewport: Area { height, content: None } }
    }

    /// The scrollback history: the lines flushed so far, oldest first.
    pub open spec fn history(self) -> Seq<Seq<char>> {
        texts(self.stream.handed_out())
    }

    /// The lines that the next flush appends to the history.
    pub open spec fn unflushed(self) -> Seq<Seq<char>> {
        texts(self.stream.completed())
    }

    /// The display after `buf` was written to it.
    pub open spec fn write(self, buf: Seq<u8>) -> DisplayState {
        DisplayState { stream: self.stream.submit(buf), viewport: self.viewport }
    }

    /// The display after a flush.
    pub open spec fn flush(self) -> DisplayState {
        DisplayState { stream: self.stream.drain(), viewport: self.viewport }
    }

    /// The display after `content` was rendered.
    pub open spec fn render(self, content: Content) -> DisplayState {
        DisplayState {
            stream: self.stream,
            viewport: Area { height: self.viewport.height, content: Some(content) },
        }
    }
}

/// A second flush with nothing written in between moves nothing: the first left
/// no line behind, and the display is as the first flush left it.
pub proof fn lemma_flush_is_idempotent(display: DisplayState)
    requires
        display.wf(),
    ensures
        display.flush().unflushed() == Seq::<Seq<char>>::empty(),
        display.flush().flush() == display.flush(),
        display.flush().history() == display.history() + display.unflushed(),
{
    let flushed = display.flush();
    assert(flushed.unflushed() =~= Seq::<Seq<char>>::empty());
    assert(flushed.history() =~= display.history() + display.unflushed());
}

/// The history is always the first lines of what was written, in the order in
/// which they were completed, each exactly once; the lines that follow wait for
/// the next flush, after which the history holds them all.
pub proof fn lemma_history_in_order(display: DisplayState)
    requires
        display.wf(),
    ensures
        display.history() + display.unflushed() == texts(lines_of(display.stream.submitted)),
        display.history() == texts(lines_of(display.stream.submitted)).take(
            display.stream.drained as int,
        ),
        display.flush().history() == texts(lines_of(display.stream.submitted)),
{
    let all = lines_of(display.stream.submitted);
    assert(display.history() + display.unflushed() =~= texts(all));
    assert(display.history() =~= texts(all).take(display.stream.drained as int));
    assert(display.flush().history() =~= texts(all));
}

/// The display after each of `chunks` was written to it, in order.
pub open spec fn write_all(display: DisplayState, chunks: Seq<Seq<u8>>) -> DisplayState
    decreases chunks.len(),
{
    if chunks.len() == 0 {
        display
    } else {
        write_all(display.write(chunks.first()), chunks.drop_first())
    }
}

/// Writing fragments one by one is writing them joined together.
pub proof fn lemma_write_all_joins(display: DisplayState, chunks: Seq<Seq<u8>>)
    ensures
        write_all(display, chunks) == display.write(chunks.flatten()),
    decreases chunks.len(),
{
    let written = display.stream.submitted;
    if chunks.len() == 0 {
        assert(written + chunks.flatten() =~= written);
    } else {
        lemma_write_all_joins(display.write(chunks.first()), chunks.drop_first());
        assert((written + chunks.first()) + chunks.drop_first().flatten() =~= written
            + chunks.flatten());
    }
}

/// The history does not depend on where the boundaries between fragments fell:
/// two ways to divide the same text put the same lines into the history, in the
/// same order.
pub proof fn lemma_history_ignores_chunking(
    display: DisplayState,
    one_way: Seq<Seq<u8>>,
    another_way: Seq<Seq<u8>>,
)
    requires
        one_way.flatten() == another_way.flatten(),
    ensures
        write_all(display, one_way) == write_all(display, another_way),
        write_all(display, one_way).flush().history() == write_all(
            display,
            another_way,
        ).flush().history(),
{
    lemma_write_all_joins(display, one_way);
    lemma_write_all_joins(display, another_way);
}

/// Writing leaves the history as it is, whatever is written.
pub proof fn lemma_write_keeps_history(display: DisplayState, buf: Seq<u8>)
    requires
        display.wf(),
    ensures
        display.write(buf).wf(),
        display.write(buf).history() == display.history(),
        display.write(buf).viewport == display.viewport,
{
    lemma_lines_prefix(display.stream.submitted, buf);
    assert(display.write(buf).stream.handed_out() =~= display.stream.handed_out());
}

/// The display driver. Text written to it is cut into lines; a flush moves the
/// completed lines into the scrollback history; a render replaces the viewport.
pub struct Term {
    buffer: LineBuffer,
    scrollback: ScrollbackRegion,
    viewport: Viewport,
}

impl View for Term {
    type V = DisplayState;

    closed spec fn view(&self) -> DisplayState {
        DisplayState { stream: self.buffer@, viewport: self.viewport@ }
    }
}

impl Term {
    #[verifier::type_invariant]
    spec fn history_is_flushed_lines(&self) -> bool {
        &&& self@.wf()
        &&& self.scrollback@ == self@.history()
    }

    /// A display driver with an empty history above a viewport of `height` rows.
    pub fn new(height: u16) -> (term: Term)
        requires
            height > 0,
        ensures
            term@ == DisplayState::fresh(height),
    {
        let buffer = LineBuffer::new();
        let scrollback = ScrollbackRegion::new();
        let viewport = Viewport::new(height);
        proof {
            assert(scrollback@ =~= texts(buffer@.handed_out()));
        }
        Term { buffer, scrollback, viewport }
    }

    /// Moves the parts out, leaving a driver that has seen nothing in their place.
    fn take_parts(&mut self) -> (parts: (LineBuffer, ScrollbackRegion, Viewport))
        ensures
            parts.0@ == old(self)@.stream,
            parts.2@ == old(self)@.viewport,
            parts.1@ == old(self)@.history(),
            old(self)@.wf(),
    {
        proof {
            use_type_invariant(&*self);
        }
        let mut held = Term::new(1);
        std::mem::swap(self, &mut held);
        let Term { buffer, scrollback, viewport } = held;
        (buffer, scrollback, viewport)
    }

    /// Takes in the next fragment of log text and returns how many bytes were taken,
    /// which is all of them. The history is not touched.
    pub fn write(&mut self, buf: &[u8]) -> (taken: usize)
        ensures
            taken == buf@.len(),
            final(self)@ == old(self)@.write(buf@),
            final(self)@.history() == old(self)@.history(),
            final(self)@.wf(),
    {
        let (mut buffer, scrollback, viewport) = self.take_parts();
        proof {
            lemma_lines_prefix(buffer@.submitted, buf@);
            assert(buffer@.submit(buf@).handed_out() =~= buffer@.handed_out());
        }
        buffer.submit(buf);
        *self = Term { buffer, scrollback, viewport };
        buf.len()
    }

    /// Moves every completed line into the scrollback history, oldest first, and
    /// returns the lines that were moved: those are to be inserted above the
    /// viewport. With nothing newly completed, nothing is moved.
    pub fn flush(&mut self) -> (inserted: Vec<String>)
        ensures
            string_views(inserted@) == old(self)@.unflushed(),
            forall|i: int|
                0 <= i < inserted@.len() ==> shows(
                    (#[trigger] inserted@[i])@,
                    old(self)@.stream.completed()[i].text,
                ),
            final(self)@ == old(self)@.flush(),
            final(self)@.history() == old(self)@.history() + string_views(inserted@),
            inserted@.len() == 0 ==> final(self)@ == old(self)@,
            final(self)@.wf(),
    {
        let (mut buffer, mut scrollback, viewport) = self.take_parts();
        let ghost before = buffer@;
        proof {
            assert(before.completed().len() == texts(before.completed()).len());
        }
        let lines = buffer.drain_completed();
        let mut inserted: Vec<String> = Vec::new();
        let mut i: usize = 0;
        proof {
            assert(string_views(inserted@) =~= texts(line_views(lines@).take(0)));
            assert(scrollback@ + texts(line_views(lines@).take(0)) =~= scrollback@);
        }
        while i < lines.len()
            invariant
                i <= lines.len(),
                string_views(inserted@) == texts(line_views(lines@).take(i as int)),
                inserted@.len() == i,
                forall|j: int|
                    0 <= j < i ==> shows((#[trigger] inserted@[j])@, line_views(lines@)[j].text),
                scrollback@ == texts(before.handed_out()) + texts(
                    line_views(lines@).take(i as int),
                ),
            decreases lines.len() - i,
        {
            let text = decode_lossy(lines[i].text.as_slice());
            proof {
                let shown = line_views(lines@);
                assert(shown.take(i + 1) =~= shown.take(i as int).push(shown[i as int]));
                assert(texts(shown.take(i + 1)) =~= texts(shown.take(i as int)).push(text@));
                assert(string_views(inserted@.push(text)) =~= string_views(inserted@).push(text@));
            }
            scrollback.append(text.clone());
            inserted.push(text);
            i += 1;
        }
        proof {
            let shown = line_views(lines@);
            assert(shown.take(lines.len() as int) =~= shown);
            assert(before.handed_out() + before.completed() =~= lines_of(before.submitted));
            assert(before.drain().handed_out() =~= lines_of(before.submitted));
            assert(texts(before.handed_out()) + texts(before.completed()) =~= texts(
                before.drain().handed_out(),
            ));
        }
        *self = Term { buffer, scrollback, viewport };
        inserted
    }

    /// Replaces what the viewport shows. The history is not touched.
    pub fn render(&mut self, content: LiveContent)
        ensures
            final(self)@ == old(self)@.render(content@),
            final(self)@.wf(),
    {
        let (buffer, scrollback, mut viewport) = self.take_parts();
        viewport.replace(content);
        *self = Term { buffer, scrollback, viewport };
    }

    /// The open line of the log: what was written after the last line feed.
    pub fn peek_pending(&self) -> (pending: &[u8])
        ensures
            pending@ == self@.stream.pending(),
    {
        self.buffer.peek_pending()
    }

    /// The scrollback history, oldest line first.
    pub fn history(&self) -> (lines: &Vec<String>)
        ensures
            string_views(lines@) == self@.history(),
            self@.wf(),
    {
        proof {
            use_type_invariant(self);
        }
        self.scrollback.lines()
    }

    /// The live viewport.
    pub fn viewport(&self) -> (viewport: &Viewport)
        ensures
            viewport@ == self@.viewport,
    {
        &self.viewport
    }
}

} // verus!
