//! What the live viewport shows, as plain values.

use vstd::prelude::*;

verus! {

/// How a piece of text is set off from its surroundings.
#[derive(Clone, Copy, Debug, PartialEq, Eq, Structural)]
pub enum Tone {
    Plain,
    Bold,
    Blue,
    Green,
}

/// A piece of text in one tone.
#[derive(Debug, PartialEq, Eq)]
pub struct Span {
    pub text: String,
    pub tone: Tone,
}

/// A span as a mathematical value.
pub struct SpanView {
    pub text: Seq<char>,
    pub tone: Tone,
}

impl View for Span {
    type V = SpanView;

    open spec fn view(&self) -> SpanView {
        SpanView { text: self.text@, tone: self.tone }
    }
}

/// The spans of `spans` as mathematical values.
pub open spec fn span_views(spans: Seq<Span>) -> Seq<SpanView> {
    spans.map_values(|span: Span| span@)
}

/// Everything the live viewport shows at one moment.
#[derive(Debug, PartialEq, Eq)]
pub struct LiveContent {
    /// The heading on the upper border.
    pub title: Span,
    /// The key help on the lower border.
    pub instructions: Vec<Span>,
    /// The line that says what the tool is doing.
    pub status: Vec<Span>,
    /// The open line of the log: text that no line feed has ended yet.
    pub pending: String,
}

/// Live content as a mathematical value.
pub struct Content {
    pub title: SpanView,
    pub instructions: Seq<SpanView>,
    pub status: Seq<SpanView>,
    pub pending: Seq<char>,
}

impl View for LiveContent {
    type V = Content;

    open spec fn view(&self) -> Content {
        Content {
            title: self.title@,
            instructions: span_views(self.instructions@),
            status: span_views(self.status@),
            pending: self.pending@,
        }
    }
}

} // verus!
