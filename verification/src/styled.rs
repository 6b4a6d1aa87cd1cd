//! Styled text the views hand to the terminal renderer: each span names the
//! role of its text, and the active palette maps roles to colours.

use vstd::prelude::*;

verus! {

/// The role of a piece of text, which the palette colours.
#[derive(Debug, Clone, Copy, PartialEq, Eq, Structural)]
pub enum SpanStyle {
    Plain,
    Title,
    Header,
    Selected,
    Row,
    Key,
    Value,
    Error,
    Success,
    Tagline,
    Footer,
    FooterTitle,
    FooterKey,
    FooterHint,
    ModalLabel,
    ModalInput,
    ModalCursor,
}

/// Text with a role.
#[derive(Debug)]
pub struct StyledSpan {
    pub text: String,
    pub style: SpanStyle,
}

/// A line of spans.
#[derive(Debug)]
pub struct StyledLine {
    pub spans: Vec<StyledSpan>,
}

/// A span as plain values.
pub type SpanView = (Seq<char>, SpanStyle);

/// A line as plain values.
pub type LineView = Seq<SpanView>;

pub open spec fn span_view(s: StyledSpan) -> SpanView {
    (s.text@, s.style)
}

pub open spec fn spans_view(ss: Seq<StyledSpan>) -> LineView {
    ss.map_values(|s: StyledSpan| span_view(s))
}

pub open spec fn line_view(l: StyledLine) -> LineView {
    spans_view(l.spans@)
}

pub open spec fn lines_view(ls: Seq<StyledLine>) -> Seq<LineView> {
    ls.map_values(|l: StyledLine| line_view(l))
}

/// Number of characters of a line.
pub open spec fn line_width(l: LineView) -> nat
    decreases l.len(),
{
    if l.len() == 0 {
        0
    } else {
        line_width(l.drop_last()) + l.last().0.len()
    }
}

/// One span.
pub fn span(text: String, style: SpanStyle) -> (r: StyledSpan)
    ensures
        span_view(r) == (text@, style),
{
    StyledSpan { text, style }
}

/// A line of one span.
pub fn single(text: String, style: SpanStyle) -> (r: StyledLine)
    ensures
        line_view(r) == seq![(text@, style)],
{
    let mut spans = Vec::new();
    spans.push(StyledSpan { text, style });
    let r = StyledLine { spans };
    assert(line_view(r) =~= seq![(r.spans@[0].text@, style)]);
    r
}

/// An empty line.
pub fn blank_line() -> (r: StyledLine)
    ensures
        line_view(r) == Seq::<SpanView>::empty(),
{
    let r = StyledLine { spans: Vec::new() };
    assert(line_view(r) =~= Seq::<SpanView>::empty());
    r
}

} // verus!
