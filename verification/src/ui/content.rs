//! Styled text.

use crate::ui::style::Style;
use vstd::prelude::*;

verus! {

/// Text in one style.
#[derive(Debug, PartialEq, Eq)]
pub struct Span {
    pub content: String,
    pub style: Style,
}

/// The view of a span.
pub struct SpanView {
    pub content: Seq<char>,
    pub style: Style,
}

impl View for Span {
    type V = SpanView;

    open spec fn view(&self) -> SpanView {
        SpanView { content: self.content@, style: self.style }
    }
}

pub open spec fn styled(content: Seq<char>, style: Style) -> SpanView {
    SpanView { content, style }
}

pub open spec fn raw(content: Seq<char>) -> SpanView {
    SpanView { content, style: Style::plain() }
}

impl Span {
    pub fn styled(content: &str, style: Style) -> (r: Self)
        ensures
            r@ == styled(content@, style),
    {
        Span { content: content.to_owned(), style }
    }

    /// Text that leaves its style open.
    pub fn raw(content: &str) -> (r: Self)
        ensures
            r@ == raw(content@),
    {
        Span { content: content.to_owned(), style: Style::plain() }
    }
}

pub open spec fn span_views(spans: Seq<Span>) -> Seq<SpanView> {
    spans.map_values(|span: Span| span@)
}

/// A line of text.
#[derive(Debug, PartialEq, Eq)]
pub struct Line {
    pub spans: Vec<Span>,
}

impl View for Line {
    type V = Seq<SpanView>;

    open spec fn view(&self) -> Seq<SpanView> {
        span_views(self.spans@)
    }
}

pub open spec fn line_views(lines: Seq<Line>) -> Seq<Seq<SpanView>> {
    lines.map_values(|line: Line| line@)
}

impl Line {
    /// A line without text.
    pub fn empty() -> (r: Self)
        ensures
            r@ == Seq::<SpanView>::empty(),
    {
        let r = Line { spans: Vec::new() };
        assert(r@ =~= Seq::empty());
        r
    }

    /// A line of one span.
    pub fn of(span: Span) -> (r: Self)
        ensures
            r@ == seq![span@],
    {
        let r = Line { spans: vec![span] };
        assert(r@ =~= seq![span@]);
        r
    }

    /// A line of two spans.
    pub fn of_two(first: Span, second: Span) -> (r: Self)
        ensures
            r@ == seq![first@, second@],
    {
        let r = Line { spans: vec![first, second] };
        assert(r@ =~= seq![first@, second@]);
        r
    }
}

/// Lines of text. The style lies under that of the spans.
#[derive(Debug, PartialEq, Eq)]
pub struct Text {
    pub lines: Vec<Line>,
    pub style: Style,
}

/// The view of a text.
pub struct TextView {
    pub lines: Seq<Seq<SpanView>>,
    pub style: Style,
}

impl View for Text {
    type V = TextView;

    open spec fn view(&self) -> TextView {
        TextView { lines: line_views(self.lines@), style: self.style }
    }
}

/// Lines that leave their style open.
pub open spec fn plain_text(lines: Seq<Seq<SpanView>>) -> TextView {
    TextView { lines, style: Style::plain() }
}

impl Text {
    /// Lines that leave their style open.
    pub fn of(lines: Vec<Line>) -> (r: Self)
        ensures
            r@ == plain_text(line_views(lines@)),
    {
        Text { lines, style: Style::plain() }
    }

    /// No lines, over the given style.
    pub fn empty(style: Style) -> (r: Self)
        ensures
            r@ == (TextView { lines: Seq::empty(), style }),
    {
        let r = Text { lines: Vec::new(), style };
        assert(r@.lines =~= Seq::empty());
        r
    }
}

/// The number of columns that a text takes on a terminal.
pub uninterp spec fn columns(text: Seq<char>) -> nat;

/// The sum of some numbers.
pub open spec fn sum_of(numbers: Seq<nat>) -> nat
    decreases numbers.len(),
{
    if numbers.len() == 0 {
        0
    } else {
        sum_of(numbers.drop_last()) + numbers.last()
    }
}

/// The largest of some numbers, or 0 if there are none.
pub open spec fn largest_of(numbers: Seq<nat>) -> nat
    decreases numbers.len(),
{
    if numbers.len() == 0 {
        0
    } else {
        let before = largest_of(numbers.drop_last());
        if numbers.last() > before {
            numbers.last()
        } else {
            before
        }
    }
}

/// The number of columns that a line takes: those of its spans.
pub open spec fn line_columns(line: Seq<SpanView>) -> nat {
    sum_of(line.map_values(|span: SpanView| columns(span.content)))
}

/// The number of columns that lines take: those of the widest one.
pub open spec fn text_columns(lines: Seq<Seq<SpanView>>) -> nat {
    largest_of(lines.map_values(|line: Seq<SpanView>| line_columns(line)))
}

/// The number of columns of some lines, as far as an area can hold them.
pub open spec fn width_of(lines: Seq<Seq<SpanView>>) -> u16 {
    text_columns(lines) as u16
}

/// `ratatui::text::Text::width` is the width of the widest line, and the width of a line is the sum
/// of those of its spans. The width of a span depends on its text alone.
#[verifier::external_body]
fn measure(text: &Text) -> (r: usize)
    ensures
        r == largest_of(
            text@.lines.map_values(
                |line: Seq<SpanView>|
                    sum_of(line.map_values(|span: SpanView| columns(span.content))),
            ),
        ),
{
    let line = |line: &'_ Line| {
        let spans = line.spans.iter().map(|span| ratatui::text::Span::raw(span.content.clone()));
        ratatui::text::Line::from(spans.collect::<Vec<_>>())
    };
    ratatui::text::Text::from(text.lines.iter().map(line).collect::<Vec<_>>()).width()
}

/// The number of columns that a text takes.
pub(crate) fn text_width(text: &Text) -> (r: usize)
    ensures
        r == text_columns(text@.lines),
{
    let width = measure(text);
    assert(text@.lines.map_values(
        |line: Seq<SpanView>| sum_of(line.map_values(|span: SpanView| columns(span.content))),
    ) =~= text@.lines.map_values(|line: Seq<SpanView>| line_columns(line)));
    width
}

} // verus!
