//! What is drawn on the screen.

use crate::ui::content::{Span, SpanView, Text, TextView};
use crate::ui::geometry::{Position, Rect};
use crate::ui::style::Style;
use vstd::prelude::*;

verus! {

#[derive(Debug, Clone, Copy, PartialEq, Eq, Structural)]
pub enum Alignment {
    Left,
    Center,
    Right,
}

/// Something to draw. It covers what was drawn before.
#[derive(Debug, PartialEq, Eq)]
pub enum Draw {
    /// The area is emptied.
    Clear { area: Rect },
    /// The area takes a style.
    Fill { area: Rect, style: Style },
    Span { area: Rect, span: Span },
    Text { area: Rect, text: Text, alignment: Alignment },
    /// Text of which a number of columns at the left is skipped.
    Paragraph { area: Rect, text: Text, alignment: Alignment, scroll: u16 },
}

/// The view of something to draw.
pub enum DrawView {
    Clear { area: Rect },
    Fill { area: Rect, style: Style },
    Span { area: Rect, span: SpanView },
    Text { area: Rect, text: TextView, alignment: Alignment },
    Paragraph { area: Rect, text: TextView, alignment: Alignment, scroll: u16 },
}

impl View for Draw {
    type V = DrawView;

    open spec fn view(&self) -> DrawView {
        match self {
            Draw::Clear { area } => DrawView::Clear { area: *area },
            Draw::Fill { area, style } => DrawView::Fill { area: *area, style: *style },
            Draw::Span { area, span } => DrawView::Span { area: *area, span: span@ },
            Draw::Text { area, text, alignment } => DrawView::Text {
                area: *area,
                text: text@,
                alignment: *alignment,
            },
            Draw::Paragraph { area, text, alignment, scroll } => DrawView::Paragraph {
                area: *area,
                text: text@,
                alignment: *alignment,
                scroll: *scroll,
            },
        }
    }
}

/// All that is drawn on the screen, in order.
#[derive(Debug, PartialEq, Eq)]
pub struct Frame {
    /// The area of the screen.
    pub area: Rect,
    pub draws: Vec<Draw>,
    /// Where the cursor is shown.
    pub cursor: Option<Position>,
}

/// The view of a frame.
pub struct FrameView {
    pub area: Rect,
    pub draws: Seq<DrawView>,
    pub cursor: Option<Position>,
}

impl View for Frame {
    type V = FrameView;

    open spec fn view(&self) -> FrameView {
        FrameView {
            area: self.area,
            draws: self.draws@.map_values(|draw: Draw| draw@),
            cursor: self.cursor,
        }
    }
}

impl FrameView {
    /// The frame with more drawn on it.
    pub open spec fn with(self, draws: Seq<DrawView>) -> FrameView {
        FrameView { draws: self.draws + draws, ..self }
    }
}

impl Frame {
    /// A frame with nothing on it.
    pub fn new(area: Rect) -> (r: Self)
        ensures
            r@ == (FrameView { area, draws: Seq::empty(), cursor: None }),
    {
        let r = Frame { area, draws: Vec::new(), cursor: None };
        assert(r@.draws =~= Seq::empty());
        r
    }

    /// Draws one thing more.
    pub fn draw(&mut self, draw: Draw)
        ensures
            final(self)@ == old(self)@.with(seq![draw@]),
    {
        self.draws.push(draw);
        assert(self@.draws =~= old(self)@.draws + seq![draw@]);
    }

    pub fn set_cursor_position(&mut self, position: Position)
        ensures
            final(self)@ == (FrameView { cursor: Some(position), ..old(self)@ }),
    {
        self.cursor = Some(position);
    }
}

} // verus!
