//! Rendering of a stage: a prompt sign, the command, and a sign for how its execution goes.

use crate::input;
use crate::pipeline::{ProcessStatus, Stage, StageExecution, StageExecutionView, StageView};
use crate::ui::content;
use crate::ui::content::{Line, Span, SpanView, Text};
use crate::ui::frame::{Alignment, Draw, DrawView, Frame};
use crate::ui::geometry::{Position, Rect};
use crate::ui::highlight;
use crate::ui::layout;
use crate::ui::layout::{Constraint, Direction, Flex};
use crate::ui::style::{Color, Style};
use crate::ui::utils;
use vstd::prelude::*;

verus! {

/// Where the parts of a stage go.
#[derive(Debug, Clone, Copy, PartialEq, Eq, Structural)]
pub struct StageAreas {
    pub marker: Rect,
    pub command: Rect,
    pub status: Rect,
}

/// The sizes of the parts of a stage: the command gets all that the signs leave.
pub open spec fn stage_widths() -> Seq<Constraint> {
    seq![Constraint::Min(1), Constraint::Percentage(100), Constraint::Min(1)]
}

/// Whether the parts are placed in the area, side by side. Each of them is in the rows of the area.
pub open spec fn is_placed(area: Rect, areas: StageAreas) -> bool {
    layout::are_parts(
        Direction::Horizontal,
        stage_widths(),
        1,
        Flex::Start,
        area,
        seq![areas.marker, areas.command, areas.status],
    )
}

/// The sign for how an execution goes.
pub open spec fn status_sign(exec: Option<StageExecutionView>) -> SpanView {
    match exec {
        None => content::raw(" "@),
        Some(exec) => match exec.status {
            ProcessStatus::Running => utils::running_sign(),
            ProcessStatus::Exited(status) => if status.succeeded() {
                utils::successful_sign()
            } else if status.code is Some {
                utils::failed_sign()
            } else if status.signal is Some {
                utils::killed_sign()
            } else {
                utils::unknown_sign()
            },
        },
    }
}

/// The style of a command: a disabled one is crossed out, and one that is not the one that was
/// executed is bold.
pub open spec fn command_style(stage: StageView, exec: Option<StageExecutionView>) -> Style {
    let base = if stage.enabled {
        Style::plain()
    } else {
        Style::plain().crossed_out()
    };
    if exec matches Some(exec) && exec.command == stage.field.text {
        base
    } else {
        base.bold()
    }
}

/// The spans that show a command, unless it is to be highlighted and cannot be.
pub open spec fn command_spans(
    command: Seq<char>,
    style: Style,
    syntax_highlight: bool,
) -> Option<Seq<SpanView>> {
    if syntax_highlight {
        match highlight::highlight_events(command, highlight::recognized_names()) {
            Some(events) => if highlight::well_formed(command, events) {
                Some(highlight::highlighted(command, events, style))
            } else {
                None
            },
            None => None,
        }
    } else {
        Some(seq![content::styled(command, style)])
    }
}

/// The color of the prompt sign.
pub open spec fn marker_color(focused: bool) -> Color {
    if focused {
        Color::Green
    } else {
        Color::Gray
    }
}

/// What a stage draws.
pub open spec fn stage_draws(
    areas: StageAreas,
    focused: bool,
    command: Seq<SpanView>,
    sign: SpanView,
    scroll: usize,
) -> Seq<DrawView> {
    seq![
        DrawView::Span {
            area: areas.marker,
            span: content::styled("❯"@, Style::plain().fg(marker_color(focused))),
        },
        DrawView::Paragraph {
            area: areas.command,
            text: content::plain_text(seq![command]),
            alignment: Alignment::Left,
            scroll: scroll as u16,
        },
        DrawView::Paragraph {
            area: areas.status,
            text: content::plain_text(seq![seq![sign]]),
            alignment: Alignment::Right,
            scroll: 0,
        },
    ]
}

/// The column of the cursor within the area of the command.
pub open spec fn cursor_offset(scroll: usize, cursor: usize) -> u16 {
    (if cursor > scroll {
        cursor - scroll
    } else {
        0
    }) as u16
}

/// Whether the cursor has a place on the screen.
pub open spec fn has_cursor(areas: StageAreas, scroll: usize, cursor: usize) -> bool {
    areas.command.x + cursor_offset(scroll, cursor) <= u16::MAX
}

/// The place of the cursor.
pub open spec fn cursor_position(areas: StageAreas, scroll: usize, cursor: usize) -> Position {
    Position {
        x: (areas.command.x + cursor_offset(scroll, cursor)) as u16,
        y: areas.command.y,
    }
}

/// Draws a stage. Returns the place of the cursor. `scroll` columns of the command are skipped, and
/// `cursor` is the column of the cursor in the whole command.
pub fn draw_stage(
    f: &mut Frame,
    areas: StageAreas,
    focused: bool,
    command: Vec<Span>,
    sign: Span,
    scroll: usize,
    cursor: usize,
) -> (r: Position)
    requires
        has_cursor(areas, scroll, cursor),
    ensures
        final(f)@ == old(f)@.with(
            stage_draws(areas, focused, content::span_views(command@), sign@, scroll),
        ),
        r == cursor_position(areas, scroll, cursor),
{
    let ghost before = f@;
    let ghost expected = stage_draws(
        areas,
        focused,
        content::span_views(command@),
        sign@,
        scroll,
    );
    // Prompt sign
    let marker_color = if focused {
        Color::Green
    } else {
        Color::Gray
    };
    f.draw(
        Draw::Span {
            area: areas.marker,
            span: Span::styled("❯", Style::plain().fg(marker_color)),
        },
    );
    // Command
    let command_lines = vec![Line { spans: command }];
    assert(content::line_views(command_lines@) =~= seq![content::span_views(command@)]);
    f.draw(
        Draw::Paragraph {
            area: areas.command,
            text: Text::of(command_lines),
            alignment: Alignment::Left,
            scroll: scroll as u16,
        },
    );
    // Status indicator
    let status_lines = vec![Line::of(sign)];
    assert(content::line_views(status_lines@) =~= seq![seq![sign@]]);
    f.draw(
        Draw::Paragraph {
            area: areas.status,
            text: Text::of(status_lines),
            alignment: Alignment::Right,
            scroll: 0,
        },
    );
    assert(f@.draws =~= before.draws + expected);
    let offset: usize = if cursor > scroll {
        cursor - scroll
    } else {
        0
    };
    Position { x: areas.command.x + offset as u16, y: areas.command.y }
}

/// The sign for how an execution goes.
fn status_span(exec: Option<&StageExecution>) -> (r: Span)
    ensures
        r@ == status_sign(
            match exec {
                Some(exec) => Some(exec@),
                None => None,
            },
        ),
{
    match exec {
        None => Span::raw(" "),
        Some(exec) => match exec.status {
            ProcessStatus::Running => utils::status_running_span(),
            ProcessStatus::Exited(status) => {
                if status.success() {
                    utils::status_successful_span()
                } else if status.code.is_some() {
                    utils::status_failed_span()
                } else if status.signal.is_some() {
                    utils::status_killed_span()
                } else {
                    utils::status_unknown_span()
                }
            },
        },
    }
}

/// Whether a stage can be drawn: its command has a column for the cursor, can be highlighted if it
/// is to be, and has the cursor on the screen.
pub open spec fn is_drawable(
    stage: StageView,
    exec: Option<StageExecutionView>,
    areas: StageAreas,
    syntax_highlight: bool,
) -> bool {
    &&& areas.command.width >= 1
    &&& command_spans(stage.field.text, command_style(stage, exec), syntax_highlight) is Some
    &&& has_cursor(areas, scroll_of(stage, areas), cursor_of(stage))
}

/// The number of columns of a command that are skipped.
pub open spec fn scroll_of(stage: StageView, areas: StageAreas) -> usize {
    input::scroll_column(
        stage.field.text,
        stage.field.cursor,
        (areas.command.width - 1) as usize,
    )
}

/// The column of the cursor in a command.
pub open spec fn cursor_of(stage: StageView) -> usize {
    input::cursor_column(stage.field.text, stage.field.cursor)
}

/// What a stage draws.
pub open spec fn draws_of(
    stage: StageView,
    exec: Option<StageExecutionView>,
    areas: StageAreas,
    focused: bool,
    syntax_highlight: bool,
) -> Seq<DrawView> {
    stage_draws(
        areas,
        focused,
        command_spans(stage.field.text, command_style(stage, exec), syntax_highlight)->0,
        status_sign(exec),
        scroll_of(stage, areas),
    )
}

/// Draws a stage with its parts at the given places, and returns the place of the cursor. Draws
/// nothing where the stage cannot be drawn.
pub fn render_stage(
    f: &mut Frame,
    stage: &Stage,
    exec: Option<&StageExecution>,
    areas: StageAreas,
    focused: bool,
    syntax_highlight: bool,
) -> (r: Option<Position>)
    ensures
        ({
            let exec = match exec {
                Some(exec) => Some(exec@),
                None => None,
            };
            if is_drawable(stage@, exec, areas, syntax_highlight) {
                &&& final(f)@ == old(f)@.with(
                    draws_of(stage@, exec, areas, focused, syntax_highlight),
                )
                &&& r == Some(
                    cursor_position(areas, scroll_of(stage@, areas), cursor_of(stage@)),
                )
            } else {
                final(f)@ == old(f)@ && r is None
            }
        }),
{
    // Commands changed from last execution are highlighted with bold.
    let mut style = Style::plain();
    if !stage.enabled {
        style = style.crossed_out();
    }
    let changed = match exec {
        Some(exec) => *exec.command.as_str() != *stage.input.value(),
        None => true,
    };
    if changed {
        style = style.bold();
    }
    if areas.command.width < 1 {
        return None;
    }
    let command: Vec<Span> = if syntax_highlight {
        match highlight::highlight_command_to_spans(stage.input.value(), style) {
            Ok(spans) => spans,
            Err(_) => {
                return None;
            },
        }
    } else {
        let spans = vec![Span::styled(stage.input.value(), style)];
        assert(content::span_views(spans@) =~= seq![
            content::styled(stage@.field.text, style),
        ]);
        spans
    };
    let scroll = stage.input.visual_scroll(areas.command.width as usize - 1);
    let cursor = stage.input.visual_cursor();
    let offset: usize = if cursor > scroll {
        cursor - scroll
    } else {
        0
    };
    if areas.command.x > u16::MAX - offset as u16 {
        return None;
    }
    Some(draw_stage(f, areas, focused, command, status_span(exec), scroll, cursor))
}

/// Finds the places of the parts of a stage.
pub(crate) fn place(area: Rect) -> (areas: StageAreas)
    ensures
        is_placed(area, areas),
{
    let widths = vec![Constraint::Min(1), Constraint::Percentage(100), Constraint::Min(1)];
    let parts = layout::divide(Direction::Horizontal, &widths, 1, Flex::Start, area);
    let areas = StageAreas { marker: parts[0], command: parts[1], status: parts[2] };
    assert(widths@ =~= stage_widths());
    assert(parts@ =~= seq![areas.marker, areas.command, areas.status]);
    areas
}

/// The parts of a stage lie in its area and have its rows, and so has the cursor.
pub proof fn law_stage_keeps_to_its_area(
    area: Rect,
    areas: StageAreas,
    scroll: usize,
    cursor: usize,
)
    requires
        is_placed(area, areas),
    ensures
        areas.marker.is_inside(area) && areas.marker.y == area.y && areas.marker.height
            == area.height,
        areas.command.is_inside(area) && areas.command.y == area.y && areas.command.height
            == area.height,
        areas.status.is_inside(area) && areas.status.y == area.y && areas.status.height
            == area.height,
        cursor_position(areas, scroll, cursor).y == area.y,
{
    let parts = seq![areas.marker, areas.command, areas.status];
    assert(parts[0] == areas.marker && parts[1] == areas.command && parts[2] == areas.status);
}

} // verus!
