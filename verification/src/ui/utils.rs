//! Signs of stages, and the help that is shown when there is nothing else to show.

use crate::ui::content;
use crate::ui::content::{Line, Span, SpanView, Text};
use crate::ui::frame::{Alignment, Draw, DrawView, Frame};
use crate::ui::geometry::Rect;
use crate::ui::layout;
use crate::ui::layout::{Constraint, Direction, Flex};
use crate::ui::style::{Color, Style};
use vstd::prelude::*;

verus! {

pub open spec fn running_sign() -> SpanView {
    content::styled("•"@, Style::plain().fg(Color::Yellow))
}

pub fn status_running_span() -> (r: Span)
    ensures
        r@ == running_sign(),
{
    Span::styled("•", Style::plain().fg(Color::Yellow))
}

pub open spec fn successful_sign() -> SpanView {
    content::styled("✔︎"@, Style::plain().fg(Color::Green))
}

pub fn status_successful_span() -> (r: Span)
    ensures
        r@ == successful_sign(),
{
    Span::styled("✔︎", Style::plain().fg(Color::Green))
}

pub open spec fn failed_sign() -> SpanView {
    content::styled("✖︎"@, Style::plain().fg(Color::Red))
}

pub fn status_failed_span() -> (r: Span)
    ensures
        r@ == failed_sign(),
{
    Span::styled("✖︎", Style::plain().fg(Color::Red))
}

pub open spec fn killed_sign() -> SpanView {
    content::styled("ѳ"@, Style::plain().fg(Color::Red))
}

pub fn status_killed_span() -> (r: Span)
    ensures
        r@ == killed_sign(),
{
    Span::styled("ѳ", Style::plain().fg(Color::Red))
}

pub open spec fn unknown_sign() -> SpanView {
    content::styled("?"@, Style::plain().fg(Color::Red))
}

pub fn status_unknown_span() -> (r: Span)
    ensures
        r@ == unknown_sign(),
{
    Span::styled("?", Style::plain().fg(Color::Red))
}

/// The style of names of keys in the help.
pub open spec fn key_style() -> Style {
    Style::plain().fg(Color::Yellow)
}

/// The lines that welcome the user.
pub open spec fn introduction_lines() -> Seq<Seq<SpanView>> {
    seq![
        Seq::empty(),
        seq![content::styled("Welcome to Pipec!"@, Style::plain().fg(Color::Cyan))],
        Seq::empty(),
        seq![
            content::raw("Type a command and press "@),
            content::styled("Enter"@, key_style()),
            content::raw(" to get started."@),
        ],
    ]
}

/// The line that explains a key.
pub open spec fn key_line(key: Seq<char>, meaning: Seq<char>) -> Seq<SpanView> {
    seq![content::styled(key, key_style()), content::raw(meaning)]
}

/// The lines that explain the keys.
pub open spec fn key_help_lines() -> Seq<Seq<SpanView>> {
    seq![
        key_line("Enter        "@, "Execute command"@),
        key_line("Ctrl+Space   "@, "Show output of current stage"@),
        key_line("Ctrl+Q       "@, "Exit program"@),
        key_line("Ctrl-N       "@, "Add new stage below"@),
        key_line("Ctrl-P       "@, "Add new stage above"@),
        key_line("Ctrl-D       "@, "Delete focused stage"@),
        key_line("Ctrl-X       "@, "Enable/disable focused stage"@),
        key_line("Ctrl-Shift-C "@, "Hard-stop execution (send KILL)"@),
        key_line("↑/↓          "@, "Go to previous/next stage"@),
        key_line("Ctrl-L       "@, "View shown stage in pager"@),
        key_line("Ctrl-V       "@, "Edit focused stage in editor"@),
    ]
}

/// The lines that explain the signs.
pub open spec fn legend_lines() -> Seq<Seq<SpanView>> {
    seq![
        seq![
            running_sign(),
            content::raw(" running      "@),
            killed_sign(),
            content::raw(" killed"@),
        ],
        seq![
            successful_sign(),
            content::raw(" successful   "@),
            unknown_sign(),
            content::raw(" unknown"@),
        ],
        seq![failed_sign(), content::raw(" failed"@)],
    ]
}

fn introduction() -> (r: Text)
    ensures
        r@ == content::plain_text(introduction_lines()),
{
    let welcome = Span::styled("Welcome to Pipec!", Style::plain().fg(Color::Cyan));
    let key_style = Style::plain().fg(Color::Yellow);
    let start = Line {
        spans: vec![
            Span::raw("Type a command and press "),
            Span::styled("Enter", key_style),
            Span::raw(" to get started."),
        ],
    };
    assert(start@ =~= introduction_lines()[3]);
    let lines = vec![Line::empty(), Line::of(welcome), Line::empty(), start];
    assert(content::line_views(lines@) =~= introduction_lines());
    Text::of(lines)
}

/// The line that explains a key.
fn explain(key: &str, meaning: &str) -> (r: Line)
    ensures
        r@ == key_line(key@, meaning@),
{
    Line::of_two(Span::styled(key, Style::plain().fg(Color::Yellow)), Span::raw(meaning))
}

fn key_help() -> (r: Text)
    ensures
        r@ == content::plain_text(key_help_lines()),
{
    let lines = vec![
        explain("Enter        ", "Execute command"),
        explain("Ctrl+Space   ", "Show output of current stage"),
        explain("Ctrl+Q       ", "Exit program"),
        explain("Ctrl-N       ", "Add new stage below"),
        explain("Ctrl-P       ", "Add new stage above"),
        explain("Ctrl-D       ", "Delete focused stage"),
        explain("Ctrl-X       ", "Enable/disable focused stage"),
        explain("Ctrl-Shift-C ", "Hard-stop execution (send KILL)"),
        explain("↑/↓          ", "Go to previous/next stage"),
        explain("Ctrl-L       ", "View shown stage in pager"),
        explain("Ctrl-V       ", "Edit focused stage in editor"),
    ];
    assert(content::line_views(lines@) =~= key_help_lines());
    Text::of(lines)
}

fn legend() -> (r: Text)
    ensures
        r@ == content::plain_text(legend_lines()),
{
    let first = Line {
        spans: vec![
            status_running_span(),
            Span::raw(" running      "),
            status_killed_span(),
            Span::raw(" killed"),
        ],
    };
    assert(first@ =~= legend_lines()[0]);
    let second = Line {
        spans: vec![
            status_successful_span(),
            Span::raw(" successful   "),
            status_unknown_span(),
            Span::raw(" unknown"),
        ],
    };
    assert(second@ =~= legend_lines()[1]);
    let third = Line::of_two(status_failed_span(), Span::raw(" failed"));
    let lines = vec![first, second, third];
    assert(content::line_views(lines@) =~= legend_lines());
    Text::of(lines)
}

/// Where the parts of the help go.
#[derive(Debug, Clone, Copy, PartialEq, Eq, Structural)]
pub struct HelpAreas {
    pub introduction: Rect,
    pub keys: Rect,
    pub legend: Rect,
}

/// Whether `part` is the middle of `area`, wide enough for the lines.
pub open spec fn is_middle(lines: Seq<Seq<SpanView>>, area: Rect, part: Rect) -> bool {
    layout::are_parts(
        Direction::Horizontal,
        seq![Constraint::Length(content::width_of(lines))],
        0,
        Flex::Center,
        area,
        seq![part],
    )
}

/// The heights of the parts of the help.
pub open spec fn help_heights() -> Seq<Constraint> {
    seq![
        Constraint::Length(introduction_lines().len() as u16),
        Constraint::Length(key_help_lines().len() as u16),
        Constraint::Length(legend_lines().len() as u16),
    ]
}

/// Whether the parts are placed in the middle of the area, one below the other.
pub open spec fn is_placed(area: Rect, areas: HelpAreas) -> bool {
    exists|rows: Seq<Rect>|
        {
            &&& #[trigger] layout::are_parts(
                Direction::Vertical,
                help_heights(),
                1,
                Flex::Center,
                area,
                rows,
            )
            &&& is_middle(introduction_lines(), rows[0], areas.introduction)
            &&& is_middle(key_help_lines(), rows[1], areas.keys)
            &&& is_middle(legend_lines(), rows[2], areas.legend)
        }
}

/// What the help draws.
pub open spec fn help_draws(areas: HelpAreas) -> Seq<DrawView> {
    seq![
        DrawView::Paragraph {
            area: areas.introduction,
            text: content::plain_text(introduction_lines()),
            alignment: Alignment::Center,
            scroll: 0,
        },
        DrawView::Paragraph {
            area: areas.keys,
            text: content::plain_text(key_help_lines()),
            alignment: Alignment::Left,
            scroll: 0,
        },
        DrawView::Paragraph {
            area: areas.legend,
            text: content::plain_text(legend_lines()),
            alignment: Alignment::Left,
            scroll: 0,
        },
    ]
}

/// Finds the middle of the area, wide enough for the text.
fn middle(text: &Text, area: Rect) -> (part: Rect)
    ensures
        is_middle(text@.lines, area, part),
{
    let width = vec![Constraint::Length(content::text_width(text) as u16)];
    let parts = layout::divide(Direction::Horizontal, &width, 0, Flex::Center, area);
    assert(width@ =~= seq![Constraint::Length(content::width_of(text@.lines))]);
    assert(parts@ =~= seq![parts@[0]]);
    parts[0]
}

/// Finds the places of the parts of the help.
pub(crate) fn place(area: Rect) -> (areas: HelpAreas)
    ensures
        is_placed(area, areas),
{
    let introduction = introduction();
    let key_help = key_help();
    let legend = legend();
    let heights = vec![
        Constraint::Length(introduction.lines.len() as u16),
        Constraint::Length(key_help.lines.len() as u16),
        Constraint::Length(legend.lines.len() as u16),
    ];
    let rows = layout::divide(Direction::Vertical, &heights, 1, Flex::Center, area);
    proof {
        assert(introduction@.lines.len() == introduction.lines@.len());
        assert(key_help@.lines.len() == key_help.lines@.len());
        assert(legend@.lines.len() == legend.lines@.len());
        assert(heights@ =~= help_heights());
        assert(layout::are_parts(
            Direction::Vertical,
            help_heights(),
            1,
            Flex::Center,
            area,
            rows@,
        ));
    }
    HelpAreas {
        introduction: middle(&introduction, rows[0]),
        keys: middle(&key_help, rows[1]),
        legend: middle(&legend, rows[2]),
    }
}

/// The help stays in its area.
pub proof fn law_help_keeps_to_its_area(area: Rect, areas: HelpAreas)
    requires
        is_placed(area, areas),
    ensures
        areas.introduction.is_inside(area),
        areas.keys.is_inside(area),
        areas.legend.is_inside(area),
{
    let rows = choose|rows: Seq<Rect>|
        {
            &&& #[trigger] layout::are_parts(
                Direction::Vertical,
                help_heights(),
                1,
                Flex::Center,
                area,
                rows,
            )
            &&& is_middle(introduction_lines(), rows[0], areas.introduction)
            &&& is_middle(key_help_lines(), rows[1], areas.keys)
            &&& is_middle(legend_lines(), rows[2], areas.legend)
        };
    assert(seq![areas.introduction][0] == areas.introduction);
    assert(seq![areas.keys][0] == areas.keys);
    assert(seq![areas.legend][0] == areas.legend);
    assert(layout::lies_in(Direction::Vertical, area, rows[0]));
    assert(layout::lies_in(Direction::Vertical, area, rows[1]));
    assert(layout::lies_in(Direction::Vertical, area, rows[2]));
}

/// Whether the area has room for the help.
pub open spec fn has_room(area: Rect) -> bool {
    let width = layout::extent(Direction::Horizontal, area);
    &&& introduction_lines().len() + key_help_lines().len() + legend_lines().len() + 2
        <= layout::extent(Direction::Vertical, area)
    &&& content::width_of(introduction_lines()) <= width
    &&& content::width_of(key_help_lines()) <= width
    &&& content::width_of(legend_lines()) <= width
}

/// Where the area has room for them, the parts of the help are as large as their texts.
pub proof fn law_help_has_its_size(area: Rect, areas: HelpAreas)
    requires
        is_placed(area, areas),
        has_room(area),
    ensures
        areas.introduction.width == content::width_of(introduction_lines()),
        areas.introduction.height == introduction_lines().len(),
        areas.keys.width == content::width_of(key_help_lines()),
        areas.keys.height == key_help_lines().len(),
        areas.legend.width == content::width_of(legend_lines()),
        areas.legend.height == legend_lines().len(),
{
    let rows = choose|rows: Seq<Rect>|
        {
            &&& #[trigger] layout::are_parts(
                Direction::Vertical,
                help_heights(),
                1,
                Flex::Center,
                area,
                rows,
            )
            &&& is_middle(introduction_lines(), rows[0], areas.introduction)
            &&& is_middle(key_help_lines(), rows[1], areas.keys)
            &&& is_middle(legend_lines(), rows[2], areas.legend)
        };
    let heights = help_heights();
    layout::lemma_three_lengths(
        introduction_lines().len() as u16,
        key_help_lines().len() as u16,
        legend_lines().len() as u16,
    );
    assert(layout::lengths_fit(Direction::Vertical, heights, 1, Flex::Center, area));
    assert(layout::has_lengths(Direction::Vertical, heights, rows));
    assert(heights[0] is Length && heights[1] is Length && heights[2] is Length);
    lemma_middle_has_its_width(introduction_lines(), rows[0], areas.introduction);
    lemma_middle_has_its_width(key_help_lines(), rows[1], areas.keys);
    lemma_middle_has_its_width(legend_lines(), rows[2], areas.legend);
}

proof fn lemma_middle_has_its_width(lines: Seq<Seq<SpanView>>, area: Rect, part: Rect)
    requires
        is_middle(lines, area, part),
        content::width_of(lines) <= layout::extent(Direction::Horizontal, area),
    ensures
        part.width == content::width_of(lines),
        part.height == area.height,
{
    let width = content::width_of(lines);
    let widths = seq![Constraint::Length(width)];
    let parts = seq![part];
    layout::lemma_one_length(width);
    assert(layout::lengths_fit(Direction::Horizontal, widths, 0, Flex::Center, area));
    assert(widths[0] is Length);
    assert(parts[0] == part);
}

/// Draws the help with its parts at the given places.
pub fn draw_help(f: &mut Frame, areas: HelpAreas)
    ensures
        final(f)@ == old(f)@.with(help_draws(areas)),
{
    let ghost before = f@;
    f.draw(
        Draw::Paragraph {
            area: areas.introduction,
            text: introduction(),
            alignment: Alignment::Center,
            scroll: 0,
        },
    );
    f.draw(
        Draw::Paragraph {
            area: areas.keys,
            text: key_help(),
            alignment: Alignment::Left,
            scroll: 0,
        },
    );
    f.draw(
        Draw::Paragraph {
            area: areas.legend,
            text: legend(),
            alignment: Alignment::Left,
            scroll: 0,
        },
    );
    assert(f@.draws =~= before.draws + help_draws(areas));
}

/// Draws the help in the middle of the area.
pub fn render_help(f: &mut Frame, area: Rect)
    ensures
        exists|areas: HelpAreas|
            #[trigger] is_placed(area, areas) && final(f)@ == old(f)@.with(help_draws(areas)),
{
    let areas = place(area);
    draw_help(f, areas);
}

} // verus!
