//! Laws of what is drawn.

use crate::app::AppView;
use crate::input;
use crate::pipeline::{ProcessStatus, StageExecutionView, StageView};
use crate::ui::binary;
use crate::ui::content;
use crate::ui::content::{SpanView, TextView};
use crate::ui::frame::{Alignment, DrawView};
use crate::ui::geometry::{Rect, Size};
use crate::ui::key::{KeyCode, KeyModifiers};
use crate::ui::key_name;
use crate::ui::popup;
use crate::ui::popup::{PopupAreas, PopupKeyView};
use crate::ui::screen::ScreenAreasView;
use crate::ui::stage;
use crate::ui::stage::StageAreas;
use crate::ui::style::{Color, Style};
use crate::ui::utils;
use vstd::prelude::*;

verus! {

/// Whether a style is nothing but a color of the text, or none.
pub open spec fn is_colored(style: Style, color: Option<Color>) -> bool {
    style.fg == color && style.bg is None && !style.bold && !style.crossed_out
}

/// Each part of a style can be set without a change of the others.
pub proof fn law_styles_add_up(style: Style, color: Color)
    ensures
        is_colored(Style::plain(), None),
        style.fg(color) == (Style { fg: Some(color), ..style }),
        style.bg(color) == (Style { bg: Some(color), ..style }),
        style.bold() == (Style { bold: true, ..style }),
        style.crossed_out() == (Style { crossed_out: true, ..style }),
{
}

/// Whether a span shows a text in a color.
pub open spec fn is_sign(span: SpanView, text: Seq<char>, color: Color) -> bool {
    span.content == text && is_colored(span.style, Some(color))
}

/// A stage that runs has a yellow dot, one that was successful a green check mark, and one that
/// failed a red cross. One that was ended by a signal, and one of which nothing is known, have signs
/// of their own, and one that is not executed has none.
pub proof fn law_signs_tell_how_it_goes(exec: StageExecutionView)
    ensures
        stage::status_sign(None).content == " "@,
        exec.status is Running ==> is_sign(stage::status_sign(Some(exec)), "•"@, Color::Yellow),
        exec.status matches ProcessStatus::Exited(status) ==> match (status.code, status.signal) {
            (Some(code), _) => if code == 0 {
                is_sign(stage::status_sign(Some(exec)), "✔︎"@, Color::Green)
            } else {
                is_sign(stage::status_sign(Some(exec)), "✖︎"@, Color::Red)
            },
            (None, Some(_)) => is_sign(stage::status_sign(Some(exec)), "ѳ"@, Color::Red),
            (None, None) => is_sign(stage::status_sign(Some(exec)), "?"@, Color::Red),
        },
{
}

/// A command is crossed out just where its stage is disabled, and bold just where it is not the
/// command that was executed for its stage. It has no color of its own.
pub proof fn law_commands_look_as_they_are(stage: StageView, exec: Option<StageExecutionView>)
    ensures
        ({
            let style = stage::command_style(stage, exec);
            &&& style.crossed_out <==> !stage.enabled
            &&& style.bold <==> !(exec is Some && exec->0.command == stage.field.text)
            &&& style.fg is None && style.bg is None
        }),
{
}

/// The output that is shown is that of the stage with the index that was asked for: its output if
/// there is any, its error output if there is any, and its empty output if there is neither.
pub proof fn law_shown_output(state: AppView)
    ensures
        ({
            let id = state.pipeline[state.shown as int].id;
            let exec = state.execution.pipeline[state.execution.index[id] as int];
            let executed = state.execution.index.dom().contains(id);
            &&& state.shows_output() <==> executed && !(exec.output.len() == 0
                && exec.eoutput.len() > 0)
            &&& state.shows_eoutput() <==> executed && exec.eoutput.len() > 0
            &&& state.shows_help() <==> !executed
        }),
{
}

/// The spans of a command that is not highlighted are the command itself.
pub proof fn law_plain_command_is_shown_as_it_is(command: Seq<char>, style: Style)
    ensures
        stage::command_spans(command, style, false) is Some,
        stage::command_spans(command, style, false)->0.len() == 1,
        stage::command_spans(command, style, false)->0[0].content == command,
        stage::command_spans(command, style, false)->0[0].style == style,
{
}

/// Whether three draws show a stage: a prompt sign that is green just where the stage has the focus,
/// the spans of its command, and a sign at the right.
pub open spec fn shows_stage(
    draws: Seq<DrawView>,
    at: int,
    areas: StageAreas,
    focused: bool,
    command: Seq<SpanView>,
    sign: SpanView,
    scroll: usize,
) -> bool {
    &&& draws[at] matches DrawView::Span { area, span } && {
        &&& area == areas.marker
        &&& span.content == "❯"@
        &&& is_colored(
            span.style,
            Some(
                if focused {
                    Color::Green
                } else {
                    Color::Gray
                },
            ),
        )
    }
    &&& draws[at + 1] matches DrawView::Paragraph { area, text, alignment, scroll: skipped } && {
        &&& area == areas.command
        &&& text.lines == seq![command]
        &&& is_colored(text.style, None)
        &&& alignment == Alignment::Left
        &&& skipped == scroll as u16
    }
    &&& draws[at + 2] matches DrawView::Paragraph { area, text, alignment, scroll: skipped } && {
        &&& area == areas.status
        &&& text.lines == seq![seq![sign]]
        &&& is_colored(text.style, None)
        &&& alignment == Alignment::Right
        &&& skipped == 0
    }
}

proof fn lemma_stage_draws(state: AppView, areas: Seq<StageAreas>, n: int)
    requires
        0 <= n,
    ensures
        state.stage_draws(areas, n).len() == 3 * n,
        forall|i: int|
            #![trigger areas[i]]
            0 <= i < n ==> shows_stage(
                state.stage_draws(areas, n),
                3 * i,
                areas[i],
                i == state.focused,
                stage::command_spans(
                    state.pipeline[i].field.text,
                    stage::command_style(state.pipeline[i], state.execution_of(i)),
                    state.syntax_highlight,
                )->0,
                stage::status_sign(state.execution_of(i)),
                stage::scroll_of(state.pipeline[i], areas[i]),
            ),
    decreases n,
{
    if n > 0 {
        lemma_stage_draws(state, areas, n - 1);
        let before = state.stage_draws(areas, n - 1);
        let all = state.stage_draws(areas, n);
        assert(forall|k: int| 0 <= k < before.len() ==> all[k] == before[k]);
        let i = n - 1;
        let own = stage::draws_of(
            state.pipeline[i],
            state.execution_of(i),
            areas[i],
            i == state.focused,
            state.syntax_highlight,
        );
        assert(all == before + own);
        assert(all[3 * i] == own[0] && all[3 * i + 1] == own[1] && all[3 * i + 2] == own[2]);
    }
}

/// Whether a draw shows output in an area, over the given color.
pub open spec fn shows_bytes(
    draw: DrawView,
    area: Rect,
    output: Seq<u8>,
    color: Option<Color>,
) -> bool {
    let size = Size { width: area.width, height: area.height };
    draw matches DrawView::Text { area: drawn, text, alignment } && {
        &&& drawn == area
        &&& text.lines == binary::rendered(binary::graphemes_of(output), size)
        &&& is_colored(text.style, color)
        &&& alignment == Alignment::Left
    }
}

/// The number of draws of something that takes `count` of them, if it is there.
pub open spec fn draws_if(condition: bool, count: int) -> int {
    if condition {
        count
    } else {
        0
    }
}

/// All is drawn that has a place, and nothing else: the help, the output and, in red, the error
/// output of the shown stage, each stage with its own execution, and the popup above all of it.
#[verifier::rlimit(40)]
pub proof fn law_screen_shows_everything(state: AppView, areas: ScreenAreasView)
    requires
        state.running(),
    ensures
        ({
            let draws = state.screen(areas);
            let n = state.pipeline.len() as int;
            let id = state.pipeline[state.shown as int].id;
            let shown = state.execution.pipeline[state.execution.index[id] as int];
            let output = draws_if(areas.help is Some, 3);
            let eoutput = output + draws_if(areas.output is Some, 1);
            let first = eoutput + draws_if(areas.eoutput is Some, 1);
            let popup = first + 3 * n;
            &&& draws.len() == popup + draws_if(areas.popup is Some && state.popup is Some, 4)
            &&& areas.help matches Some(help) ==> draws.take(3) == utils::help_draws(help)
            &&& state.execution.index.dom().contains(id) ==> {
                &&& areas.output matches Some(area) ==> shows_bytes(
                    draws[output],
                    area,
                    shown.output,
                    None,
                )
                &&& areas.eoutput matches Some(area) ==> shows_bytes(
                    draws[eoutput],
                    area,
                    shown.eoutput,
                    Some(Color::Red),
                )
            }
            &&& forall|i: int|
                #![trigger areas.stages[i]]
                0 <= i < n ==> shows_stage(
                    draws,
                    first + 3 * i,
                    areas.stages[i],
                    i == state.focused,
                    stage::command_spans(
                        state.pipeline[i].field.text,
                        stage::command_style(state.pipeline[i], state.execution_of(i)),
                        state.syntax_highlight,
                    )->0,
                    stage::status_sign(state.execution_of(i)),
                    stage::scroll_of(state.pipeline[i], areas.stages[i]),
                )
            &&& areas.popup is Some && state.popup is Some ==> draws.skip(popup)
                == popup::popup_draws(state.popup->0, areas.popup->0)
        }),
{
    let n = state.pipeline.len() as int;
    let draws = state.screen(areas);
    lemma_stage_draws(state, areas.stages, n);
    let stages = state.stage_draws(areas.stages, n);
    let output = draws_if(areas.help is Some, 3);
    let first = output + draws_if(areas.output is Some, 1) + draws_if(areas.eoutput is Some, 1);
    assert forall|k: int| 0 <= k < 3 * n implies draws[first + k] == #[trigger] stages[k] by {}
    assert forall|i: int|
        #![trigger areas.stages[i]]
        0 <= i < n implies shows_stage(
        draws,
        first + 3 * i,
        areas.stages[i],
        i == state.focused,
        stage::command_spans(
            state.pipeline[i].field.text,
            stage::command_style(state.pipeline[i], state.execution_of(i)),
            state.syntax_highlight,
        )->0,
        stage::status_sign(state.execution_of(i)),
        stage::scroll_of(state.pipeline[i], areas.stages[i]),
    ) by {
        assert(draws[first + 3 * i] == stages[3 * i]);
        assert(draws[first + (3 * i + 1)] == stages[3 * i + 1]);
        assert(draws[first + (3 * i + 2)] == stages[3 * i + 2]);
    }
    if let Some(help) = areas.help {
        assert(draws.take(3) =~= utils::help_draws(help));
    }
    if areas.popup is Some && state.popup is Some {
        assert(draws.skip(first + 3 * n) =~= popup::popup_draws(state.popup->0, areas.popup->0));
    }
}

/// The execution that a stage is shown with is the one that the index leads to.
pub proof fn law_stages_are_shown_with_their_execution(state: AppView, i: int)
    requires
        0 <= i < state.pipeline.len(),
    ensures
        ({
            let id = state.pipeline[i].id;
            &&& state.execution_of(i) is Some <==> state.execution.index.dom().contains(id)
            &&& state.execution_of(i) is Some ==> state.execution_of(i)->0
                == state.execution.pipeline[state.execution.index[id] as int]
        }),
{
}

/// The cursor is in the focused command, as many columns behind its start as are before the cursor
/// and not scrolled away.
pub proof fn law_cursor_is_in_the_focused_command(state: AppView, areas: Seq<StageAreas>)
    requires
        state.running(),
    ensures
        ({
            let at = state.focused as int;
            let field = state.pipeline[at].field;
            let area = areas[at].command;
            let scroll = input::scroll_column(
                field.text,
                field.cursor,
                (area.width - 1) as usize,
            );
            let column = input::cursor_column(field.text, field.cursor);
            &&& state.cursor(areas).y == area.y
            &&& scroll <= column && area.x + (column - scroll) <= u16::MAX ==> state.cursor(areas).x
                == area.x + (column - scroll)
            &&& column < scroll ==> state.cursor(areas).x == area.x
        }),
{
}

/// What has room is drawn: a stage with a column for its command and its cursor on the screen, and
/// output in any area that is not empty.
pub proof fn law_what_has_room_is_drawn(state: AppView, areas: ScreenAreasView)
    requires
        state.running(),
        areas.output matches Some(area) ==> area.width > 0 && area.height > 0,
        areas.eoutput matches Some(area) ==> area.width > 0 && area.height > 0,
        areas.popup matches Some(popup) ==> popup.inner().x > 0 && popup.inner().y > 0
            && popup.inner().width < u16::MAX - 1 && popup.inner().height < u16::MAX - 1,
        !state.syntax_highlight,
        forall|i: int|
            #![trigger areas.stages[i]]
            0 <= i < state.pipeline.len() ==> {
                let area = areas.stages[i].command;
                let field = state.pipeline[i].field;
                let column = input::cursor_column(field.text, field.cursor);
                area.width > 0 && area.x + column <= u16::MAX
            },
    ensures
        state.can_draw(areas),
{
    assert forall|i: int| 0 <= i < state.pipeline.len() implies #[trigger] state.can_draw_stage(
        areas.stages,
        i,
    ) by {
        let area = areas.stages[i].command;
        assert(area.width > 0);
    }
    if areas.output is Some || areas.eoutput is Some {
        let exec = state.shown_stage_execution();
        binary::law_area_has_room(binary::graphemes_of(exec.output));
        binary::law_area_has_room(binary::graphemes_of(exec.eoutput));
    }
}

/// A popup covers a box with one more cell on each side than its parts take. In it, each entry has a
/// line with the name of its key at the right of the keys, and a line with its description at the
/// left of the descriptions.
pub proof fn law_popup_shows_all_entries(entries: Seq<PopupKeyView>, areas: PopupAreas)
    requires
        areas.inner().can_grow(),
    ensures
        ({
            let draws = popup::popup_draws(entries, areas);
            let inner = areas.inner();
            let whole = Rect {
                x: (inner.x - 1) as u16,
                y: (inner.y - 1) as u16,
                width: (inner.width + 2) as u16,
                height: (inner.height + 2) as u16,
            };
            &&& draws.len() == 4
            &&& draws[0] == DrawView::Clear { area: whole }
            &&& draws[1] matches DrawView::Fill { area, style } && area == whole && style.bg
                == Some(Color::LightCyan) && style.fg is None
            &&& draws[2] matches DrawView::Text { area, text, alignment } && {
                &&& area == areas.keys
                &&& alignment == Alignment::Right
                &&& text.lines.len() == entries.len()
                &&& forall|i: int|
                    #![trigger text.lines[i]]
                    0 <= i < entries.len() ==> {
                        &&& text.lines[i].len() == 1
                        &&& text.lines[i][0].content == key_name::full_name(
                            entries[i].modifiers,
                            entries[i].code,
                        )
                        &&& text.lines[i][0].style.bold
                        &&& text.lines[i][0].style.fg == Some(Color::Black)
                    }
            }
            &&& draws[3] matches DrawView::Text { area, text, alignment } && {
                &&& area == areas.descriptions
                &&& alignment == Alignment::Left
                &&& text.lines.len() == entries.len()
                &&& forall|i: int|
                    #![trigger text.lines[i]]
                    0 <= i < entries.len() ==> {
                        &&& text.lines[i].len() == 1
                        &&& text.lines[i][0].content == entries[i].description
                        &&& is_colored(text.lines[i][0].style, None)
                    }
            }
        }),
{
}

/// The name of a key with modifiers names Control first, then Shift, then Alt, and then the key. Of
/// the modifiers, Shift counts 1, Control 2 and Alt 4.
pub proof fn law_names_of_modifiers(modifiers: KeyModifiers, code: KeyCode)
    ensures
        key_name::full_name(modifiers, code) == (if (modifiers.bits / 2) % 2 == 1 {
            "Ctrl-"@
        } else {
            Seq::empty()
        }) + (if modifiers.bits % 2 == 1 {
            "Shift-"@
        } else {
            Seq::empty()
        }) + (if (modifiers.bits / 4) % 2 == 1 {
            "Alt-"@
        } else {
            Seq::empty()
        }) + key_name::key_name(code),
{
    let bits = modifiers.bits;
    assert((bits & 2 == 2) == ((bits / 2) % 2 == 1)) by (bit_vector);
    assert((bits & 1 == 1) == (bits % 2 == 1)) by (bit_vector);
    assert((bits & 4 == 4) == ((bits / 4) % 2 == 1)) by (bit_vector);
}

/// A character is its own name, but for the blank. The other keys that have a use have short names.
pub proof fn law_names_of_keys(c: char)
    ensures
        c != ' ' ==> key_name::key_name(KeyCode::Char(c)) == seq![c],
        key_name::key_name(KeyCode::Char(' ')) == "Space"@,
        key_name::key_name(KeyCode::Enter) == "Enter"@,
        key_name::key_name(KeyCode::Esc) == "Esc"@,
        key_name::key_name(KeyCode::Backspace) == "Backspace"@,
        key_name::key_name(KeyCode::Tab) == "Tab"@,
        key_name::key_name(KeyCode::Up) == seq!['↑'],
        key_name::key_name(KeyCode::Down) == seq!['↓'],
        key_name::key_name(KeyCode::Left) == seq!['←'],
        key_name::key_name(KeyCode::Right) == seq!['→'],
{
}

} // verus!
