//! Laws of the keys: what the user gets for pressing them.

use crate::app::{AppView, Effect, ExecutionMode, ExternalProcess, QuitView};
use crate::event_loop::UiEvent;
use crate::input;
use crate::input::{FieldKey, FieldState};
use crate::laws;
use crate::options::PrintOnExit;
use crate::pipeline::{StageExecutionView, StageView};
use crate::text;
use crate::ui::key::{Event, KeyCode, KeyEvent, KeyEventKind, KeyModifiers};
use vstd::prelude::*;
use vstd::utf8::*;

verus! {

/// The press of a key. Of the modifiers, Shift counts 1, Control 2 and Alt 4.
pub open spec fn press(code: KeyCode, modifiers: u8) -> UiEvent {
    UiEvent::Term(
        Event::Key(
            KeyEvent {
                code,
                modifiers: KeyModifiers { bits: modifiers },
                kind: KeyEventKind::Press,
            },
        ),
    )
}

/// Whether `after` is `before` with an empty, enabled stage at the given place.
pub open spec fn has_new_stage(before: AppView, after: AppView, at: int) -> bool {
    &&& after == AppView {
        pipeline: after.pipeline,
        next_id: after.next_id,
        focused: after.focused,
        ..before
    }
    &&& after.pipeline.len() == before.pipeline.len() + 1
    &&& forall|i: int| 0 <= i < at ==> #[trigger] after.pipeline[i] == before.pipeline[i]
    &&& forall|i: int|
        at < i < after.pipeline.len() ==> #[trigger] after.pipeline[i] == before.pipeline[i - 1]
    &&& after.pipeline[at].field.text.len() == 0
    &&& after.pipeline[at].field.cursor == 0
    &&& after.pipeline[at].enabled
    &&& forall|i: int|
        0 <= i < before.pipeline.len() ==> (#[trigger] before.pipeline[i]).id
            != after.pipeline[at].id
    &&& after.next_id == before.next_id + 1
}

/// Ctrl-P makes an empty stage in the place of the focused one, Ctrl-N makes one behind it. The
/// new stage has the focus, and all others keep their order.
pub proof fn law_keys_for_new_stages(state: AppView)
    requires
        state.running(),
        state.popup is None,
        state.next_id < usize::MAX,
        state.pipeline.len() <= usize::MAX,
    ensures
        ({
            let above = state.after(press(KeyCode::Char('p'), 2));
            let below = state.after(press(KeyCode::Char('n'), 2));
            &&& has_new_stage(state, above, state.focused as int)
            &&& above.focused == state.focused
            &&& has_new_stage(state, below, state.focused + 1)
            &&& below.focused == state.focused + 1
        }),
{
    let above = state.after(press(KeyCode::Char('p'), 2));
    let below = state.after(press(KeyCode::Char('n'), 2));
    assert(above == state.with_new_stage(state.focused as int));
    assert(below.pipeline == state.with_new_stage(state.focused + 1).pipeline);
}

/// Ctrl-D takes the focused stage away, and no other, unless it is the only one. The focus moves to
/// the stage before it, if there is one.
pub proof fn law_key_for_deletion(state: AppView)
    requires
        state.running(),
        state.popup is None,
        state.pipeline.len() <= usize::MAX,
    ensures
        ({
            let after = state.after(press(KeyCode::Char('d'), 2));
            &&& state.pipeline.len() == 1 ==> after == state
            &&& state.pipeline.len() > 1 ==> {
                &&& after == AppView {
                    pipeline: after.pipeline,
                    focused: after.focused,
                    shown: after.shown,
                    ..state
                }
                &&& after.pipeline.len() == state.pipeline.len() - 1
                &&& forall|i: int|
                    0 <= i < state.focused ==> #[trigger] after.pipeline[i] == state.pipeline[i]
                &&& forall|i: int|
                    state.focused <= i < after.pipeline.len() ==> #[trigger] after.pipeline[i]
                        == state.pipeline[i + 1]
                &&& state.focused > 0 ==> after.focused == state.focused - 1
                &&& state.focused == 0 ==> after.focused == 0
                &&& state.shown < after.pipeline.len() ==> after.shown == state.shown
                &&& state.shown == after.pipeline.len() ==> after.shown == state.shown - 1
            }
        }),
{
    let after = state.after(press(KeyCode::Char('d'), 2));
    assert(after == state.with_stage_deleted());
}

/// Ctrl-X disables the focused stage if it is enabled, and enables it otherwise. Nothing else
/// changes.
pub proof fn law_key_for_toggling(state: AppView)
    requires
        state.running(),
        state.popup is None,
    ensures
        ({
            let after = state.after(press(KeyCode::Char('x'), 2));
            let at = state.focused as int;
            &&& after == AppView { pipeline: after.pipeline, ..state }
            &&& after.pipeline.len() == state.pipeline.len()
            &&& forall|i: int|
                0 <= i < state.pipeline.len() && i != at ==> #[trigger] after.pipeline[i]
                    == state.pipeline[i]
            &&& after.pipeline[at].enabled != state.pipeline[at].enabled
            &&& after.pipeline[at].id == state.pipeline[at].id
            &&& after.pipeline[at].field == state.pipeline[at].field
        }),
{
}

/// The arrow keys move the focus by one stage, as far as there is one, and change nothing else.
pub proof fn law_keys_for_the_focus(state: AppView)
    requires
        state.running(),
        state.popup is None,
        state.pipeline.len() <= usize::MAX,
    ensures
        ({
            let up = state.after(press(KeyCode::Up, 0));
            let down = state.after(press(KeyCode::Down, 0));
            &&& up == AppView { focused: up.focused, ..state }
            &&& state.focused > 0 ==> up.focused == state.focused - 1
            &&& state.focused == 0 ==> up.focused == 0
            &&& down == AppView { focused: down.focused, ..state }
            &&& state.focused + 1 < state.pipeline.len() ==> down.focused == state.focused + 1
            &&& state.focused + 1 == state.pipeline.len() ==> down.focused == state.focused
        }),
{
}

/// Ctrl-Space shows the output of the focused stage, and changes nothing else.
pub proof fn law_key_for_the_shown_output(state: AppView)
    requires
        state.running(),
        state.popup is None,
    ensures
        ({
            let after = state.after(press(KeyCode::Char(' '), 2));
            &&& after.shown == state.focused
            &&& after == AppView { shown: after.shown, ..state }
        }),
{
}

/// Enter asks for an execution of the enabled commands up to the focused stage, Alt-Enter for one
/// of all of them. Both show the output of the focused stage, and edit nothing.
pub proof fn law_keys_for_execution(state: AppView, mode: ExecutionMode)
    requires
        state.running(),
        state.popup is None,
    ensures
        ({
            let key = press(
                KeyCode::Enter,
                if mode == ExecutionMode::All {
                    4
                } else {
                    0
                },
            );
            let after = state.after(key);
            &&& after == AppView {
                pending: after.pending,
                execution: after.execution,
                shown: after.shown,
                ..state
            }
            &&& after.shown == state.focused
            &&& after.pending is Some
            &&& laws::pending_commands(after.pending->0) == laws::asked_commands(state, mode)
            &&& after == state.acted(laws::asking(mode))
            &&& forall|effect: Effect| #[trigger]
                state.event_has_effect(key, effect) <==> state.has_effect(
                    laws::asking(mode),
                    effect,
                )
        }),
{
    laws::law_execution_stops_at_the_focused_stage(state);
    laws::law_enabled_commands_are_executed(state.pipeline);
}

/// Ctrl-R asks for an execution as Alt-Enter does, but one that reuses nothing, and keeps the shown
/// stage.
pub proof fn law_key_for_a_restart(state: AppView)
    requires
        state.running(),
        state.popup is None,
    ensures
        ({
            let restarted = press(KeyCode::Char('r'), 2);
            let executed = press(KeyCode::Enter, 4);
            &&& state.after(restarted) == AppView {
                can_reuse: false,
                shown: state.shown,
                ..state.after(executed)
            }
            &&& forall|effect: Effect| #[trigger]
                state.event_has_effect(restarted, effect) <==> state.event_has_effect(
                    executed,
                    effect,
                )
        }),
{
}

/// Ctrl-Shift-C interrupts everything: no stage gets any more input, and every process that runs
/// and was not interrupted before is killed. All output is kept, and nothing else changes.
pub proof fn law_key_for_an_abort(state: AppView)
    requires
        state.running(),
        state.popup is None,
    ensures
        ({
            let key = press(KeyCode::Char('c'), 3);
            let after = state.after(key);
            let before = state.execution;
            &&& after == AppView { execution: after.execution, ..state }
            &&& after.execution.interrupted_since == 0
            &&& after.execution.index == before.index
            &&& after.execution.pipeline.len() == before.pipeline.len()
            &&& forall|i: int|
                0 <= i < before.pipeline.len() ==> #[trigger] after.execution.pipeline[i]
                    == (StageExecutionView { stdin: false, ..before.pipeline[i] })
            &&& forall|effect: Effect, i: usize|
                #![trigger state.event_has_effect(key, effect), before.pipeline[i as int]]
                state.event_has_effect(key, effect) ==> (effect is Kill && (
                effect->Kill_0@.contains(i) <==> {
                    &&& i < before.pipeline.len()
                    &&& i < before.interrupted_since
                    &&& before.pipeline[i as int].status is Running
                }))
        }),
{
    let key = press(KeyCode::Char('c'), 3);
    let before = state.execution;
    assert forall|effect: Effect, i: usize|
        #![trigger state.event_has_effect(key, effect), before.pipeline[i as int]]
        state.event_has_effect(key, effect) implies (effect is Kill && (effect->Kill_0@.contains(
        i,
    ) <==> {
        &&& i < before.pipeline.len()
        &&& i < before.interrupted_since
        &&& before.pipeline[i as int].status is Running
    })) by {
        let killed = effect->Kill_0@;
        assert(crate::app::is_kill(effect, before, 0));
        if killed.contains(i) {
            let j = choose|j: int| 0 <= j < killed.len() && killed[j] == i;
            assert(before.kills(0, killed[j] as int));
        }
        if i < before.pipeline.len() && i < before.interrupted_since
            && before.pipeline[i as int].status is Running {
            assert(before.kills(0, i as int));
        }
    }
}

/// Ctrl-L launches the pager where the shown stage has an output, and does nothing otherwise.
pub proof fn law_key_for_the_pager(state: AppView)
    requires
        state.running(),
        state.popup is None,
    ensures
        ({
            let key = press(KeyCode::Char('l'), 2);
            let has_output = state.execution.index.dom().contains(
                state.pipeline[state.shown as int].id,
            );
            &&& state.after(key) == state
            &&& forall|effect: Effect| #[trigger]
                state.event_has_effect(key, effect) <==> if has_output {
                    effect is LaunchPager
                } else {
                    effect is Nothing
                }
        }),
{
}

/// Ctrl-V launches an editor on the command of the focused stage. The terminal is the editor's from
/// then on; nothing else changes.
pub proof fn law_key_for_the_editor(state: AppView)
    requires
        state.running(),
        state.popup is None,
    ensures
        ({
            let key = press(KeyCode::Char('v'), 2);
            &&& state.after(key) == AppView { external: Some(ExternalProcess::Editor), ..state }
            &&& forall|effect: Effect| #[trigger]
                state.event_has_effect(key, effect) <==> (effect matches Effect::LaunchEditor(
                    command,
                ) && command@ == state.pipeline[state.focused as int].field.text)
        }),
{
}

/// The application behind the press of Ctrl and a letter and that of another letter alone.
pub open spec fn after_two(state: AppView, first: char, second: char) -> AppView {
    state.after(press(KeyCode::Char(first), 2)).after(press(KeyCode::Char(second), 0))
}

/// Whether `quit` prints the commands of all stages, in order.
pub open spec fn prints_pipeline(state: AppView, quit: Option<QuitView>) -> bool {
    quit matches Some(QuitView::Pipeline(commands)) && {
        &&& commands.len() == state.pipeline.len()
        &&& forall|i: int|
            0 <= i < commands.len() ==> #[trigger] commands[i] == state.pipeline[i].field.text
    }
}

/// Whether `quit` prints the output of the last stage that is executed, or fails if there is none.
pub open spec fn prints_output(state: AppView, quit: Option<QuitView>) -> bool {
    let stages = state.execution.pipeline;
    if stages.len() == 0 {
        quit == Some(QuitView::Cancel)
    } else {
        quit == Some(QuitView::Output(stages[stages.len() - 1].output))
    }
}

/// Ctrl-Q quits at once where nothing is to be printed. Otherwise it asks: depending on what is to
/// be printed, a letter quits with or without that, and nothing has happened until then.
pub proof fn law_keys_to_quit(state: AppView)
    requires
        state.running(),
        state.popup is None,
    ensures
        ({
            let asked = state.after(press(KeyCode::Char('q'), 2));
            match state.print_on_exit {
                PrintOnExit::Nothing => asked == AppView { quit: Some(QuitView::Success), ..state },
                PrintOnExit::Ask => {
                    &&& after_two(state, 'q', 'q').quit == Some(QuitView::Success)
                    &&& prints_output(state, after_two(state, 'q', 'o').quit)
                    &&& prints_pipeline(state, after_two(state, 'q', 'p').quit)
                },
                PrintOnExit::Pipeline => {
                    &&& prints_pipeline(state, after_two(state, 'q', 'y').quit)
                    &&& after_two(state, 'q', 'n').quit == Some(QuitView::Cancel)
                },
                PrintOnExit::Output => {
                    &&& prints_output(state, after_two(state, 'q', 'y').quit)
                    &&& after_two(state, 'q', 'n').quit == Some(QuitView::Cancel)
                },
            }
        }),
        state.print_on_exit !is Nothing ==> {
            let asked = state.after(press(KeyCode::Char('q'), 2));
            &&& asked.quit is None
            &&& asked.popup is Some
            &&& asked == AppView { popup: asked.popup, ..state }
        },
{
    reveal_with_fuel(crate::ui::popup::action_for_key, 4);
    let asked = state.after(press(KeyCode::Char('q'), 2));
    match state.print_on_exit {
        PrintOnExit::Nothing => {},
        PrintOnExit::Ask => {
            let entries = asked.popup->0;
            assert(entries.drop_first()[0] == entries[1]);
            assert(entries.drop_first().drop_first()[0] == entries[2]);
        },
        PrintOnExit::Pipeline => {
            let entries = asked.popup->0;
            assert(entries.drop_first()[0] == entries[1]);
        },
        PrintOnExit::Output => {
            let entries = asked.popup->0;
            assert(entries.drop_first()[0] == entries[1]);
        },
    }
}

/// Whether the effect of an event is to set the clipboard to the given text.
pub open spec fn copies(state: AppView, event: UiEvent, copied: Seq<char>) -> bool {
    forall|effect: Effect| #[trigger]
        state.event_has_effect(event, effect) <==> (effect matches Effect::SetClipboard(set) && set@
            == copied)
}

/// Whether an event has no effect.
pub open spec fn copies_nothing(state: AppView, event: UiEvent) -> bool {
    forall|effect: Effect| #[trigger]
        state.event_has_effect(event, effect) <==> effect is Nothing
}

/// Whether the effect of an event is to copy the given output. What is no valid UTF-8 is not
/// copied.
pub open spec fn copies_output(state: AppView, event: UiEvent, output: Seq<u8>) -> bool {
    if valid_utf8(output) {
        copies(state, event, decode_utf8(output))
    } else {
        copies_nothing(state, event)
    }
}

/// The commands of some stages as one pipeline: what stands before a stage, the text ` | `, and the
/// command of the stage.
pub open spec fn written_pipeline(stages: Seq<StageView>) -> Seq<char>
    decreases stages.len(),
{
    if stages.len() == 0 {
        Seq::empty()
    } else if stages.len() == 1 {
        stages[0].field.text
    } else {
        written_pipeline(stages.drop_last()) + " | "@ + stages.last().field.text
    }
}

/// The commands of the stages, joined, are the written pipeline.
pub proof fn lemma_written_pipeline(stages: Seq<StageView>)
    ensures
        text::joined(crate::app::commands_of(stages)) == written_pipeline(stages),
    decreases stages.len(),
{
    let commands = crate::app::commands_of(stages);
    if stages.len() > 1 {
        lemma_written_pipeline(stages.drop_last());
        assert(commands =~= crate::app::commands_of(stages.drop_last()).push(
            stages.last().field.text,
        ));
        text::law_joined_with_bars(
            crate::app::commands_of(stages.drop_last()),
            stages.last().field.text,
        );
    }
}

/// Ctrl-Y asks what to copy, and has done nothing until then: `c` copies the command of the focused
/// stage, `p` the commands of all stages as one pipeline, `s` the output of the shown stage and `o`
/// that of the last one. Nothing but the clipboard changes.
pub proof fn law_keys_to_copy(state: AppView)
    requires
        state.running(),
        state.popup is None,
    ensures
        ({
            let asked = state.after(press(KeyCode::Char('y'), 2));
            let stages = state.execution.pipeline;
            let id = state.pipeline[state.shown as int].id;
            let index = state.execution.index;
            let output = press(KeyCode::Char('o'), 0);
            let shown = press(KeyCode::Char('s'), 0);
            &&& asked.popup is Some
            &&& asked == AppView { popup: asked.popup, ..state }
            &&& copies_nothing(state, press(KeyCode::Char('y'), 2))
            &&& after_two(state, 'y', 'c') == state
            &&& after_two(state, 'y', 'p') == state
            &&& after_two(state, 'y', 's') == state
            &&& after_two(state, 'y', 'o') == state
            &&& copies(
                asked,
                press(KeyCode::Char('c'), 0),
                state.pipeline[state.focused as int].field.text,
            )
            &&& copies(asked, press(KeyCode::Char('p'), 0), written_pipeline(state.pipeline))
            &&& if index.dom().contains(id) {
                copies_output(asked, shown, stages[index[id] as int].output)
            } else {
                copies_nothing(asked, shown)
            }
            &&& if stages.len() > 0 {
                copies_output(asked, output, stages[stages.len() - 1].output)
            } else {
                copies_nothing(asked, output)
            }
        }),
{
    lemma_written_pipeline(state.pipeline);
    reveal_with_fuel(crate::ui::popup::action_for_key, 5);
    let asked = state.after(press(KeyCode::Char('y'), 2));
    let entries = asked.popup->0;
    assert(entries.drop_first()[0] == entries[1]);
    assert(entries.drop_first().drop_first()[0] == entries[2]);
    assert(entries.drop_first().drop_first().drop_first()[0] == entries[3]);
}

/// Esc takes both questions back, as if nothing had been asked.
pub proof fn law_key_to_take_back(state: AppView)
    requires
        state.running(),
        state.popup is None,
    ensures
        state.print_on_exit !is Nothing ==> state.after(press(KeyCode::Char('q'), 2)).after(
            press(KeyCode::Esc, 0),
        ) == state,
        state.after(press(KeyCode::Char('y'), 2)).after(press(KeyCode::Esc, 0)) == state,
{
}

/// The letters that answer the question that is asked on quitting.
pub open spec fn quits(print_on_exit: PrintOnExit, c: char) -> bool {
    match print_on_exit {
        PrintOnExit::Nothing => false,
        PrintOnExit::Ask => c == 'q' || c == 'o' || c == 'p',
        PrintOnExit::Pipeline | PrintOnExit::Output => c == 'y' || c == 'n',
    }
}

/// Whether a key is one of the given letters, alone, or Esc.
pub open spec fn answers(pressed: KeyEvent, letters: spec_fn(char) -> bool) -> bool {
    &&& pressed.kind == KeyEventKind::Press
    &&& pressed.modifiers.bits == 0
    &&& pressed.code matches KeyCode::Char(c) ==> letters(c)
    &&& !(pressed.code is Char) ==> pressed.code == KeyCode::Esc
}

/// While a question is asked, keys that do not answer it do nothing.
pub proof fn law_other_keys_leave_questions_open(state: AppView, event: Event)
    requires
        state.running(),
        state.popup is None,
    ensures
        ({
            let asked = state.after(press(KeyCode::Char('q'), 2));
            let answered = event matches Event::Key(pressed) && answers(
                pressed,
                |c: char| quits(state.print_on_exit, c),
            );
            state.print_on_exit !is Nothing && !answered ==> {
                &&& asked.after(UiEvent::Term(event)) == asked
                &&& copies_nothing(asked, UiEvent::Term(event))
            }
        }),
        ({
            let asked = state.after(press(KeyCode::Char('y'), 2));
            let answered = event matches Event::Key(pressed) && answers(
                pressed,
                |c: char| c == 'c' || c == 'p' || c == 's' || c == 'o',
            );
            !answered ==> {
                &&& asked.after(UiEvent::Term(event)) == asked
                &&& copies_nothing(asked, UiEvent::Term(event))
            }
        }),
{
    reveal_with_fuel(crate::ui::popup::action_for_key, 5);
    let quitting = state.after(press(KeyCode::Char('q'), 2)).popup->0;
    let copying = state.after(press(KeyCode::Char('y'), 2)).popup->0;
    assert(copying.drop_first()[0] == copying[1]);
    assert(copying.drop_first().drop_first()[0] == copying[2]);
    assert(copying.drop_first().drop_first().drop_first()[0] == copying[3]);
    if state.print_on_exit !is Nothing {
        assert(quitting.drop_first()[0] == quitting[1]);
        if state.print_on_exit is Ask {
            assert(quitting.drop_first().drop_first()[0] == quitting[2]);
        }
    }
}

/// Whether a key stands for something else than an edit of the focused command.
pub open spec fn is_shortcut(code: KeyCode, modifiers: u8) -> bool {
    match code {
        KeyCode::Char(c) => {
            ||| modifiers == 2 && (c == 'q' || c == 'y' || c == 'p' || c == 'n' || c == 'd' || c
                == 'x' || c == ' ' || c == 'l' || c == 'v' || c == 'r')
            ||| modifiers == 3 && c == 'c'
        },
        KeyCode::Up | KeyCode::Down => modifiers == 0,
        KeyCode::Enter => modifiers == 0 || modifiers == 4,
        _ => false,
    }
}

/// Every other key is handed to the focused command, and changes nothing else. What is no key does
/// nothing.
pub proof fn law_other_keys_edit_the_focused_command(state: AppView, pressed: KeyEvent)
    requires
        state.running(),
        state.popup is None,
        pressed.kind != KeyEventKind::Press || !is_shortcut(pressed.code, pressed.modifiers.bits),
    ensures
        ({
            let event = UiEvent::Term(Event::Key(pressed));
            let after = state.after(event);
            let at = state.focused as int;
            &&& after == AppView { pipeline: after.pipeline, ..state }
            &&& after.pipeline.len() == state.pipeline.len()
            &&& forall|i: int|
                0 <= i < state.pipeline.len() && i != at ==> #[trigger] after.pipeline[i]
                    == state.pipeline[i]
            &&& after.pipeline[at].id == state.pipeline[at].id
            &&& after.pipeline[at].enabled == state.pipeline[at].enabled
            &&& after.pipeline[at].field == input::edited_by(
                state.pipeline[at].field,
                input::field_key(pressed.code),
                pressed.modifiers.bits,
                pressed.kind,
            )
            &&& copies_nothing(state, event)
        }),
        state.after(UiEvent::Term(Event::Other)) == state,
{
}

/// Text fields tell just the keys apart that move the cursor or change the text.
pub proof fn law_field_keys(code: KeyCode)
    ensures
        input::field_key(code) is Backspace <==> code is Backspace,
        input::field_key(code) is Delete <==> code is Delete,
        input::field_key(code) is Left <==> code is Left,
        input::field_key(code) is Right <==> code is Right,
        input::field_key(code) is Home <==> code is Home,
        input::field_key(code) is End <==> code is End,
        input::field_key(code) is Char <==> code is Char,
        code matches KeyCode::Char(c) ==> input::field_key(code) == FieldKey::Char(c),
{
}

/// A character that is typed stands between what was before the cursor and what was behind it, and
/// the cursor stands behind the character. What was cut before stays cut.
pub proof fn law_typed_character_stands_at_the_cursor(field: FieldState, c: char)
    requires
        field.is_consistent(),
    ensures
        ({
            let after = input::typed(field, c);
            let at = field.cursor as int;
            &&& after.text == field.text.take(at) + seq![c] + field.text.skip(at)
            &&& after.cursor == field.cursor + 1
            &&& after.cut_text == field.cut_text
            &&& after.is_consistent()
        }),
        forall|bits: u8, kind: KeyEventKind| #[trigger]
            input::types(FieldKey::Char(c), bits, kind) <==> (bits == 0 || bits == 1) && kind
                != KeyEventKind::Release,
{
    let at = field.cursor as int;
    assert(input::typed(field, c).text =~= field.text.take(at) + seq![c] + field.text.skip(at));
}

} // verus!
