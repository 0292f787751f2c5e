//! Text fields for commands, kept in `tui_input` buffers.

use crate::ui::key;
use crate::ui::key::{KeyCode, KeyEvent, KeyEventKind};
use crossterm::event::{Event as TermEvent, KeyCode as TermCode, KeyEvent as TermKey};
use crossterm::event::{KeyEventKind as TermKind, KeyModifiers as TermModifiers};
use tui_input::backend::crossterm::EventHandler;
use tui_input::Input;
use vstd::prelude::*;

verus! {

/// `tui_input::Input`, an opaque buffer of characters with a cursor.
#[verifier::external_type_specification]
#[verifier::external_body]
pub struct ExInput(tui_input::Input);

/// The characters of a text field.
pub uninterp spec fn text_of(field: Input) -> Seq<char>;

/// The number of characters before the cursor of a text field.
pub uninterp spec fn cursor_of(field: Input) -> nat;

/// The characters that were cut from a text field and would be put back.
pub uninterp spec fn cut_text_of(field: Input) -> Seq<char>;

/// Whether the next cut adds to the cut text of a text field instead of replacing it.
pub uninterp spec fn joins_cuts(field: Input) -> bool;

/// All that an edit of a text field depends on and changes.
pub struct FieldState {
    pub text: Seq<char>,
    pub cursor: nat,
    pub cut_text: Seq<char>,
    pub joins_cuts: bool,
}

impl FieldState {
    /// Whether the cursor lies within the text.
    pub open spec fn is_consistent(self) -> bool {
        self.cursor <= self.text.len()
    }
}

/// The state of a text field.
pub open spec fn state_of(field: Input) -> FieldState {
    FieldState {
        text: text_of(field),
        cursor: cursor_of(field),
        cut_text: cut_text_of(field),
        joins_cuts: joins_cuts(field),
    }
}

/// The state of a text field that was just made for `text`.
pub open spec fn fresh(text: Seq<char>) -> FieldState {
    FieldState { text, cursor: text.len(), cut_text: Seq::empty(), joins_cuts: false }
}

/// The keys that a text field tells apart.
#[derive(Debug, Clone, Copy, PartialEq, Eq, Structural)]
pub enum FieldKey {
    Backspace,
    Delete,
    Left,
    Right,
    Home,
    End,
    Char(char),
    /// Any other key. A text field has no use for it.
    Unused,
}

/// What a key of the terminal is to a text field.
pub open spec fn field_key(code: KeyCode) -> FieldKey {
    match code {
        KeyCode::Backspace => FieldKey::Backspace,
        KeyCode::Delete => FieldKey::Delete,
        KeyCode::Left => FieldKey::Left,
        KeyCode::Right => FieldKey::Right,
        KeyCode::Home => FieldKey::Home,
        KeyCode::End => FieldKey::End,
        KeyCode::Char(c) => FieldKey::Char(c),
        _ => FieldKey::Unused,
    }
}

/// The state of a text field after a key was handed to it.
pub uninterp spec fn edited_by(
    state: FieldState,
    key: FieldKey,
    bits: u8,
    kind: KeyEventKind,
) -> FieldState;

/// The state of a text field after a key of the terminal was handed to it.
pub open spec fn edited(state: FieldState, pressed: KeyEvent) -> FieldState {
    edited_by(state, field_key(pressed.code), pressed.modifiers.bits, pressed.kind)
}

/// Whether a key types the character that is on it.
pub open spec fn types(key: FieldKey, bits: u8, kind: KeyEventKind) -> bool {
    &&& key is Char
    &&& bits == key::NONE || bits == key::SHIFT
    &&& kind != KeyEventKind::Release
}

/// The state of a text field after a character was typed.
pub open spec fn typed(state: FieldState, c: char) -> FieldState {
    FieldState {
        text: state.text.insert(state.cursor as int, c),
        cursor: state.cursor + 1,
        joins_cuts: false,
        ..state
    }
}

/// The column of the cursor, counted from the start of the text.
pub uninterp spec fn cursor_column(text: Seq<char>, cursor: nat) -> usize;

/// The number of columns to skip so that the cursor shows in a window of the given width.
pub uninterp spec fn scroll_column(text: Seq<char>, cursor: nat, width: usize) -> usize;

/// `Input::new` holds the given text, with the cursor behind it and nothing cut.
pub assume_specification[ tui_input::Input::new ](value: String) -> (r: tui_input::Input)
    ensures
        text_of(r) == value@,
        cursor_of(r) == value@.len(),
        cut_text_of(r) == Seq::<char>::empty(),
        !joins_cuts(r),
;

/// `Input::value` shows the text.
pub assume_specification[ tui_input::Input::value ](field: &tui_input::Input) -> (r: &str)
    ensures
        r@ == text_of(*field),
;

/// `Input::value_and_reset` takes the text out and puts the cursor at the start. What was cut
/// stays.
pub assume_specification[ tui_input::Input::value_and_reset ](field: &mut tui_input::Input) -> (r: String)
    ensures
        r@ == text_of(*old(field)),
        state_of(*final(field)) == (FieldState {
            text: Seq::empty(),
            cursor: 0,
            ..state_of(*old(field))
        }),
;

/// `Input::visual_cursor` is the display width of the text before the cursor, which depends on
/// the text and the cursor alone.
pub assume_specification[ tui_input::Input::visual_cursor ](field: &tui_input::Input) -> (r: usize)
    ensures
        r == cursor_column(text_of(*field), cursor_of(*field)),
;

/// `Input::visual_scroll` is found from the text, the cursor and the width of the window alone.
pub assume_specification[ tui_input::Input::visual_scroll ](field: &tui_input::Input, width: usize) -> (r: usize)
    ensures
        r == scroll_column(text_of(*field), cursor_of(*field), width),
;

/// `EventHandler::handle_event` edits the field as the key asks: what the field is afterwards
/// depends on what it was and on the key alone. A key that is let go, or one that the field has no
/// use for (`Null` stands for all of them), changes nothing. A plain character is typed. The cursor
/// stays within the text.
#[verifier::external_body]
fn handle_field_key(field: &mut Input, key: FieldKey, bits: u8, kind: KeyEventKind)
    ensures
        state_of(*final(field)) == edited_by(state_of(*old(field)), key, bits, kind),
        key is Unused || kind == KeyEventKind::Release ==> state_of(*final(field)) == state_of(
            *old(field),
        ),
        types(key, bits, kind) && state_of(*old(field)).is_consistent() ==> state_of(*final(field))
            == typed(state_of(*old(field)), key->Char_0),
        state_of(*old(field)).is_consistent() ==> state_of(*final(field)).is_consistent(),
{
    let code = match key {
        FieldKey::Backspace => TermCode::Backspace,
        FieldKey::Delete => TermCode::Delete,
        FieldKey::Left => TermCode::Left,
        FieldKey::Right => TermCode::Right,
        FieldKey::Home => TermCode::Home,
        FieldKey::End => TermCode::End,
        FieldKey::Char(c) => TermCode::Char(c),
        FieldKey::Unused => TermCode::Null,
    };
    let kind = match kind { KeyEventKind::Press => TermKind::Press, KeyEventKind::Repeat => TermKind::Repeat, KeyEventKind::Release => TermKind::Release };
    field.handle_event(&TermEvent::Key(TermKey::new_with_kind(code, TermModifiers::from_bits_retain(bits), kind)));
}

/// Hands a key of the terminal to a text field.
pub fn handle_key(field: &mut Input, pressed: &KeyEvent)
    ensures
        state_of(*final(field)) == edited(state_of(*old(field)), *pressed),
        field_key(pressed.code) is Unused || pressed.kind == KeyEventKind::Release ==> state_of(
            *final(field),
        ) == state_of(*old(field)),
        pressed.code matches KeyCode::Char(c) ==> types(
            FieldKey::Char(c),
            pressed.modifiers.bits,
            pressed.kind,
        ) && state_of(*old(field)).is_consistent() ==> state_of(*final(field)) == typed(
            state_of(*old(field)),
            c,
        ),
        state_of(*old(field)).is_consistent() ==> state_of(*final(field)).is_consistent(),
{
    let key = match pressed.code {
        KeyCode::Backspace => FieldKey::Backspace,
        KeyCode::Delete => FieldKey::Delete,
        KeyCode::Left => FieldKey::Left,
        KeyCode::Right => FieldKey::Right,
        KeyCode::Home => FieldKey::Home,
        KeyCode::End => FieldKey::End,
        KeyCode::Char(c) => FieldKey::Char(c),
        _ => FieldKey::Unused,
    };
    handle_field_key(field, key, pressed.modifiers.bits, pressed.kind);
}

} // verus!
