//! Names of keys.

use crate::ui::key;
use crate::ui::key::{KeyCode, KeyModifiers, MediaKey, ModifierKey};
use crossterm::event::KeyCode as TermCode;
use crossterm::event::KeyCode::{BackTab, Backspace, CapsLock, Char, Delete, Down, End, Enter, Esc, F};
use crossterm::event::KeyCode::{Home, Insert, KeypadBegin, Left, Menu, Null, NumLock, PageDown};
use crossterm::event::KeyCode::{PageUp, Pause, PrintScreen, Right, ScrollLock, Tab, Up};
use crossterm::event::{MediaKeyCode, ModifierKeyCode};
use vstd::prelude::*;
use vstd::string::*;

verus! {

/// What `crossterm` calls a key in messages for developers.
pub uninterp spec fn debug_name(code: KeyCode) -> Seq<char>;

/// `Debug` of `crossterm::event::KeyCode` writes a name, which depends on the key alone. Media and
/// modifier keys have functions of their own.
#[verifier::external_body]
fn debug_key(code: KeyCode) -> (r: String)
    requires
        !(code is Media),
        !(code is Modifier),
    ensures
        r@ == debug_name(code),
{
    let code = match code {
        KeyCode::Backspace => Backspace, KeyCode::Enter => Enter, KeyCode::Left => Left,
        KeyCode::Right => Right, KeyCode::Up => Up, KeyCode::Down => Down, KeyCode::Home => Home,
        KeyCode::End => End, KeyCode::PageUp => PageUp, KeyCode::PageDown => PageDown,
        KeyCode::Tab => Tab, KeyCode::BackTab => BackTab, KeyCode::Delete => Delete,
        KeyCode::Insert => Insert, KeyCode::F(n) => F(n), KeyCode::Char(c) => Char(c),
        KeyCode::Esc => Esc, KeyCode::CapsLock => CapsLock, KeyCode::ScrollLock => ScrollLock,
        KeyCode::NumLock => NumLock, KeyCode::PrintScreen => PrintScreen,
        KeyCode::Pause => Pause, KeyCode::Menu => Menu, KeyCode::KeypadBegin => KeypadBegin,
        KeyCode::Null | KeyCode::Media(_) | KeyCode::Modifier(_) => Null,
    };
    format!("{:?}", code)
}

/// `Debug` of `crossterm::event::KeyCode` writes the name of a media key, which depends on the key
/// alone.
#[verifier::external_body]
fn debug_media_key(key: MediaKey) -> (r: String)
    ensures
        r@ == debug_name(KeyCode::Media(key)),
{
    let key = match key {
        MediaKey::Play => MediaKeyCode::Play, MediaKey::Pause => MediaKeyCode::Pause,
        MediaKey::PlayPause => MediaKeyCode::PlayPause, MediaKey::Stop => MediaKeyCode::Stop,
        MediaKey::Reverse => MediaKeyCode::Reverse, MediaKey::Rewind => MediaKeyCode::Rewind,
        MediaKey::FastForward => MediaKeyCode::FastForward,
        MediaKey::TrackNext => MediaKeyCode::TrackNext,
        MediaKey::TrackPrevious => MediaKeyCode::TrackPrevious,
        MediaKey::Record => MediaKeyCode::Record,
        MediaKey::LowerVolume => MediaKeyCode::LowerVolume,
        MediaKey::RaiseVolume => MediaKeyCode::RaiseVolume,
        MediaKey::MuteVolume => MediaKeyCode::MuteVolume,
    };
    format!("{:?}", TermCode::Media(key))
}

/// `Debug` of `crossterm::event::KeyCode` writes the name of a modifier key, which depends on the
/// key alone.
#[verifier::external_body]
fn debug_modifier_key(key: ModifierKey) -> (r: String)
    ensures
        r@ == debug_name(KeyCode::Modifier(key)),
{
    let key = match key {
        ModifierKey::LeftShift => ModifierKeyCode::LeftShift, ModifierKey::LeftAlt => ModifierKeyCode::LeftAlt,
        ModifierKey::LeftControl => ModifierKeyCode::LeftControl, ModifierKey::LeftSuper => ModifierKeyCode::LeftSuper,
        ModifierKey::LeftHyper => ModifierKeyCode::LeftHyper, ModifierKey::LeftMeta => ModifierKeyCode::LeftMeta,
        ModifierKey::RightShift => ModifierKeyCode::RightShift, ModifierKey::RightAlt => ModifierKeyCode::RightAlt,
        ModifierKey::RightControl => ModifierKeyCode::RightControl, ModifierKey::RightSuper => ModifierKeyCode::RightSuper,
        ModifierKey::RightHyper => ModifierKeyCode::RightHyper, ModifierKey::RightMeta => ModifierKeyCode::RightMeta,
        ModifierKey::IsoLevel3Shift => ModifierKeyCode::IsoLevel3Shift,
        ModifierKey::IsoLevel5Shift => ModifierKeyCode::IsoLevel5Shift,
    };
    format!("{:?}", TermCode::Modifier(key))
}

/// The name of a key, without modifiers.
pub open spec fn key_name(code: KeyCode) -> Seq<char> {
    match code {
        KeyCode::Char(c) => if c == ' ' {
            "Space"@
        } else {
            seq![c]
        },
        KeyCode::Enter => "Enter"@,
        KeyCode::Esc => "Esc"@,
        KeyCode::Backspace => "Backspace"@,
        KeyCode::Tab => "Tab"@,
        KeyCode::Up => seq!['↑'],
        KeyCode::Down => seq!['↓'],
        KeyCode::Left => seq!['←'],
        KeyCode::Right => seq!['→'],
        _ => debug_name(code),
    }
}

/// The text if the condition holds, otherwise nothing.
pub open spec fn text_if(condition: bool, text: Seq<char>) -> Seq<char> {
    if condition {
        text
    } else {
        Seq::empty()
    }
}

/// Whether all of the given modifiers are held down.
pub open spec fn holds(modifiers: KeyModifiers, bits: u8) -> bool {
    modifiers.bits & bits == bits
}

/// The names of the modifiers, in front of the name of a key.
pub open spec fn prefixed(modifiers: KeyModifiers, name: Seq<char>) -> Seq<char> {
    text_if(holds(modifiers, key::CONTROL), "Ctrl-"@) + text_if(
        holds(modifiers, key::SHIFT),
        "Shift-"@,
    ) + text_if(holds(modifiers, key::ALT), "Alt-"@) + name
}

/// The name of a key with its modifiers.
pub open spec fn full_name(modifiers: KeyModifiers, code: KeyCode) -> Seq<char> {
    prefixed(modifiers, key_name(code))
}

/// Puts the names of the modifiers in front of the name of a key.
pub fn prefix(modifiers: KeyModifiers, name: &str) -> (r: String)
    ensures
        r@ == prefixed(modifiers, name@),
{
    let mut result = String::new();
    assert(result@ =~= Seq::empty());
    if modifiers.bits & key::CONTROL == key::CONTROL {
        result.append("Ctrl-");
    }
    assert(result@ =~= text_if(holds(modifiers, key::CONTROL), "Ctrl-"@));
    if modifiers.bits & key::SHIFT == key::SHIFT {
        result.append("Shift-");
    }
    assert(result@ =~= text_if(holds(modifiers, key::CONTROL), "Ctrl-"@) + text_if(
        holds(modifiers, key::SHIFT),
        "Shift-"@,
    ));
    if modifiers.bits & key::ALT == key::ALT {
        result.append("Alt-");
    }
    assert(result@ =~= text_if(holds(modifiers, key::CONTROL), "Ctrl-"@) + text_if(
        holds(modifiers, key::SHIFT),
        "Shift-"@,
    ) + text_if(holds(modifiers, key::ALT), "Alt-"@));
    result.append(name);
    result
}

/// The name of a key, without modifiers.
fn name_key(code: KeyCode) -> (r: String)
    ensures
        r@ == key_name(code),
{
    let mut name = String::new();
    match code {
        KeyCode::Char(c) => if c == ' ' {
            name.append("Space");
        } else {
            name.push(c);
        },
        KeyCode::Enter => name.append("Enter"),
        KeyCode::Esc => name.append("Esc"),
        KeyCode::Backspace => name.append("Backspace"),
        KeyCode::Tab => name.append("Tab"),
        KeyCode::Up => name.push('↑'),
        KeyCode::Down => name.push('↓'),
        KeyCode::Left => name.push('←'),
        KeyCode::Right => name.push('→'),
        KeyCode::Media(media) => {
            return debug_media_key(media);
        },
        KeyCode::Modifier(modifier) => {
            return debug_modifier_key(modifier);
        },
        _ => {
            return debug_key(code);
        },
    }
    assert(name@ =~= key_name(code));
    name
}

/// The name of a key with its modifiers, as it is shown to the user.
pub fn format_key_event(modifiers: KeyModifiers, code: KeyCode) -> (r: String)
    ensures
        r@ == full_name(modifiers, code),
{
    prefix(modifiers, name_key(code).as_str())
}

} // verus!
