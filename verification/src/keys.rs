//! Key events as the library sees them, and key chord detection shared across
//! input handlers. Terminals often encode the same chord differently (e.g.
//! Ctrl+Enter as Ctrl+M).
use vstd::prelude::*;
use crate::text::{ascii_lower, ascii_lower_char};

verus! {

/// Which key was pressed.
#[derive(Clone, Copy, PartialEq, Eq, Debug, Structural)]
pub enum KeyCode {
    Char(char),
    Enter,
    Esc,
    Tab,
    BackTab,
    Backspace,
    Delete,
    Left,
    Right,
    Up,
    Down,
    Home,
    End,
    PageUp,
    PageDown,
    Other,
}

/// The modifier keys held with a key.
#[derive(Clone, Copy, PartialEq, Eq, Debug, Structural)]
pub struct KeyModifiers {
    pub shift: bool,
    pub control: bool,
    pub alt: bool,
}

impl KeyModifiers {
    /// No modifier held.
    pub fn none() -> (m: KeyModifiers)
        ensures
            !m.shift && !m.control && !m.alt,
    {
        KeyModifiers { shift: false, control: false, alt: false }
    }

    /// Shift held.
    pub fn shift() -> (m: KeyModifiers)
        ensures
            m.shift && !m.control && !m.alt,
    {
        KeyModifiers { shift: true, control: false, alt: false }
    }

    /// Ctrl held.
    pub fn control() -> (m: KeyModifiers)
        ensures
            !m.shift && m.control && !m.alt,
    {
        KeyModifiers { shift: false, control: true, alt: false }
    }

    /// Alt held.
    pub fn alt() -> (m: KeyModifiers)
        ensures
            !m.shift && !m.control && m.alt,
    {
        KeyModifiers { shift: false, control: false, alt: true }
    }
}

/// A key press.
#[derive(Clone, Copy, PartialEq, Eq, Debug, Structural)]
pub struct KeyEvent {
    pub code: KeyCode,
    pub modifiers: KeyModifiers,
}

/// A key press event with the given code and modifiers.
pub fn press_key(code: KeyCode, modifiers: KeyModifiers) -> (k: KeyEvent)
    ensures
        k.code == code,
        k.modifiers == modifiers,
{
    KeyEvent { code, modifiers }
}

/// Ctrl held with the letter `ch`, in either case.
pub open spec fn is_ctrl_char_spec(key: KeyEvent, ch: char) -> bool {
    key.modifiers.control && match key.code {
        KeyCode::Char(c) => ascii_lower(c) == ascii_lower(ch),
        _ => false,
    }
}

pub fn is_ctrl_char(key: &KeyEvent, ch: char) -> (r: bool)
    ensures
        r == is_ctrl_char_spec(*key, ch),
{
    key.modifiers.control && match key.code {
        KeyCode::Char(c) => ascii_lower_char(c) == ascii_lower_char(ch),
        _ => false,
    }
}

/// Ctrl+Q or Ctrl+C.
pub fn is_quit_key(key: &KeyEvent) -> (r: bool)
    ensures
        r == (is_ctrl_char_spec(*key, 'q') || is_ctrl_char_spec(*key, 'c')),
{
    is_ctrl_char(key, 'q') || is_ctrl_char(key, 'c')
}

/// Ctrl+Z.
pub fn is_undo_key(key: &KeyEvent) -> (r: bool)
    ensures
        r == is_ctrl_char_spec(*key, 'z'),
{
    is_ctrl_char(key, 'z')
}

/// Ctrl+S.
pub fn is_save_key(key: &KeyEvent) -> (r: bool)
    ensures
        r == is_ctrl_char_spec(*key, 's'),
{
    is_ctrl_char(key, 's')
}

/// The keys that commit the edit form: Ctrl+S, Ctrl+Enter, Ctrl+M, Alt+Enter.
pub open spec fn is_edit_save_spec(key: KeyEvent) -> bool {
    if is_ctrl_char_spec(key, 's') {
        true
    } else if key.modifiers.control {
        key.code == KeyCode::Enter || key.code == KeyCode::Char('m') || key.code == KeyCode::Char(
            'M',
        )
    } else {
        key.modifiers.alt && key.code == KeyCode::Enter
    }
}

/// Keys that commit the edit modal (handled before any field-specific logic).
pub fn is_edit_save_key(key: &KeyEvent) -> (r: bool)
    ensures
        r == is_edit_save_spec(*key),
{
    if is_save_key(key) {
        return true;
    }
    if key.modifiers.control {
        return match key.code {
            KeyCode::Enter => true,
            KeyCode::Char(c) => c == 'm' || c == 'M',
            _ => false,
        };
    }
    key.modifiers.alt && match key.code {
        KeyCode::Enter => true,
        _ => false,
    }
}

/// Ctrl+C cancels the edit form.
pub fn is_edit_cancel_key(key: &KeyEvent) -> (r: bool)
    ensures
        r == is_ctrl_char_spec(*key, 'c'),
{
    is_ctrl_char(key, 'c')
}

} // verus!
