//! Input events as a terminal reports them, and what they mean as key
//! presses.
use crate::event::{Key, KeyMods, KeyTyped, MouseButton};
use vstd::prelude::*;
use vstd::std_specs::convert::TryFromSpecImpl;

verus! {

/// A modifier key reported as a key of its own.
#[derive(Copy, Clone, PartialEq, Eq, Structural, Hash, Debug)]
pub enum TermModifierKey {
    LeftShift,
    LeftControl,
    LeftAlt,
    LeftSuper,
    LeftHyper,
    LeftMeta,
    RightShift,
    RightControl,
    RightAlt,
    RightSuper,
    RightHyper,
    RightMeta,
    IsoLevel3Shift,
    IsoLevel5Shift,
}

/// A key as a terminal names it.
#[derive(Copy, Clone, PartialEq, Eq, Structural, Hash, Debug)]
pub enum TermKey {
    Backspace,
    Enter,
    Left,
    Right,
    Up,
    Down,
    Home,
    End,
    PageUp,
    PageDown,
    Tab,
    BackTab,
    Delete,
    Insert,
    F(u8),
    Char(char),
    Null,
    Esc,
    CapsLock,
    ScrollLock,
    NumLock,
    PrintScreen,
    Pause,
    Menu,
    KeypadBegin,
    Media,
    Modifier(TermModifierKey),
}

/// Whether a key went down, is held or went up.
#[derive(Copy, Clone, PartialEq, Eq, Structural, Hash, Debug)]
pub enum TermKeyKind {
    Press,
    Repeat,
    Release,
}

/// A key event of a terminal.
#[derive(Copy, Clone, PartialEq, Eq, Structural, Hash, Debug)]
pub struct TermKeyEvent {
    pub code: TermKey,
    /// The modifiers held while the key was struck.
    pub mods: KeyMods,
    pub kind: TermKeyKind,
}

/// What the mouse did.
#[derive(Copy, Clone, PartialEq, Eq, Structural, Hash, Debug)]
pub enum TermMouseKind {
    Down(MouseButton),
    Up(MouseButton),
    Drag(MouseButton),
    Moved,
    ScrollDown,
    ScrollUp,
    ScrollLeft,
    ScrollRight,
}

/// An event of a terminal.
#[derive(Copy, Clone, PartialEq, Eq, Structural, Hash, Debug)]
pub enum TermEvent {
    FocusGained,
    FocusLost,
    Key(TermKeyEvent),
    /// A mouse event at a column and a row of the terminal.
    Mouse(TermMouseKind, u16, u16),
    /// Text was pasted into the terminal.
    Paste,
    /// The terminal has a new size in columns and rows.
    Resize(u16, u16),
}

/// The key that a terminal key stands for. Lock keys, media keys and the
/// like stand for none; left and right modifier keys are not told apart.
pub open spec fn key_of_term(code: TermKey) -> Option<Key> {
    match code {
        TermKey::Backspace => Some(Key::Backspace),
        TermKey::Enter => Some(Key::Enter),
        TermKey::Left => Some(Key::Left),
        TermKey::Right => Some(Key::Right),
        TermKey::Up => Some(Key::Up),
        TermKey::Down => Some(Key::Down),
        TermKey::Home => Some(Key::Home),
        TermKey::End => Some(Key::End),
        TermKey::PageUp => Some(Key::PageUp),
        TermKey::PageDown => Some(Key::PageDown),
        TermKey::Tab | TermKey::BackTab => Some(Key::Tab),
        TermKey::Delete => Some(Key::Delete),
        TermKey::Insert => Some(Key::Insert),
        TermKey::F(n) => Some(Key::F(n)),
        TermKey::Char(c) => Some(Key::Char(c)),
        TermKey::Esc => Some(Key::Esc),
        TermKey::Modifier(m) => match m {
            TermModifierKey::LeftShift | TermModifierKey::RightShift => Some(Key::Shift),
            TermModifierKey::LeftControl | TermModifierKey::RightControl => Some(Key::Ctrl),
            TermModifierKey::LeftAlt | TermModifierKey::RightAlt => Some(Key::Alt),
            TermModifierKey::LeftSuper | TermModifierKey::RightSuper => Some(Key::Icon),
            _ => None,
        },
        _ => None,
    }
}

/// The modifiers that go with a key: shift is dropped for a printable key,
/// where it shows in the character.
pub open spec fn mods_for(key: Key, mods: KeyMods) -> KeyMods {
    if key is Char {
        KeyMods { shift: false, ..mods }
    } else {
        mods
    }
}

/// The key press that a terminal key event stands for, if any.
pub open spec fn typed_of_term(event: TermKeyEvent) -> Option<KeyTyped> {
    match key_of_term(event.code) {
        Some(key) => Some(
            KeyTyped::of(key, mods_for(key, event.mods), event.kind == TermKeyKind::Repeat),
        ),
        None => None,
    }
}

impl TryFrom<TermKey> for Key {
    type Error = ();

    fn try_from(code: TermKey) -> (key: Result<Key, ()>) {
        match code {
            TermKey::Backspace => Ok(Key::Backspace),
            TermKey::Enter => Ok(Key::Enter),
            TermKey::Left => Ok(Key::Left),
            TermKey::Right => Ok(Key::Right),
            TermKey::Up => Ok(Key::Up),
            TermKey::Down => Ok(Key::Down),
            TermKey::Home => Ok(Key::Home),
            TermKey::End => Ok(Key::End),
            TermKey::PageUp => Ok(Key::PageUp),
            TermKey::PageDown => Ok(Key::PageDown),
            TermKey::Tab | TermKey::BackTab => Ok(Key::Tab),
            TermKey::Delete => Ok(Key::Delete),
            TermKey::Insert => Ok(Key::Insert),
            TermKey::F(n) => Ok(Key::F(n)),
            TermKey::Char(c) => Ok(Key::Char(c)),
            TermKey::Null => Err(()),
            TermKey::Esc => Ok(Key::Esc),
            TermKey::CapsLock => Err(()),
            TermKey::NumLock => Err(()),
            TermKey::ScrollLock => Err(()),
            TermKey::PrintScreen => Err(()),
            TermKey::Pause => Err(()),
            TermKey::Menu => Err(()),
            TermKey::KeypadBegin => Err(()),
            TermKey::Media => Err(()),
            TermKey::Modifier(TermModifierKey::LeftShift | TermModifierKey::RightShift) => Ok(
                Key::Shift,
            ),
            TermKey::Modifier(TermModifierKey::LeftControl | TermModifierKey::RightControl) => Ok(
                Key::Ctrl,
            ),
            TermKey::Modifier(TermModifierKey::LeftAlt | TermModifierKey::RightAlt) => Ok(Key::Alt),
            TermKey::Modifier(TermModifierKey::LeftSuper | TermModifierKey::RightSuper) => Ok(
                Key::Icon,
            ),
            TermKey::Modifier(_) => Err(()),
        }
    }
}

impl TryFromSpecImpl<TermKey> for Key {
    open spec fn obeys_try_from_spec() -> bool {
        true
    }

    open spec fn try_from_spec(code: TermKey) -> Result<Key, ()> {
        match key_of_term(code) {
            Some(key) => Ok(key),
            None => Err(()),
        }
    }
}

impl TryFrom<TermKeyEvent> for KeyTyped {
    type Error = ();

    fn try_from(event: TermKeyEvent) -> (typed: Result<KeyTyped, ()>) {
        let key = match Key::try_from(event.code) {
            Ok(key) => key,
            Err(_) => { return Err(()); },
        };
        let mut mods = event.mods;
        if key.is_printable() {
            mods.shift = false;
        }
        Ok(KeyTyped::new(key, mods, event.kind == TermKeyKind::Repeat))
    }
}

impl TryFromSpecImpl<TermKeyEvent> for KeyTyped {
    open spec fn obeys_try_from_spec() -> bool {
        true
    }

    open spec fn try_from_spec(event: TermKeyEvent) -> Result<KeyTyped, ()> {
        match typed_of_term(event) {
            Some(typed) => Ok(typed),
            None => Err(()),
        }
    }
}

} // verus!
