//! Input events as a windowing layer reports them, and what they mean as
//! key presses.
//!
//! Keys come as key symbol numbers: the printable keys of a US keyboard
//! carry the ASCII code of their unshifted character, with capital
//! letters for the letter keys, the others a number above `0xff00`.
use crate::event::{Key, KeyMods, KeyTyped, MouseButton};
use crate::tty::event::mods_for;
use vstd::prelude::*;
use vstd::std_specs::convert::{FromSpecImpl, TryFromSpecImpl};

verus! {

/// A key of the keyboard, by its key symbol number.
#[derive(Copy, Clone, PartialEq, Eq, Structural, Hash, Debug)]
pub struct GuiKey(pub u16);

/// A mouse button as the windowing layer names it.
#[derive(Copy, Clone, PartialEq, Eq, Structural, Hash, Debug)]
pub enum GuiMouseButton {
    Left,
    Middle,
    Right,
    Unknown,
}

impl GuiKey {
    pub const SPACE: u16 = 0x0020;
    pub const APOSTROPHE: u16 = 0x0027;
    pub const COMMA: u16 = 0x002c;
    pub const KEY_9: u16 = 0x0039;
    pub const SEMICOLON: u16 = 0x003b;
    pub const EQUAL: u16 = 0x003d;
    pub const A: u16 = 0x0041;
    pub const Z: u16 = 0x005a;
    pub const LEFT_BRACKET: u16 = 0x005b;
    pub const RIGHT_BRACKET: u16 = 0x005d;
    pub const GRAVE_ACCENT: u16 = 0x0060;
    pub const ESCAPE: u16 = 0xff1b;
    pub const ENTER: u16 = 0xff0d;
    pub const TAB: u16 = 0xff09;
    pub const BACKSPACE: u16 = 0xff08;
    pub const INSERT: u16 = 0xff63;
    pub const DELETE: u16 = 0xffff;
    pub const RIGHT: u16 = 0xff53;
    pub const LEFT: u16 = 0xff51;
    pub const DOWN: u16 = 0xff54;
    pub const UP: u16 = 0xff52;
    pub const PAGE_UP: u16 = 0xff55;
    pub const PAGE_DOWN: u16 = 0xff56;
    pub const HOME: u16 = 0xff50;
    pub const END: u16 = 0xff57;
    pub const F1: u16 = 0xffbe;
    pub const F25: u16 = 0xffd6;
    pub const KP_0: u16 = 0xffb0;
    pub const KP_9: u16 = 0xffb9;
    pub const KP_DECIMAL: u16 = 0xffae;
    pub const KP_DIVIDE: u16 = 0xffaf;
    pub const KP_MULTIPLY: u16 = 0xffaa;
    pub const KP_SUBTRACT: u16 = 0xffad;
    pub const KP_ADD: u16 = 0xffab;
    pub const KP_ENTER: u16 = 0xff8d;
    pub const KP_EQUAL: u16 = 0xffbd;
    pub const LEFT_SHIFT: u16 = 0xffe1;
    pub const LEFT_CONTROL: u16 = 0xffe3;
    pub const LEFT_ALT: u16 = 0xffe9;
    pub const LEFT_SUPER: u16 = 0xffeb;
    pub const RIGHT_SHIFT: u16 = 0xffe2;
    pub const RIGHT_CONTROL: u16 = 0xffe4;
    pub const RIGHT_ALT: u16 = 0xffea;
    pub const RIGHT_SUPER: u16 = 0xffec;

    /// Whether the key is one whose number is the ASCII code of the
    /// character it types: space, digits and punctuation.
    pub open spec fn types_itself(self) -> bool {
        ||| self.0 == Self::SPACE
        ||| self.0 == Self::APOSTROPHE
        ||| Self::COMMA <= self.0 <= Self::KEY_9
        ||| self.0 == Self::SEMICOLON
        ||| self.0 == Self::EQUAL
        ||| Self::LEFT_BRACKET <= self.0 <= Self::RIGHT_BRACKET
        ||| self.0 == Self::GRAVE_ACCENT
    }

    /// The modifier that the key is, if it is one of the eight modifier
    /// keys.
    pub open spec fn modifier(self) -> Option<Key> {
        if self.0 == Self::LEFT_SHIFT || self.0 == Self::RIGHT_SHIFT {
            Some(Key::Shift)
        } else if self.0 == Self::LEFT_CONTROL || self.0 == Self::RIGHT_CONTROL {
            Some(Key::Ctrl)
        } else if self.0 == Self::LEFT_ALT || self.0 == Self::RIGHT_ALT {
            Some(Key::Alt)
        } else if self.0 == Self::LEFT_SUPER || self.0 == Self::RIGHT_SUPER {
            Some(Key::Icon)
        } else {
            None
        }
    }

    /// The key that the key symbol stands for, if any.
    ///
    /// Letter keys stand for their small letter, the keys of the number
    /// pad for what is printed on them. Lock keys, keys outside the US
    /// layout and unknown numbers stand for nothing.
    pub open spec fn key(self) -> Option<Key> {
        let code = self.0;
        if self.types_itself() {
            Some(Key::Char(code as char))
        } else if Self::A <= code <= Self::Z {
            Some(Key::Char((code + 0x20) as char))
        } else if Self::KP_0 <= code <= Self::KP_9 {
            Some(Key::Char((code - Self::KP_0 + 0x30) as char))
        } else if Self::F1 <= code <= Self::F25 {
            Some(Key::F((code - Self::F1 + 1) as u8))
        } else if self.modifier() is Some {
            self.modifier()
        } else if code == Self::ESCAPE {
            Some(Key::Esc)
        } else if code == Self::ENTER || code == Self::KP_ENTER {
            Some(Key::Enter)
        } else if code == Self::TAB {
            Some(Key::Tab)
        } else if code == Self::BACKSPACE {
            Some(Key::Backspace)
        } else if code == Self::INSERT {
            Some(Key::Insert)
        } else if code == Self::DELETE {
            Some(Key::Delete)
        } else if code == Self::RIGHT {
            Some(Key::Right)
        } else if code == Self::LEFT {
            Some(Key::Left)
        } else if code == Self::DOWN {
            Some(Key::Down)
        } else if code == Self::UP {
            Some(Key::Up)
        } else if code == Self::PAGE_UP {
            Some(Key::PageUp)
        } else if code == Self::PAGE_DOWN {
            Some(Key::PageDown)
        } else if code == Self::HOME {
            Some(Key::Home)
        } else if code == Self::END {
            Some(Key::End)
        } else if code == Self::KP_DECIMAL {
            Some(Key::Char('.'))
        } else if code == Self::KP_DIVIDE {
            Some(Key::Char('/'))
        } else if code == Self::KP_MULTIPLY {
            Some(Key::Char('*'))
        } else if code == Self::KP_SUBTRACT {
            Some(Key::Char('-'))
        } else if code == Self::KP_ADD {
            Some(Key::Char('+'))
        } else if code == Self::KP_EQUAL {
            Some(Key::Char('='))
        } else {
            None
        }
    }

    /// The modifiers in force when the key goes down or up: those
    /// reported, and the key itself if it is a modifier key, which the
    /// report does not count yet.
    pub open spec fn mods(self, reported: KeyMods) -> KeyMods {
        match self.modifier() {
            Some(Key::Shift) => KeyMods { shift: true, ..reported },
            Some(Key::Ctrl) => KeyMods { ctrl: true, ..reported },
            Some(Key::Alt) => KeyMods { alt: true, ..reported },
            Some(Key::Icon) => KeyMods { logo: true, ..reported },
            _ => reported,
        }
    }

    /// The key press that the key stands for with the modifiers reported,
    /// if any.
    pub open spec fn typed(self, reported: KeyMods, repeat: bool) -> Option<KeyTyped> {
        match self.key() {
            Some(key) => Some(KeyTyped::of(key, mods_for(key, self.mods(reported)), repeat)),
            None => None,
        }
    }
}

impl TryFrom<GuiMouseButton> for MouseButton {
    type Error = ();

    fn try_from(value: GuiMouseButton) -> (button: Result<MouseButton, ()>) {
        match value {
            GuiMouseButton::Right => Ok(MouseButton::Right),
            GuiMouseButton::Left => Ok(MouseButton::Left),
            GuiMouseButton::Middle => Ok(MouseButton::Middle),
            GuiMouseButton::Unknown => Err(()),
        }
    }
}

impl TryFromSpecImpl<GuiMouseButton> for MouseButton {
    open spec fn obeys_try_from_spec() -> bool {
        true
    }

    open spec fn try_from_spec(value: GuiMouseButton) -> Result<MouseButton, ()> {
        match value {
            GuiMouseButton::Right => Ok(MouseButton::Right),
            GuiMouseButton::Left => Ok(MouseButton::Left),
            GuiMouseButton::Middle => Ok(MouseButton::Middle),
            GuiMouseButton::Unknown => Err(()),
        }
    }
}

impl From<(GuiKey, KeyMods)> for KeyMods {
    // A modifier key being pressed down doesn't trip the mod flag yet, so
    // both have to be looked at.
    fn from(pressed: (GuiKey, KeyMods)) -> (mods: KeyMods) {
        let code = (pressed.0).0;
        let mut ret = pressed.1;
        if code == GuiKey::LEFT_SHIFT || code == GuiKey::RIGHT_SHIFT {
            ret.shift = true;
        } else if code == GuiKey::LEFT_CONTROL || code == GuiKey::RIGHT_CONTROL {
            ret.ctrl = true;
        } else if code == GuiKey::LEFT_ALT || code == GuiKey::RIGHT_ALT {
            ret.alt = true;
        } else if code == GuiKey::LEFT_SUPER || code == GuiKey::RIGHT_SUPER {
            ret.logo = true;
        }
        ret
    }
}

impl FromSpecImpl<(GuiKey, KeyMods)> for KeyMods {
    open spec fn obeys_from_spec() -> bool {
        true
    }

    open spec fn from_spec(pressed: (GuiKey, KeyMods)) -> KeyMods {
        pressed.0.mods(pressed.1)
    }
}

impl TryFrom<GuiKey> for Key {
    type Error = ();

    fn try_from(key_code: GuiKey) -> (key: Result<Key, ()>) {
        let code = key_code.0;
        match code {
            0x0020 | 0x0027 | 0x002c..=0x0039 | 0x003b | 0x003d | 0x005b..=0x005d | 0x0060 => Ok(
                Key::Char(code as u8 as char),
            ),
            0x0041..=0x005a => Ok(Key::Char((code as u8 + 0x20) as char)),
            0xff1b => Ok(Key::Esc),
            0xff0d => Ok(Key::Enter),
            0xff09 => Ok(Key::Tab),
            0xff08 => Ok(Key::Backspace),
            0xff63 => Ok(Key::Insert),
            0xffff => Ok(Key::Delete),
            0xff53 => Ok(Key::Right),
            0xff51 => Ok(Key::Left),
            0xff54 => Ok(Key::Down),
            0xff52 => Ok(Key::Up),
            0xff55 => Ok(Key::PageUp),
            0xff56 => Ok(Key::PageDown),
            0xff50 => Ok(Key::Home),
            0xff57 => Ok(Key::End),
            0xffbe..=0xffd6 => Ok(Key::F((code - 0xffbd) as u8)),
            0xffb0..=0xffb9 => Ok(Key::Char(((code - 0xffb0) as u8 + 0x30) as char)),
            0xffae => Ok(Key::Char('.')),
            0xffaf => Ok(Key::Char('/')),
            0xffaa => Ok(Key::Char('*')),
            0xffad => Ok(Key::Char('-')),
            0xffab => Ok(Key::Char('+')),
            0xff8d => Ok(Key::Enter),
            0xffbd => Ok(Key::Char('=')),
            0xffe1 | 0xffe2 => Ok(Key::Shift),
            0xffe3 | 0xffe4 => Ok(Key::Ctrl),
            0xffe9 | 0xffea => Ok(Key::Alt),
            0xffeb | 0xffec => Ok(Key::Icon),
            _ => Err(()),
        }
    }
}

impl TryFromSpecImpl<GuiKey> for Key {
    open spec fn obeys_try_from_spec() -> bool {
        true
    }

    open spec fn try_from_spec(key_code: GuiKey) -> Result<Key, ()> {
        match key_code.key() {
            Some(key) => Ok(key),
            None => Err(()),
        }
    }
}

impl TryFrom<(GuiKey, KeyMods, bool)> for KeyTyped {
    type Error = ();

    fn try_from(pressed: (GuiKey, KeyMods, bool)) -> (typed: Result<KeyTyped, ()>) {
        let key = match Key::try_from(pressed.0) {
            Ok(key) => key,
            Err(_) => { return Err(()); },
        };
        let mut mods = KeyMods::from((pressed.0, pressed.1));
        if key.is_printable() {
            mods.shift = false;
        }
        Ok(KeyTyped::new(key, mods, pressed.2))
    }
}

impl TryFromSpecImpl<(GuiKey, KeyMods, bool)> for KeyTyped {
    open spec fn obeys_try_from_spec() -> bool {
        true
    }

    open spec fn try_from_spec(pressed: (GuiKey, KeyMods, bool)) -> Result<KeyTyped, ()> {
        match pressed.0.typed(pressed.1, pressed.2) {
            Some(typed) => Ok(typed),
            None => Err(()),
        }
    }
}

} // verus!
