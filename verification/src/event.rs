//! Keyboard and mouse events, and the text form of key presses.
use crate::text::{chars_of, spells};
use vstd::prelude::*;
use vstd::std_specs::convert::FromSpecImpl;
use vstd::string::StringExecFns;

verus! {

/// `char::to_ascii_lowercase` of the standard library: the ASCII capital
/// letters are mapped to their small counterparts, every other character
/// is returned as it is.
pub assume_specification[ char::to_ascii_lowercase ](c: &char) -> (lower: char)
    ensures
        lower == ascii_lower(*c),
;

/// The small counterpart of an ASCII capital letter, any other character
/// unchanged.
pub open spec fn ascii_lower(c: char) -> char {
    if 'A' <= c && c <= 'Z' {
        ((c as u8) + 32) as char
    } else {
        c
    }
}

/// Why a text is not the encoding of a key press.
#[derive(Copy, Clone, PartialEq, Eq, Structural, Hash, Debug)]
pub enum InvalidEncoding {
    /// The text after the modifier prefixes names no key.
    BadKey,
    /// The shift modifier stands before a printable key.
    ShiftOnPrintable,
}

#[derive(Copy, Clone, PartialEq, Eq, Structural, PartialOrd, Ord, Hash, Debug)]
pub struct KeyMods {
    pub shift: bool,
    pub ctrl: bool,
    pub alt: bool,
    pub logo: bool,
}

impl Default for KeyMods {
    fn default() -> (mods: Self)
        ensures
            mods == KeyMods::none(),
    {
        KeyMods { shift: false, ctrl: false, alt: false, logo: false }
    }
}

impl KeyMods {
    /// No modifier held.
    pub open spec fn none() -> KeyMods {
        KeyMods { shift: false, ctrl: false, alt: false, logo: false }
    }
}

#[derive(Copy, Clone, PartialEq, Eq, Structural, PartialOrd, Ord, Hash, Debug)]
pub enum Key {
    /// No key at all.
    NoKey,
    Up,
    Down,
    Left,
    Right,
    Tab,
    Enter,
    Esc,
    Backspace,
    Delete,
    Insert,
    Home,
    End,
    PageUp,
    PageDown,
    Shift,
    Ctrl,
    Alt,
    Icon,
    /// Function key
    F(u8),
    /// Normal printable character
    Char(char),
}

impl Default for Key {
    fn default() -> (key: Self)
        ensures
            key == Key::NoKey,
    {
        Key::NoKey
    }
}

/// The character of a decimal digit.
pub open spec fn digit_char(d: nat) -> char
    recommends
        d < 10,
{
    (48 + d) as char
}

/// A number in decimal notation.
pub open spec fn decimal(n: nat) -> Seq<char>
    decreases n,
{
    if n < 10 {
        seq![digit_char(n)]
    } else {
        decimal(n / 10).push(digit_char(n % 10))
    }
}

/// Whether `text` starts with the modifier prefix of letter `tag`.
pub open spec fn has_prefix(text: Seq<char>, tag: char) -> bool {
    text.len() >= 2 && text[0] == tag && text[1] == '-'
}

impl Key {
    /// The key with a capital letter replaced by its small letter.
    pub open spec fn lowercased(self) -> Key {
        match self {
            Key::Char(c) => Key::Char(ascii_lower(c)),
            other => other,
        }
    }

    /// The name by which the key is written.
    pub open spec fn name(self) -> Seq<char> {
        match self {
            Key::NoKey => "none"@,
            Key::Up => "Up"@,
            Key::Down => "Down"@,
            Key::Left => "Left"@,
            Key::Right => "Right"@,
            Key::Tab => "Tab"@,
            Key::Enter => "Ret"@,
            Key::Esc => "Esc"@,
            Key::Backspace => "Bksp"@,
            Key::Delete => "Del"@,
            Key::Insert => "Ins"@,
            Key::Home => "Home"@,
            Key::End => "End"@,
            Key::PageUp => "PgUp"@,
            Key::PageDown => "PgDn"@,
            Key::Shift => "Shift"@,
            Key::Ctrl => "Ctrl"@,
            Key::Alt => "Alt"@,
            Key::Icon => "Icon"@,
            Key::F(n) => "F"@ + decimal(n as nat),
            // Space is printable but has a name of its own.
            Key::Char(c) => if c == ' ' {
                "Sp"@
            } else {
                seq![c]
            },
        }
    }

    /// The key that a name stands for, if any: a single visible ASCII
    /// character stands for itself, everything else has to be one of the
    /// known names.
    pub open spec fn named(name: Seq<char>) -> Option<Key> {
        if name.len() == 1 {
            if 33 <= name[0] as u32 && (name[0] as u32) < 127 {
                Some(Key::Char(name[0]))
            } else {
                None
            }
        } else if name == "none"@ {
            Some(Key::NoKey)
        } else if name == "Up"@ {
            Some(Key::Up)
        } else if name == "Down"@ {
            Some(Key::Down)
        } else if name == "Left"@ {
            Some(Key::Left)
        } else if name == "Right"@ {
            Some(Key::Right)
        } else if name == "Tab"@ {
            Some(Key::Tab)
        } else if name == "Ret"@ {
            Some(Key::Enter)
        } else if name == "Esc"@ {
            Some(Key::Esc)
        } else if name == "Bksp"@ {
            Some(Key::Backspace)
        } else if name == "Del"@ {
            Some(Key::Delete)
        } else if name == "Ins"@ {
            Some(Key::Insert)
        } else if name == "Home"@ {
            Some(Key::Home)
        } else if name == "End"@ {
            Some(Key::End)
        } else if name == "PgUp"@ {
            Some(Key::PageUp)
        } else if name == "PgDn"@ {
            Some(Key::PageDown)
        } else if name == "Shift"@ {
            Some(Key::Shift)
        } else if name == "Ctrl"@ {
            Some(Key::Ctrl)
        } else if name == "Alt"@ {
            Some(Key::Alt)
        } else if name == "Icon"@ {
            Some(Key::Icon)
        } else if name == "F1"@ {
            Some(Key::F(1))
        } else if name == "F2"@ {
            Some(Key::F(2))
        } else if name == "F3"@ {
            Some(Key::F(3))
        } else if name == "F4"@ {
            Some(Key::F(4))
        } else if name == "F5"@ {
            Some(Key::F(5))
        } else if name == "F6"@ {
            Some(Key::F(6))
        } else if name == "F7"@ {
            Some(Key::F(7))
        } else if name == "F8"@ {
            Some(Key::F(8))
        } else if name == "F9"@ {
            Some(Key::F(9))
        } else if name == "F10"@ {
            Some(Key::F(10))
        } else if name == "F11"@ {
            Some(Key::F(11))
        } else if name == "F12"@ {
            Some(Key::F(12))
        } else if name == "Sp"@ {
            Some(Key::Char(' '))
        } else {
            None
        }
    }

    /// Whether the name of the key can be read back: the function keys up
    /// to twelve, and of the characters the space and the visible ASCII
    /// characters.
    pub open spec fn has_name(self) -> bool {
        match self {
            Key::F(n) => 1 <= n <= 12,
            Key::Char(c) => 32 <= c as u32 && (c as u32) < 127,
            _ => true,
        }
    }

    /// A number that tells the key from every other key.
    pub open spec fn code(self) -> u32 {
        match self {
            Key::NoKey => 0,
            Key::Up => 1,
            Key::Down => 2,
            Key::Left => 3,
            Key::Right => 4,
            Key::Tab => 5,
            Key::Enter => 6,
            Key::Esc => 7,
            Key::Backspace => 8,
            Key::Delete => 9,
            Key::Insert => 10,
            Key::Home => 11,
            Key::End => 12,
            Key::PageUp => 13,
            Key::PageDown => 14,
            Key::Shift => 15,
            Key::Ctrl => 16,
            Key::Alt => 17,
            Key::Icon => 18,
            Key::F(n) => (0x100 + n) as u32,
            Key::Char(c) => (0x1000000 + c as u32) as u32,
        }
    }

    /// Different keys have different numbers.
    pub proof fn lemma_code_tells_apart(self, other: Key)
        ensures
            self.code() == other.code() <==> self == other,
    {
    }

    /// The number of the key, see [`Key::code`].
    pub fn to_code(&self) -> (code: u32)
        ensures
            code == self.code(),
    {
        match self {
            Key::NoKey => 0,
            Key::Up => 1,
            Key::Down => 2,
            Key::Left => 3,
            Key::Right => 4,
            Key::Tab => 5,
            Key::Enter => 6,
            Key::Esc => 7,
            Key::Backspace => 8,
            Key::Delete => 9,
            Key::Insert => 10,
            Key::Home => 11,
            Key::End => 12,
            Key::PageUp => 13,
            Key::PageDown => 14,
            Key::Shift => 15,
            Key::Ctrl => 16,
            Key::Alt => 17,
            Key::Icon => 18,
            Key::F(n) => 0x100 + *n as u32,
            Key::Char(c) => 0x1000000 + *c as u32,
        }
    }

    pub fn is_printable(&self) -> (printable: bool)
        ensures
            printable == (*self is Char),
    {
        matches!(self, Key::Char(_))
    }

    /// Turn capital letters into lowercase ones so the key value can stand in
    /// for a physical keyboard key.
    pub fn char_to_lowercase(&self) -> (key: Key)
        ensures
            key == self.lowercased(),
    {
        match self {
            Key::Char(c) => Key::Char(c.to_ascii_lowercase()),
            a => *a,
        }
    }

    pub fn is_some(&self) -> (some: bool)
        ensures
            some == !(*self is NoKey),
    {
        !matches!(self, Key::NoKey)
    }

    /// The name of the key as text.
    pub fn to_text(&self) -> (text: String)
        ensures
            text@ == self.name(),
    {
        let mut text = String::new();
        push_key_name(&mut text, *self);
        text
    }

    /// Read a key from its name.
    pub fn from_text(text: &str) -> (key: Result<Key, InvalidEncoding>)
        ensures
            key == (match Key::named(text@) {
                Some(k) => Ok::<Key, InvalidEncoding>(k),
                None => Err(InvalidEncoding::BadKey),
            }),
    {
        let chars = chars_of(text);
        assert(chars@.skip(0) =~= text@);
        match key_named(&chars, 0) {
            Some(k) => Ok(k),
            None => Err(InvalidEncoding::BadKey),
        }
    }
}

fn key_named(chars: &Vec<char>, start: usize) -> (key: Option<Key>)
    requires
        start <= chars@.len(),
    ensures
        key == Key::named(chars@.skip(start as int)),
{
    if chars.len() - start == 1 {
        let c = chars[start];
        let code = c as u32;
        if 33 <= code && code < 127 {
            Some(Key::Char(c))
        } else {
            None
        }
    } else if spells(chars, start, "none") {
        Some(Key::NoKey)
    } else if spells(chars, start, "Up") {
        Some(Key::Up)
    } else if spells(chars, start, "Down") {
        Some(Key::Down)
    } else if spells(chars, start, "Left") {
        Some(Key::Left)
    } else if spells(chars, start, "Right") {
        Some(Key::Right)
    } else if spells(chars, start, "Tab") {
        Some(Key::Tab)
    } else if spells(chars, start, "Ret") {
        Some(Key::Enter)
    } else if spells(chars, start, "Esc") {
        Some(Key::Esc)
    } else if spells(chars, start, "Bksp") {
        Some(Key::Backspace)
    } else if spells(chars, start, "Del") {
        Some(Key::Delete)
    } else if spells(chars, start, "Ins") {
        Some(Key::Insert)
    } else if spells(chars, start, "Home") {
        Some(Key::Home)
    } else if spells(chars, start, "End") {
        Some(Key::End)
    } else if spells(chars, start, "PgUp") {
        Some(Key::PageUp)
    } else if spells(chars, start, "PgDn") {
        Some(Key::PageDown)
    } else if spells(chars, start, "Shift") {
        Some(Key::Shift)
    } else if spells(chars, start, "Ctrl") {
        Some(Key::Ctrl)
    } else if spells(chars, start, "Alt") {
        Some(Key::Alt)
    } else if spells(chars, start, "Icon") {
        Some(Key::Icon)
    } else if spells(chars, start, "F1") {
        Some(Key::F(1))
    } else if spells(chars, start, "F2") {
        Some(Key::F(2))
    } else if spells(chars, start, "F3") {
        Some(Key::F(3))
    } else if spells(chars, start, "F4") {
        Some(Key::F(4))
    } else if spells(chars, start, "F5") {
        Some(Key::F(5))
    } else if spells(chars, start, "F6") {
        Some(Key::F(6))
    } else if spells(chars, start, "F7") {
        Some(Key::F(7))
    } else if spells(chars, start, "F8") {
        Some(Key::F(8))
    } else if spells(chars, start, "F9") {
        Some(Key::F(9))
    } else if spells(chars, start, "F10") {
        Some(Key::F(10))
    } else if spells(chars, start, "F11") {
        Some(Key::F(11))
    } else if spells(chars, start, "F12") {
        Some(Key::F(12))
    } else if spells(chars, start, "Sp") {
        Some(Key::Char(' '))
    } else {
        None
    }
}

fn push_digit(text: &mut String, d: u8)
    requires
        d < 10,
    ensures
        final(text)@ == old(text)@.push(digit_char(d as nat)),
{
    text.push((48 + d) as char);
}

fn push_decimal(text: &mut String, n: u8)
    ensures
        final(text)@ == old(text)@ + decimal(n as nat),
{
    reveal_with_fuel(decimal, 3);
    if n >= 100 {
        push_digit(text, n / 100);
        push_digit(text, (n / 10) % 10);
        push_digit(text, n % 10);
        assert(n as nat / 10 / 10 == n as nat / 100);
    } else if n >= 10 {
        push_digit(text, n / 10);
        push_digit(text, n % 10);
    } else {
        push_digit(text, n);
    }
    assert(text@ =~= old(text)@ + decimal(n as nat));
}

fn push_key_name(text: &mut String, key: Key)
    ensures
        final(text)@ == old(text)@ + key.name(),
{
    match key {
        Key::NoKey => text.append("none"),
        Key::Up => text.append("Up"),
        Key::Down => text.append("Down"),
        Key::Left => text.append("Left"),
        Key::Right => text.append("Right"),
        Key::Tab => text.append("Tab"),
        Key::Enter => text.append("Ret"),
        Key::Esc => text.append("Esc"),
        Key::Backspace => text.append("Bksp"),
        Key::Delete => text.append("Del"),
        Key::Insert => text.append("Ins"),
        Key::Home => text.append("Home"),
        Key::End => text.append("End"),
        Key::PageUp => text.append("PgUp"),
        Key::PageDown => text.append("PgDn"),
        Key::Shift => text.append("Shift"),
        Key::Ctrl => text.append("Ctrl"),
        Key::Alt => text.append("Alt"),
        Key::Icon => text.append("Icon"),
        Key::F(n) => {
            text.append("F");
            push_decimal(text, n);
            assert(text@ =~= old(text)@ + ("F"@ + decimal(n as nat)));
        },
        Key::Char(c) => {
            if c == ' ' {
                text.append("Sp");
            } else {
                text.push(c);
                assert(text@ =~= old(text)@ + seq![c]);
            }
        },
    }
}

/// Key event value.
///
/// The shift modifier is never set when the key is a printable character:
/// there, shift shows in the character itself.
#[derive(Copy, Clone, PartialEq, Eq, PartialOrd, Ord, Hash, Debug)]
pub struct KeyTyped {
    key: Key,
    mods: KeyMods,
    is_repeat: bool,
}

impl Default for KeyTyped {
    fn default() -> (typed: Self)
        ensures
            typed == KeyTyped::of(Key::NoKey, KeyMods::none(), false),
    {
        KeyTyped {
            key: Key::NoKey,
            mods: KeyMods { shift: false, ctrl: false, alt: false, logo: false },
            is_repeat: false,
        }
    }
}

impl From<KeyMods> for KeyTyped {
    fn from(mods: KeyMods) -> (typed: KeyTyped) {
        KeyTyped { key: Key::NoKey, mods, is_repeat: false }
    }
}

impl FromSpecImpl<KeyMods> for KeyTyped {
    open spec fn obeys_from_spec() -> bool {
        true
    }

    open spec fn from_spec(mods: KeyMods) -> KeyTyped {
        KeyTyped::of(Key::NoKey, mods, false)
    }
}

impl KeyTyped {
    #[verifier::type_invariant]
    spec fn well_formed(self) -> bool {
        KeyTyped::allows(self.key, self.mods)
    }

    /// Whether a key may come with these modifiers: a printable key never
    /// carries shift.
    pub open spec fn allows(key: Key, mods: KeyMods) -> bool {
        !(key is Char && mods.shift)
    }

    /// The key press with the given parts.
    pub closed spec fn of(key: Key, mods: KeyMods, is_repeat: bool) -> KeyTyped {
        KeyTyped { key, mods, is_repeat }
    }

    pub closed spec fn spec_key(&self) -> Key {
        self.key
    }

    pub closed spec fn spec_mods(&self) -> KeyMods {
        self.mods
    }

    pub closed spec fn spec_is_repeat(&self) -> bool {
        self.is_repeat
    }

    /// A key press is made of its three parts and nothing else, and its
    /// parts are those it was made of.
    pub proof fn law_made_of_parts(self, key: Key, mods: KeyMods, is_repeat: bool)
        ensures
            self == KeyTyped::of(self.key(), self.mods(), self.is_repeat()),
            KeyTyped::of(key, mods, is_repeat).key() == key,
            KeyTyped::of(key, mods, is_repeat).mods() == mods,
            KeyTyped::of(key, mods, is_repeat).is_repeat() == is_repeat,
    {
    }

    /// The key press without its repeat flag.
    pub open spec fn unrepeated(self) -> KeyTyped {
        KeyTyped::of(self.key(), self.mods(), false)
    }

    /// The modifier prefixes, in their fixed order. Shift is written only
    /// for keys that are not printable.
    pub open spec fn prefixes(mods: KeyMods, printable: bool) -> Seq<char> {
        (if mods.logo {
            "D-"@
        } else {
            Seq::empty()
        }) + (if mods.alt {
            "A-"@
        } else {
            Seq::empty()
        }) + (if mods.ctrl {
            "C-"@
        } else {
            Seq::empty()
        }) + (if mods.shift && !printable {
            "S-"@
        } else {
            Seq::empty()
        })
    }

    /// The text form of the key press: the prefixes of its modifiers,
    /// then the name of its key. The repeat flag is not written.
    pub open spec fn text(self) -> Seq<char> {
        KeyTyped::prefixes(self.mods(), self.key() is Char) + self.key().name()
    }

    /// The key press that `text` encodes, read with the modifiers `mods`
    /// already seen.
    pub open spec fn parsed_from(text: Seq<char>, mods: KeyMods) -> Result<
        KeyTyped,
        InvalidEncoding,
    >
        decreases text.len(),
    {
        if has_prefix(text, 'D') {
            KeyTyped::parsed_from(text.skip(2), KeyMods { logo: true, ..mods })
        } else if has_prefix(text, 'A') || has_prefix(text, 'M') {
            KeyTyped::parsed_from(text.skip(2), KeyMods { alt: true, ..mods })
        } else if has_prefix(text, 'C') {
            KeyTyped::parsed_from(text.skip(2), KeyMods { ctrl: true, ..mods })
        } else if has_prefix(text, 'S') {
            KeyTyped::parsed_from(text.skip(2), KeyMods { shift: true, ..mods })
        } else {
            match Key::named(text) {
                None => Err(InvalidEncoding::BadKey),
                Some(key) => if KeyTyped::allows(key, mods) {
                    Ok(KeyTyped::of(key, mods, false))
                } else {
                    Err(InvalidEncoding::ShiftOnPrintable)
                },
            }
        }
    }

    /// The key press that `text` encodes.
    pub open spec fn parsed(text: Seq<char>) -> Result<KeyTyped, InvalidEncoding> {
        KeyTyped::parsed_from(text, KeyMods::none())
    }

    pub fn new(key: Key, mods: KeyMods, is_repeat: bool) -> (typed: Self)
        requires
            KeyTyped::allows(key, mods),
        ensures
            typed == KeyTyped::of(key, mods, is_repeat),
    {
        KeyTyped { key, mods, is_repeat }
    }

    #[verifier::when_used_as_spec(spec_key)]
    pub fn key(&self) -> (key: Key)
        ensures
            key == self.spec_key(),
            KeyTyped::allows(key, self.spec_mods()),
    {
        proof {
            use_type_invariant(self);
        }
        self.key
    }

    #[verifier::when_used_as_spec(spec_mods)]
    pub fn mods(&self) -> (mods: KeyMods)
        ensures
            mods == self.spec_mods(),
            KeyTyped::allows(self.spec_key(), mods),
    {
        proof {
            use_type_invariant(self);
        }
        self.mods
    }

    /// True if the key press is the one that `code` encodes, whether or
    /// not either of them is a repeat.
    pub fn is(&self, code: &str) -> (same: bool)
        ensures
            same == (match KeyTyped::parsed(code@) {
                Ok(other) => self.unrepeated() == other.unrepeated(),
                Err(_) => false,
            }),
    {
        match KeyTyped::from_text(code) {
            Ok(other) => self.key == other.key && self.mods == other.mods,
            Err(_) => false,
        }
    }

    /// Convenience method, true if a non-modifier key was pressed.
    pub fn is_some(&self) -> (some: bool)
        ensures
            some == !(self.key() is NoKey),
    {
        !matches!(self.key, Key::NoKey)
    }

    #[verifier::when_used_as_spec(spec_is_repeat)]
    pub fn is_repeat(&self) -> (repeat: bool)
        ensures
            repeat == self.spec_is_repeat(),
    {
        self.is_repeat
    }

    /// The event with the repeat flag set to false.
    ///
    /// Use to compare against cached values that don't have the repeat flag
    /// set.
    pub fn ignore_repeat_flag(self) -> (typed: Self)
        ensures
            typed == self.unrepeated(),
    {
        proof {
            use_type_invariant(self);
        }
        KeyTyped { key: self.key, mods: self.mods, is_repeat: false }
    }

    /// Write the key press as text.
    pub fn to_text(&self) -> (text: String)
        ensures
            text@ == self.text(),
    {
        let mut text = String::new();
        if self.mods.logo {
            text.append("D-");
        }
        if self.mods.alt {
            text.append("A-");
        }
        if self.mods.ctrl {
            text.append("C-");
        }
        // Explicitly print out shift for non-printable keys.
        // Otherwise it can be inferred from the char being capitalized.
        if self.mods.shift && !self.key.is_printable() {
            text.append("S-");
        }
        push_key_name(&mut text, self.key);
        assert(text@ =~= self.text());
        text
    }

    /// Read a key press from text: any number of modifier prefixes, then
    /// the name of a key.
    pub fn from_text(text: &str) -> (typed: Result<KeyTyped, InvalidEncoding>)
        ensures
            typed == KeyTyped::parsed(text@),
    {
        let chars = chars_of(text);
        let n = chars.len();
        let mut mods = KeyMods { shift: false, ctrl: false, alt: false, logo: false };
        let mut i: usize = 0;
        assert(chars@.skip(0) =~= text@);
        loop
            invariant
                i <= n,
                n == chars@.len(),
                KeyTyped::parsed(text@) == KeyTyped::parsed_from(chars@.skip(i as int), mods),
            decreases n - i,
        {
            let ghost rest = chars@.skip(i as int);
            let tag = if n - i >= 2 && chars[i + 1] == '-' {
                chars[i]
            } else {
                ' '
            };
            assert(forall|t: char| t != ' ' ==> (has_prefix(rest, t) <==> t == tag));
            if tag == 'D' {
                mods.logo = true;
            } else if tag == 'A' || tag == 'M' {
                // Support the old-timey "META" designation too.
                mods.alt = true;
            } else if tag == 'C' {
                mods.ctrl = true;
            } else if tag == 'S' {
                mods.shift = true;
            } else {
                // Out of prefixes, parse the actual key or go bust.
                return match key_named(&chars, i) {
                    None => Err(InvalidEncoding::BadKey),
                    Some(key) => if key.is_printable() && mods.shift {
                        // Printable keys shouldn't have shift status specified.
                        Err(InvalidEncoding::ShiftOnPrintable)
                    } else {
                        Ok(KeyTyped { key, mods, is_repeat: false })
                    },
                };
            }
            assert(rest.skip(2) =~= chars@.skip(i + 2));
            i += 2;
        }
    }
}

impl core::str::FromStr for KeyTyped {
    type Err = InvalidEncoding;

    fn from_str(text: &str) -> (typed: Result<KeyTyped, InvalidEncoding>)
        ensures
            typed == KeyTyped::parsed(text@),
    {
        KeyTyped::from_text(text)
    }
}

impl core::str::FromStr for Key {
    type Err = InvalidEncoding;

    fn from_str(text: &str) -> (key: Result<Key, InvalidEncoding>)
        ensures
            key == (match Key::named(text@) {
                Some(k) => Ok::<Key, InvalidEncoding>(k),
                None => Err(InvalidEncoding::BadKey),
            }),
    {
        Key::from_text(text)
    }
}

/// Makes known what the names of the keys and the modifier prefixes are
/// made of.
proof fn lemma_spellings()
    ensures
        "none"@ == seq!['n', 'o', 'n', 'e'],
        "Up"@ == seq!['U', 'p'],
        "Down"@ == seq!['D', 'o', 'w', 'n'],
        "Left"@ == seq!['L', 'e', 'f', 't'],
        "Right"@ == seq!['R', 'i', 'g', 'h', 't'],
        "Tab"@ == seq!['T', 'a', 'b'],
        "Ret"@ == seq!['R', 'e', 't'],
        "Esc"@ == seq!['E', 's', 'c'],
        "Bksp"@ == seq!['B', 'k', 's', 'p'],
        "Del"@ == seq!['D', 'e', 'l'],
        "Ins"@ == seq!['I', 'n', 's'],
        "Home"@ == seq!['H', 'o', 'm', 'e'],
        "End"@ == seq!['E', 'n', 'd'],
        "PgUp"@ == seq!['P', 'g', 'U', 'p'],
        "PgDn"@ == seq!['P', 'g', 'D', 'n'],
        "Shift"@ == seq!['S', 'h', 'i', 'f', 't'],
        "Ctrl"@ == seq!['C', 't', 'r', 'l'],
        "Alt"@ == seq!['A', 'l', 't'],
        "Icon"@ == seq!['I', 'c', 'o', 'n'],
        "F"@ == seq!['F'],
        "F1"@ == seq!['F', '1'],
        "F2"@ == seq!['F', '2'],
        "F3"@ == seq!['F', '3'],
        "F4"@ == seq!['F', '4'],
        "F5"@ == seq!['F', '5'],
        "F6"@ == seq!['F', '6'],
        "F7"@ == seq!['F', '7'],
        "F8"@ == seq!['F', '8'],
        "F9"@ == seq!['F', '9'],
        "F10"@ == seq!['F', '1', '0'],
        "F11"@ == seq!['F', '1', '1'],
        "F12"@ == seq!['F', '1', '2'],
        "Sp"@ == seq!['S', 'p'],
        "D-"@ == seq!['D', '-'],
        "A-"@ == seq!['A', '-'],
        "C-"@ == seq!['C', '-'],
        "S-"@ == seq!['S', '-'],
{
    reveal_strlit("none");
    reveal_strlit("Up");
    reveal_strlit("Down");
    reveal_strlit("Left");
    reveal_strlit("Right");
    reveal_strlit("Tab");
    reveal_strlit("Ret");
    reveal_strlit("Esc");
    reveal_strlit("Bksp");
    reveal_strlit("Del");
    reveal_strlit("Ins");
    reveal_strlit("Home");
    reveal_strlit("End");
    reveal_strlit("PgUp");
    reveal_strlit("PgDn");
    reveal_strlit("Shift");
    reveal_strlit("Ctrl");
    reveal_strlit("Alt");
    reveal_strlit("Icon");
    reveal_strlit("F");
    reveal_strlit("F1");
    reveal_strlit("F2");
    reveal_strlit("F3");
    reveal_strlit("F4");
    reveal_strlit("F5");
    reveal_strlit("F6");
    reveal_strlit("F7");
    reveal_strlit("F8");
    reveal_strlit("F9");
    reveal_strlit("F10");
    reveal_strlit("F11");
    reveal_strlit("F12");
    reveal_strlit("Sp");
    reveal_strlit("D-");
    reveal_strlit("A-");
    reveal_strlit("C-");
    reveal_strlit("S-");
    assert("none"@ =~= seq!['n', 'o', 'n', 'e']);
    assert("Up"@ =~= seq!['U', 'p']);
    assert("Down"@ =~= seq!['D', 'o', 'w', 'n']);
    assert("Left"@ =~= seq!['L', 'e', 'f', 't']);
    assert("Right"@ =~= seq!['R', 'i', 'g', 'h', 't']);
    assert("Tab"@ =~= seq!['T', 'a', 'b']);
    assert("Ret"@ =~= seq!['R', 'e', 't']);
    assert("Esc"@ =~= seq!['E', 's', 'c']);
    assert("Bksp"@ =~= seq!['B', 'k', 's', 'p']);
    assert("Del"@ =~= seq!['D', 'e', 'l']);
    assert("Ins"@ =~= seq!['I', 'n', 's']);
    assert("Home"@ =~= seq!['H', 'o', 'm', 'e']);
    assert("End"@ =~= seq!['E', 'n', 'd']);
    assert("PgUp"@ =~= seq!['P', 'g', 'U', 'p']);
    assert("PgDn"@ =~= seq!['P', 'g', 'D', 'n']);
    assert("Shift"@ =~= seq!['S', 'h', 'i', 'f', 't']);
    assert("Ctrl"@ =~= seq!['C', 't', 'r', 'l']);
    assert("Alt"@ =~= seq!['A', 'l', 't']);
    assert("Icon"@ =~= seq!['I', 'c', 'o', 'n']);
    assert("F"@ =~= seq!['F']);
    assert("F1"@ =~= seq!['F', '1']);
    assert("F2"@ =~= seq!['F', '2']);
    assert("F3"@ =~= seq!['F', '3']);
    assert("F4"@ =~= seq!['F', '4']);
    assert("F5"@ =~= seq!['F', '5']);
    assert("F6"@ =~= seq!['F', '6']);
    assert("F7"@ =~= seq!['F', '7']);
    assert("F8"@ =~= seq!['F', '8']);
    assert("F9"@ =~= seq!['F', '9']);
    assert("F10"@ =~= seq!['F', '1', '0']);
    assert("F11"@ =~= seq!['F', '1', '1']);
    assert("F12"@ =~= seq!['F', '1', '2']);
    assert("Sp"@ =~= seq!['S', 'p']);
    assert("D-"@ =~= seq!['D', '-']);
    assert("A-"@ =~= seq!['A', '-']);
    assert("C-"@ =~= seq!['C', '-']);
    assert("S-"@ =~= seq!['S', '-']);
}

/// The name of a key is no modifier prefix, and it stands for that key.
pub proof fn lemma_name_reads_back(key: Key)
    requires
        key.has_name(),
    ensures
        Key::named(key.name()) == Some(key),
        forall|tag: char| !has_prefix(key.name(), tag),
{
    lemma_spellings();
    let name = key.name();
    match key {
        Key::F(n) => {
            reveal_with_fuel(decimal, 2);
            assert(name =~= seq!['F'] + decimal(n as nat));
            if n < 10 {
                assert(name =~= seq!['F', digit_char(n as nat)]);
                assert(name.len() == 2);
                assert(name[0] == 'F');
            } else {
                assert(name =~= seq!['F', '1', digit_char((n - 10) as nat)]);
                assert(name.len() == 3);
                assert(name[0] == 'F');
            }
        },
        Key::Char(c) => {
            if c == ' ' {
                assert(name.len() == 2);
                assert(name[0] == 'S');
                assert(name[1] == 'p');
            } else {
                assert(name.len() == 1);
            }
        },
        _ => {
            assert(name.len() >= 2);
            assert(name[1] != '-');
        },
    }
}

impl KeyMods {
    /// The modifiers with the one of prefix letter `tag` added.
    pub open spec fn with_tag(self, tag: char) -> KeyMods {
        if tag == 'D' {
            KeyMods { logo: true, ..self }
        } else if tag == 'A' || tag == 'M' {
            KeyMods { alt: true, ..self }
        } else if tag == 'C' {
            KeyMods { ctrl: true, ..self }
        } else if tag == 'S' {
            KeyMods { shift: true, ..self }
        } else {
            self
        }
    }
}

/// Reading a text that starts with a modifier prefix is reading the rest
/// of the text with that modifier.
pub proof fn lemma_prefix_read(tag: char, rest: Seq<char>, mods: KeyMods)
    requires
        tag == 'D' || tag == 'A' || tag == 'M' || tag == 'C' || tag == 'S',
    ensures
        KeyTyped::parsed_from(seq![tag, '-'] + rest, mods) == KeyTyped::parsed_from(
            rest,
            mods.with_tag(tag),
        ),
{
    let text = seq![tag, '-'] + rest;
    assert(text.skip(2) =~= rest);
    assert(has_prefix(text, tag));
}

/// Reading back the text of a key press gives the key press without its
/// repeat flag, for every key whose name can be read back.
pub proof fn law_text_round_trip(typed: KeyTyped)
    requires
        KeyTyped::allows(typed.key(), typed.mods()),
        typed.key().has_name(),
    ensures
        KeyTyped::parsed(typed.text()) == Ok::<KeyTyped, InvalidEncoding>(typed.unrepeated()),
        !typed.is_repeat() ==> KeyTyped::parsed(typed.text()) == Ok::<KeyTyped, InvalidEncoding>(
            typed,
        ),
{
    lemma_spellings();
    let key = typed.key();
    let mods = typed.mods();
    let name = key.name();
    let shift = mods.shift && !(key is Char);
    let r3 = (if shift {
        "S-"@
    } else {
        Seq::empty()
    }) + name;
    let r2 = (if mods.ctrl {
        "C-"@
    } else {
        Seq::empty()
    }) + r3;
    let r1 = (if mods.alt {
        "A-"@
    } else {
        Seq::empty()
    }) + r2;
    let r0 = (if mods.logo {
        "D-"@
    } else {
        Seq::empty()
    }) + r1;
    assert(typed.text() =~= r0);
    let m0 = KeyMods::none();
    let m1 = KeyMods { logo: mods.logo, ..m0 };
    let m2 = KeyMods { alt: mods.alt, ..m1 };
    let m3 = KeyMods { ctrl: mods.ctrl, ..m2 };
    let m4 = KeyMods { shift, ..m3 };
    assert(m4 == mods);
    if mods.logo {
        lemma_prefix_read('D', r1, m0);
    } else {
        assert(r0 =~= r1);
    }
    assert(KeyTyped::parsed_from(r0, m0) == KeyTyped::parsed_from(r1, m1));
    if mods.alt {
        lemma_prefix_read('A', r2, m1);
    } else {
        assert(r1 =~= r2);
    }
    assert(KeyTyped::parsed_from(r1, m1) == KeyTyped::parsed_from(r2, m2));
    if mods.ctrl {
        lemma_prefix_read('C', r3, m2);
    } else {
        assert(r2 =~= r3);
    }
    assert(KeyTyped::parsed_from(r2, m2) == KeyTyped::parsed_from(r3, m3));
    if shift {
        lemma_prefix_read('S', name, m3);
    } else {
        assert(r3 =~= name);
    }
    assert(KeyTyped::parsed_from(r3, m3) == KeyTyped::parsed_from(name, m4));
    lemma_name_reads_back(key);
    assert(KeyTyped::parsed_from(name, m4) == Ok::<KeyTyped, InvalidEncoding>(
        KeyTyped::of(key, m4, false),
    ));
}

#[derive(Copy, Clone, PartialEq, Eq, Structural, Hash, Debug)]
pub enum MouseButton {
    Left,
    Middle,
    Right,
}

/// Complex mouse state for IMGUI
#[derive(Copy, Clone, PartialEq, Eq, Hash, Debug)]
pub enum MouseState {
    /// Mouse hovering over position with buttons unpressed.
    Hover([i32; 2]),
    /// `Drag(p, s, b)` Dragged from `s` to `p` with button `b` down.
    Drag([i32; 2], [i32; 2], MouseButton),
    /// `Release(p, s, b)` Button `b` released over `p` after drag from `s`.
    Release([i32; 2], [i32; 2], MouseButton),
    /// `Scroll(p, [u, v])` Mouse at position p scrolled `u` horizontal, `v`
    /// vertical.
    Scroll([i32; 2], [i32; 2]),
}

impl Default for MouseState {
    fn default() -> (state: Self)
        ensures
            state == MouseState::Hover([0, 0]),
    {
        MouseState::Hover([0, 0])
    }
}

impl From<MouseState> for [i32; 2] {
    fn from(value: MouseState) -> (pos: [i32; 2]) {
        value.cursor_pos()
    }
}

impl FromSpecImpl<MouseState> for [i32; 2] {
    open spec fn obeys_from_spec() -> bool {
        true
    }

    open spec fn from_spec(value: MouseState) -> [i32; 2] {
        value.pos()
    }
}

/// A point moved by a vector.
pub open spec fn moved(p: [i32; 2], d: [i32; 2]) -> [i32; 2] {
    [(p[0] + d[0]) as i32, (p[1] + d[1]) as i32]
}

/// Whether a point can be moved by a vector without leaving the range of
/// its coordinates.
pub open spec fn can_move(p: [i32; 2], d: [i32; 2]) -> bool {
    &&& i32::MIN <= p[0] + d[0] <= i32::MAX
    &&& i32::MIN <= p[1] + d[1] <= i32::MAX
}

/// The vector that points the other way.
pub open spec fn reversed(d: [i32; 2]) -> [i32; 2] {
    [(-d[0]) as i32, (-d[1]) as i32]
}

fn move_point(p: [i32; 2], d: [i32; 2]) -> (q: [i32; 2])
    requires
        can_move(p, d),
    ensures
        q == moved(p, d),
{
    [p[0] + d[0], p[1] + d[1]]
}

impl MouseState {
    /// The cursor position.
    pub open spec fn pos(self) -> [i32; 2] {
        match self {
            MouseState::Hover(p) => p,
            MouseState::Drag(p, _, _) => p,
            MouseState::Release(p, _, _) => p,
            MouseState::Scroll(p, _) => p,
        }
    }

    /// The position where the button went down, while a button is down or
    /// was just released.
    pub open spec fn origin(self) -> Option<[i32; 2]> {
        match self {
            MouseState::Hover(_) => None,
            MouseState::Drag(_, s, _) => Some(s),
            MouseState::Release(_, s, _) => Some(s),
            MouseState::Scroll(_, _) => None,
        }
    }

    /// The state with the cursor at `p` and everything else as it was.
    pub open spec fn at(self, p: [i32; 2]) -> MouseState {
        match self {
            MouseState::Hover(_) => MouseState::Hover(p),
            MouseState::Drag(_, s, b) => MouseState::Drag(p, s, b),
            MouseState::Release(_, s, b) => MouseState::Release(p, s, b),
            MouseState::Scroll(_, z) => MouseState::Scroll(p, z),
        }
    }

    /// The state after `button` went down. A press starts a drag where the
    /// cursor is, unless a button is down already or a release has not
    /// been seen for a whole frame yet.
    pub open spec fn pressed(self, button: MouseButton) -> MouseState {
        match self {
            MouseState::Hover(p) => MouseState::Drag(p, p, button),
            MouseState::Scroll(p, _) => MouseState::Drag(p, p, button),
            held => held,
        }
    }

    /// The state after `button` went up: the drag with that button ends.
    pub open spec fn released(self, button: MouseButton) -> MouseState {
        match self {
            MouseState::Drag(p, s, b) => if button == b {
                MouseState::Release(p, s, b)
            } else {
                self
            },
            other => other,
        }
    }

    /// The state after the wheel moved by `u` and `v`.
    pub open spec fn scrolled(self, u: i32, v: i32) -> MouseState {
        MouseState::Scroll(self.pos(), [u, v])
    }

    /// The state at the start of the next frame: a release and a scroll
    /// last for one frame.
    pub open spec fn next_frame(self) -> MouseState {
        match self {
            MouseState::Release(p, _, _) => MouseState::Hover(p),
            MouseState::Scroll(p, _) => MouseState::Hover(p),
            lasting => lasting,
        }
    }

    /// The state with every position moved by `d`. A scroll amount is no
    /// position and stays.
    pub open spec fn translated(self, d: [i32; 2]) -> MouseState {
        match self {
            MouseState::Hover(p) => MouseState::Hover(moved(p, d)),
            MouseState::Drag(p, s, b) => MouseState::Drag(moved(p, d), moved(s, d), b),
            MouseState::Release(p, s, b) => MouseState::Release(moved(p, d), moved(s, d), b),
            MouseState::Scroll(p, z) => MouseState::Scroll(moved(p, d), z),
        }
    }

    /// Whether every position of the state can be moved by `d`.
    pub open spec fn can_translate(self, d: [i32; 2]) -> bool {
        &&& can_move(self.pos(), d)
        &&& self.origin() matches Some(s) ==> can_move(s, d)
    }

    /// Return current mouse cursor position.
    pub fn cursor_pos(&self) -> (p: [i32; 2])
        ensures
            p == self.pos(),
    {
        match self {
            MouseState::Hover(p) => *p,
            MouseState::Drag(p, _, _) => *p,
            MouseState::Release(p, _, _) => *p,
            MouseState::Scroll(p, _) => *p,
        }
    }

    /// The cursor position, to be written to. Nothing else of the state
    /// changes.
    pub fn cursor_pos_mut(&mut self) -> (p: &mut [i32; 2])
        ensures
            *p == old(self).pos(),
            *final(self) == old(self).at(*final(p)),
    {
        match self {
            MouseState::Hover(p) => p,
            MouseState::Drag(p, _, _) => p,
            MouseState::Release(p, _, _) => p,
            MouseState::Scroll(p, _) => p,
        }
    }

    /// Return position where mouse button was first pressed down for `Drag`
    /// and `Release` states.
    pub fn press_pos(&self) -> (s: Option<[i32; 2]>)
        ensures
            s == self.origin(),
    {
        match self {
            MouseState::Hover(_) => None,
            MouseState::Drag(_, s, _) => Some(*s),
            MouseState::Release(_, s, _) => Some(*s),
            MouseState::Scroll(_, _) => None,
        }
    }

    pub fn scroll_delta(&self) -> (z: [i32; 2])
        ensures
            z == (match *self {
                MouseState::Scroll(_, z) => z,
                _ => [0i32, 0i32],
            }),
    {
        if let MouseState::Scroll(_, z) = self {
            *z
        } else {
            [0, 0]
        }
    }

    pub fn button_down(&mut self, button: MouseButton)
        ensures
            *final(self) == old(self).pressed(button),
    {
        match *self {
            MouseState::Hover(p) => *self = MouseState::Drag(p, p, button),
            // Ignore new button presses when in pressed state.
            MouseState::Drag(_, _, _) => {},
            // Also ignore new presses in release state: the release must
            // stay visible until the frame is over.
            MouseState::Release(_, _, _) => {},
            MouseState::Scroll(p, _) => *self = MouseState::Drag(p, p, button),
        }
    }

    pub fn button_up(&mut self, button: MouseButton)
        ensures
            *final(self) == old(self).released(button),
    {
        match *self {
            MouseState::Drag(p, s, b) => {
                if button == b {
                    *self = MouseState::Release(p, s, b);
                }
            },
            _ => {},
        }
    }

    pub fn scroll(&mut self, u: i32, v: i32)
        ensures
            *final(self) == old(self).scrolled(u, v),
    {
        let p = self.cursor_pos();
        *self = MouseState::Scroll(p, [u, v]);
    }

    /// Update called every frame, exits transient `Release` and `Scroll`
    /// states.
    pub fn frame_update(&mut self)
        ensures
            *final(self) == old(self).next_frame(),
    {
        match *self {
            MouseState::Release(p, _, _) => *self = MouseState::Hover(p),
            MouseState::Scroll(p, _) => *self = MouseState::Hover(p),
            _ => {},
        }
    }
}

impl core::ops::AddAssign<[i32; 2]> for MouseState {
    /// Move every position of the state by `rhs`.
    fn add_assign(&mut self, rhs: [i32; 2])
        requires
            old(self).can_translate(rhs),
        ensures
            *final(self) == old(self).translated(rhs),
    {
        match *self {
            MouseState::Hover(p) => *self = MouseState::Hover(move_point(p, rhs)),
            MouseState::Scroll(p, z) => *self = MouseState::Scroll(move_point(p, rhs), z),
            MouseState::Drag(p, s, b) => *self = MouseState::Drag(
                move_point(p, rhs),
                move_point(s, rhs),
                b,
            ),
            MouseState::Release(p, s, b) => *self = MouseState::Release(
                move_point(p, rhs),
                move_point(s, rhs),
                b,
            ),
        }
    }
}

impl core::ops::SubAssign<[i32; 2]> for MouseState {
    /// Move every position of the state against `rhs`.
    fn sub_assign(&mut self, rhs: [i32; 2])
        requires
            rhs[0] != i32::MIN,
            rhs[1] != i32::MIN,
            old(self).can_translate(reversed(rhs)),
        ensures
            *final(self) == old(self).translated(reversed(rhs)),
    {
        let back: [i32; 2] = [-rhs[0], -rhs[1]];
        core::ops::AddAssign::add_assign(self, back);
    }
}

/// A click runs its course: from rest, a press and the release of the
/// same button followed by the end of the frame lead back to rest at the
/// same position, and the release is what the frame in between sees.
pub proof fn law_click_returns_to_hover(p: [i32; 2], button: MouseButton)
    ensures
        MouseState::Hover(p).pressed(button) == MouseState::Drag(p, p, button),
        MouseState::Hover(p).pressed(button).released(button) == MouseState::Release(
            p,
            p,
            button,
        ),
        MouseState::Hover(p).pressed(button).released(button).next_frame() == MouseState::Hover(
            p,
        ),
{
}

/// While a button is down, or released and not yet seen for a frame,
/// another press changes nothing; and a drag outlasts the end of a frame
/// and the release of any other button.
pub proof fn law_press_in_flight_is_kept(state: MouseState, button: MouseButton)
    requires
        state is Drag || state is Release,
    ensures
        state.pressed(button) == state,
        state is Drag ==> state.next_frame() == state,
        state matches MouseState::Drag(_, _, held) && held != button ==> state.released(button)
            == state,
{
}

/// Moving the cursor keeps the kind of the state, the button and the
/// position where the button went down.
pub proof fn law_motion_keeps_origin(state: MouseState, p: [i32; 2])
    ensures
        state.at(p).pos() == p,
        state.at(p).origin() == state.origin(),
        state matches MouseState::Drag(_, s, b) ==> state.at(p) == MouseState::Drag(p, s, b),
        state matches MouseState::Release(_, s, b) ==> state.at(p) == MouseState::Release(
            p,
            s,
            b,
        ),
        state is Hover ==> state.at(p) == MouseState::Hover(p),
        state matches MouseState::Scroll(_, z) ==> state.at(p) == MouseState::Scroll(p, z),
{
}

/// A release and a scroll are seen for exactly one frame: the end of the
/// frame turns them into rest at the same position, and rest stays.
pub proof fn law_transient_states_last_one_frame(state: MouseState)
    ensures
        state is Release || state is Scroll ==> state.next_frame() == MouseState::Hover(
            state.pos(),
        ),
        state.next_frame() is Hover || state.next_frame() is Drag,
        state.next_frame().next_frame() == state.next_frame(),
{
}

} // verus!
