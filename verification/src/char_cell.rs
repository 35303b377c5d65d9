//! A character cell: one glyph with a foreground and a background color.
use crate::color::X256Color;
use vstd::prelude::*;
use vstd::std_specs::convert::FromSpecImpl;

verus! {

/// `char::from_u32` of the standard library: a number is turned into the
/// character with that scalar value, and into nothing when it lies in the
/// surrogate range or above the last code point.
pub assume_specification[ char::from_u32 ](i: u32) -> (r: Option<char>)
    ensures
        r == (if is_scalar_value(i) {
            Some(i as char)
        } else {
            None
        }),
;

/// True for the numbers that are Unicode scalar values.
pub open spec fn is_scalar_value(i: u32) -> bool {
    i <= 0xD7FF || (0xE000 <= i && i <= 0x10FFFF)
}

/// The UTF-16 code unit stored for a character: the character itself when
/// it fits in one unit, the replacement character otherwise.
pub open spec fn utf16_unit(c: char) -> u16 {
    if c as u32 >= 0x10000 {
        0xfffd
    } else {
        c as u16
    }
}

/// One position of a character grid.
#[derive(Copy, Clone, PartialEq, Eq, Structural, Hash, Debug)]
pub struct CharCell {
    /// Char in UTF-16.
    pub c: u16,
    /// Cell foreground color, `X256Color::FOREGROUND` by default.
    pub foreground: X256Color,
    /// Cell background color, `X256Color::BACKGROUND` by default.
    pub background: X256Color,
}

impl Default for CharCell {
    fn default() -> (cell: Self)
        ensures
            cell == CharCell::blank(),
    {
        CharCell {
            c: 0,
            foreground: X256Color(X256Color::FOREGROUND),
            background: X256Color(X256Color::BACKGROUND),
        }
    }
}

impl From<char> for CharCell {
    fn from(c: char) -> (cell: CharCell) {
        CharCell::c(c)
    }
}

impl FromSpecImpl<char> for CharCell {
    open spec fn obeys_from_spec() -> bool {
        true
    }

    open spec fn from_spec(c: char) -> CharCell {
        CharCell::plain(c)
    }
}

impl CharCell {
    /// The default cell: the null glyph in the default colors.
    pub open spec fn blank() -> CharCell {
        CharCell {
            c: 0,
            foreground: X256Color(X256Color::FOREGROUND),
            background: X256Color(X256Color::BACKGROUND),
        }
    }

    /// The cell that shows `c` in the default colors.
    pub open spec fn plain(c: char) -> CharCell {
        CharCell {
            c: utf16_unit(c),
            foreground: X256Color(X256Color::FOREGROUND),
            background: X256Color(X256Color::BACKGROUND),
        }
    }

    /// This cell with foreground and background exchanged.
    pub open spec fn swapped(self) -> CharCell {
        CharCell { c: self.c, foreground: self.background, background: self.foreground }
    }

    /// The character this cell draws: nothing for a code unit that is half
    /// of a surrogate pair, a space for the null glyph.
    pub open spec fn glyph(self) -> Option<char> {
        if !is_scalar_value(self.c as u32) {
            None
        } else if self.c == 0 {
            Some(' ')
        } else {
            Some(self.c as char)
        }
    }

    pub fn new(c: char, foreground: X256Color, background: X256Color) -> (cell: Self)
        ensures
            cell == (CharCell { c: utf16_unit(c), foreground, background }),
    {
        let mut ret = CharCell { c: 0, foreground, background };
        ret.set_c(c);
        ret
    }

    /// Store `c`, or the replacement character if `c` does not fit in a
    /// single UTF-16 code unit.
    pub fn set_c(&mut self, c: char)
        ensures
            *final(self) == (CharCell { c: utf16_unit(c), ..*old(self) }),
    {
        let code: u32 = c as u32;
        self.c = if code >= 0x10000 {
            0xfffd
        } else {
            code as u16
        };
    }

    /// Swap background and foreground colors of cell.
    pub fn invert(&mut self)
        ensures
            *final(self) == old(self).swapped(),
    {
        *self = self.inv();
    }

    /// Create default-colored `CharCell` with given char.
    pub fn c(c: char) -> (cell: Self)
        ensures
            cell == CharCell::plain(c),
    {
        CharCell::new(c, X256Color(X256Color::FOREGROUND), X256Color(X256Color::BACKGROUND))
    }

    /// Set foreground color of cell.
    pub fn col(self, foreground: X256Color) -> (cell: Self)
        ensures
            cell == (CharCell { foreground, ..self }),
    {
        CharCell { c: self.c, foreground, background: self.background }
    }

    /// Cell with background and foreground colors swapped.
    pub fn inv(self) -> (cell: Self)
        ensures
            cell == self.swapped(),
    {
        CharCell { c: self.c, foreground: self.background, background: self.foreground }
    }

    /// The character to draw for this cell, see [`CharCell::glyph`].
    pub fn to_char(&self) -> (ch: Option<char>)
        ensures
            ch == self.glyph(),
    {
        match char::from_u32(self.c as u32) {
            Some(ch) => if self.c == 0 {
                Some(' ')
            } else {
                Some(ch)
            },
            None => None,
        }
    }
}

} // verus!
