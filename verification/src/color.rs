//! Colors: 32-bit RGBA values and indices into the 256-color Xterm palette.
use vstd::prelude::*;
use vstd::std_specs::convert::FromSpecImpl;
use vstd::std_specs::ops::MulSpecImpl;

verus! {

/// 32-bit full-color color type.
#[derive(Copy, Clone, PartialEq, Eq, Structural, Hash, Debug)]
pub struct Rgba {
    pub r: u8,
    pub g: u8,
    pub b: u8,
    pub a: u8,
}

impl Default for Rgba {
    fn default() -> (c: Self)
        ensures
            c == (Rgba { r: 0, g: 0, b: 0, a: 0 }),
    {
        Rgba { r: 0, g: 0, b: 0, a: 0 }
    }
}

impl Rgba {
    pub fn new(r: u8, g: u8, b: u8, a: u8) -> (c: Self)
        ensures
            c == (Rgba { r, g, b, a }),
    {
        Rgba { r, g, b, a }
    }

    /// The color with each channel multiplied by that of `rhs`, the
    /// channels read as fractions of 255.
    pub open spec fn modulated(self, rhs: Rgba) -> Rgba {
        Rgba {
            r: scale_channel(self.r, rhs.r),
            g: scale_channel(self.g, rhs.g),
            b: scale_channel(self.b, rhs.b),
            a: scale_channel(self.a, rhs.a),
        }
    }

    /// True when the alpha channel is zero.
    #[inline(always)]
    pub fn is_transparent(&self) -> (t: bool)
        ensures
            t == (self.a == 0),
    {
        self.a == 0
    }
}

/// Product of two channel values read as fractions of 255, rounded down.
pub open spec fn scale_channel(x: u8, y: u8) -> u8 {
    ((x as int * y as int) / 255) as u8
}

fn mul_channel(x: u8, y: u8) -> (z: u8)
    ensures
        z == scale_channel(x, y),
{
    assert(0 <= x as int * y as int <= 255 * 255) by (nonlinear_arith)
        requires
            0 <= x <= 255,
            0 <= y <= 255,
    ;
    let wide: u16 = (x as u16) * (y as u16);
    (wide / 255) as u8
}

impl core::ops::Mul for Rgba {
    type Output = Rgba;

    /// Channel-wise modulation of one color by another.
    fn mul(self, rhs: Rgba) -> (out: Rgba)
        ensures
            out == self.modulated(rhs),
    {
        Rgba {
            r: mul_channel(self.r, rhs.r),
            g: mul_channel(self.g, rhs.g),
            b: mul_channel(self.b, rhs.b),
            a: mul_channel(self.a, rhs.a),
        }
    }
}

impl MulSpecImpl for Rgba {
    open spec fn obeys_mul_spec() -> bool {
        true
    }

    open spec fn mul_req(self, rhs: Rgba) -> bool {
        true
    }

    open spec fn mul_spec(self, rhs: Rgba) -> Rgba {
        self.modulated(rhs)
    }
}

/// A color multiplied by white is that color, and multiplied by the
/// color with no channel set it is that color with no channel set, on
/// either side.
pub proof fn law_mul_units(c: Rgba)
    ensures
        c.modulated(Rgba { r: 255, g: 255, b: 255, a: 255 }) == c,
        (Rgba { r: 255, g: 255, b: 255, a: 255 }).modulated(c) == c,
        c.modulated(Rgba { r: 0, g: 0, b: 0, a: 0 }) == (Rgba { r: 0, g: 0, b: 0, a: 0 }),
        (Rgba { r: 0, g: 0, b: 0, a: 0 }).modulated(c) == (Rgba { r: 0, g: 0, b: 0, a: 0 }),
{
    assert forall|x: u8| scale_channel(x, 255) == x && scale_channel(255, x) == x
        && scale_channel(x, 0) == 0 && #[trigger] scale_channel(0, x) == 0 by {
        assert(x as int * 255 == 255 * x as int) by (nonlinear_arith);
        assert(x as int * 0 == 0 && 0 * x as int == 0) by (nonlinear_arith);
    }
}

impl core::ops::BitOrAssign for Rgba {
    fn bitor_assign(&mut self, rhs: Rgba)
        ensures
            *final(self) == (Rgba {
                r: old(self).r | rhs.r,
                g: old(self).g | rhs.g,
                b: old(self).b | rhs.b,
                a: old(self).a | rhs.a,
            }),
    {
        self.r = self.r | rhs.r;
        self.g = self.g | rhs.g;
        self.b = self.b | rhs.b;
        self.a = self.a | rhs.a;
    }
}

impl core::ops::BitAndAssign for Rgba {
    fn bitand_assign(&mut self, rhs: Rgba)
        ensures
            *final(self) == (Rgba {
                r: old(self).r & rhs.r,
                g: old(self).g & rhs.g,
                b: old(self).b & rhs.b,
                a: old(self).a & rhs.a,
            }),
    {
        self.r = self.r & rhs.r;
        self.g = self.g & rhs.g;
        self.b = self.b & rhs.b;
        self.a = self.a & rhs.a;
    }
}

/// 256 color Xterm palette color.
///
/// Indices 0 to 15 are the system colors, 16 to 231 a 6x6x6 color cube and
/// 232 to 255 a greyscale ramp.
#[derive(Copy, Clone, PartialEq, Eq, Structural, Hash, PartialOrd, Ord, Debug)]
pub struct X256Color(pub u8);

impl Default for X256Color {
    fn default() -> (c: Self)
        ensures
            c == X256Color(0),
    {
        X256Color(0)
    }
}

impl X256Color {
    // Indices of the system colors.
    /// Might be black or white, depends on the user's terminal theme.
    pub const BACKGROUND: u8 = 0x0;
    pub const MAROON: u8 = 0x1;
    pub const GREEN: u8 = 0x2;
    pub const BROWN: u8 = 0x3;
    pub const NAVY: u8 = 0x4;
    pub const PURPLE: u8 = 0x5;
    pub const TEAL: u8 = 0x6;
    /// Might be white or black, depends on the user's terminal theme.
    pub const FOREGROUND: u8 = 0x7;
    pub const GRAY: u8 = 0x8;
    pub const RED: u8 = 0x9;
    pub const LIME: u8 = 0xa;
    pub const YELLOW: u8 = 0xb;
    pub const BLUE: u8 = 0xc;
    pub const FUCHSIA: u8 = 0xd;
    pub const AQUA: u8 = 0xe;
    pub const BOLD_FOREGROUND: u8 = 0xf;

    /// True for the color that stands for the terminal's own background.
    pub open spec fn is_background(self) -> bool {
        self.0 == Self::BACKGROUND
    }

    /// The RGBA values of all 256 palette entries, in index order.
    pub fn palette() -> (table: Vec<Rgba>)
        ensures
            table@.len() == 256,
            forall|i: int| 0 <= i < 256 ==> table@[i] == x256_rgba(i as u8),
    {
        let mut table: Vec<Rgba> = Vec::new();
        let mut i: u16 = 0;
        while i < 256
            invariant
                i <= 256,
                table@.len() == i,
                forall|j: int| 0 <= j < i ==> table@[j] == x256_rgba(j as u8),
            decreases 256 - i,
        {
            table.push(x256_to_rgba(i as u8));
            i += 1;
        }
        table
    }
}

/// Intensity of step `i` (0 to 5) of one axis of the 6x6x6 color cube.
pub open spec fn cube_level(i: int) -> int {
    if i > 0 {
        i * 40 + 55
    } else {
        0
    }
}

/// The opaque color with the given channels.
pub open spec fn opaque(r: int, g: int, b: int) -> Rgba {
    Rgba { r: r as u8, g: g as u8, b: b as u8, a: 0xff }
}

/// The sixteen EGA-like system colors.
pub open spec fn system_rgba(c: u8) -> Rgba
    recommends
        c < 16,
{
    let lo: int = if c < 8 { 0x00 } else { 0x55 };
    let hi: int = if c < 8 { 0xaa } else { 0xff };
    if c == 0x3 {
        opaque(0xaa, 0x55, 0x00)
    } else if c == 0x4 {
        opaque(0x22, 0x22, 0xcc)
    } else {
        opaque(
            if c & 1 != 0 { hi } else { lo },
            if c & 2 != 0 { hi } else { lo },
            if c & 4 != 0 { hi } else { lo },
        )
    }
}

/// The RGBA value of palette index `c`.
pub open spec fn x256_rgba(c: u8) -> Rgba {
    if c < 16 {
        system_rgba(c)
    } else if c < 232 {
        let x = c - 16;
        opaque(cube_level(x / 36), cube_level((x / 6) % 6), cube_level(x % 6))
    } else {
        let level = 8 + 10 * (c - 232);
        opaque(level, level, level)
    }
}

fn cube_channel(i: u8) -> (level: u8)
    requires
        i < 6,
    ensures
        level == cube_level(i as int),
{
    if i > 0 {
        i * 40 + 55
    } else {
        0
    }
}

/// Look up the RGBA value of a palette index.
pub fn x256_to_rgba(c: u8) -> (color: Rgba)
    ensures
        color == x256_rgba(c),
{
    if c < 16 {
        assert(c & 1 != 0 <==> (c == 1 || c == 3 || c == 5 || c == 7 || c == 9 || c == 11 || c
            == 13 || c == 15)) by (bit_vector)
            requires
                c < 16,
        ;
        assert(c & 2 != 0 <==> (c == 2 || c == 3 || c == 6 || c == 7 || c == 10 || c == 11 || c
            == 14 || c == 15)) by (bit_vector)
            requires
                c < 16,
        ;
        assert(c & 4 != 0 <==> (c == 4 || c == 5 || c == 6 || c == 7 || c == 12 || c == 13 || c
            == 14 || c == 15)) by (bit_vector)
            requires
                c < 16,
        ;
        match c {
            0x0 => Rgba::new(0x00, 0x00, 0x00, 0xff),
            0x1 => Rgba::new(0xaa, 0x00, 0x00, 0xff),
            0x2 => Rgba::new(0x00, 0xaa, 0x00, 0xff),
            0x3 => Rgba::new(0xaa, 0x55, 0x00, 0xff),
            0x4 => Rgba::new(0x22, 0x22, 0xcc, 0xff),
            0x5 => Rgba::new(0xaa, 0x00, 0xaa, 0xff),
            0x6 => Rgba::new(0x00, 0xaa, 0xaa, 0xff),
            0x7 => Rgba::new(0xaa, 0xaa, 0xaa, 0xff),
            0x8 => Rgba::new(0x55, 0x55, 0x55, 0xff),
            0x9 => Rgba::new(0xff, 0x55, 0x55, 0xff),
            0xa => Rgba::new(0x55, 0xff, 0x55, 0xff),
            0xb => Rgba::new(0xff, 0xff, 0x55, 0xff),
            0xc => Rgba::new(0x55, 0x55, 0xff, 0xff),
            0xd => Rgba::new(0xff, 0x55, 0xff, 0xff),
            0xe => Rgba::new(0x55, 0xff, 0xff, 0xff),
            _ => Rgba::new(0xff, 0xff, 0xff, 0xff),
        }
    } else if c < 232 {
        let x: u8 = c - 0x10;
        Rgba::new(cube_channel(x / 36), cube_channel((x / 6) % 6), cube_channel(x % 6), 0xff)
    } else {
        let x: u8 = c - 232;
        let level: u8 = 8 + 10 * x;
        Rgba::new(level, level, level, 0xff)
    }
}

impl From<X256Color> for Rgba {
    fn from(value: X256Color) -> (color: Rgba) {
        x256_to_rgba(value.0)
    }
}

impl FromSpecImpl<X256Color> for Rgba {
    open spec fn obeys_from_spec() -> bool {
        true
    }

    open spec fn from_spec(value: X256Color) -> Rgba {
        x256_rgba(value.0)
    }
}

} // verus!
