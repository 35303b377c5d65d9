//! State of the windowed backend: fonts and colors, the pending key
//! presses, the keys held down and the mouse.
use crate::char_cell::CharCell;
use crate::color::{x256_rgba, x256_to_rgba, Rgba, X256Color};
use crate::event::{Key, KeyMods, KeyTyped, MouseButton, MouseState};
use crate::gui::event::{GuiKey, GuiMouseButton};
use crate::gui::held::HeldKeys;
use std::collections::VecDeque;
use vstd::arithmetic::div_mod::{
    lemma_div_is_ordered, lemma_div_is_ordered_by_denominator, lemma_fundamental_div_mod,
};
use vstd::prelude::*;

verus! {

/// Number of glyphs in a font sheet: a grid of 16 by 16.
pub const SHEET_GLYPHS: usize = 256;

/// Number of code units that a font maps to glyphs.
pub const LOOKUP_SIZE: usize = 0x10000;

/// The glyph index that stands for a character not in the font.
pub const NO_GLYPH: u8 = 0xff;

/// The place in the font sheet of the glyph for code unit `code`, after
/// the first `n` characters of the sheet have been looked at: that of the
/// last of them that is `code`, or none.
pub open spec fn glyph_among(chars: Seq<char>, n: int, code: int) -> u8
    decreases n,
{
    if n <= 0 {
        NO_GLYPH
    } else if chars[n - 1] as u32 == code {
        (n - 1) as u8
    } else {
        glyph_among(chars, n - 1, code)
    }
}

/// What a font is made of.
pub struct FontView {
    /// For each code unit, the place of its glyph in the sheet.
    pub lookup: Seq<u8>,
    /// Width and height of a glyph in pixels.
    pub size: (u32, u32),
}

/// A bitmap font: a sheet of 16 by 16 glyphs and the characters that the
/// glyphs stand for.
pub struct Font {
    // Lookup table from codepoints to font sheet.
    //
    // All undefined codepoints will point to 0xff.
    char_lookup: Vec<u8>,
    font_size: (u32, u32),
}

impl View for Font {
    type V = FontView;

    closed spec fn view(&self) -> FontView {
        FontView { lookup: self.char_lookup@, size: self.font_size }
    }
}

impl Font {
    #[verifier::type_invariant]
    spec fn well_formed(self) -> bool {
        &&& self.char_lookup@.len() == LOOKUP_SIZE
        &&& self.font_size.0 > 0
        &&& self.font_size.1 > 0
    }

    /// Whether a sheet of the given size in pixels with the given
    /// characters makes a font: the sheet divides into 16 by 16 glyphs of
    /// at least one pixel, and every character is a single code unit.
    pub open spec fn fits(width: u32, height: u32, chars: Seq<char>) -> bool {
        &&& width > 0 && width % 16 == 0
        &&& height > 0 && height % 16 == 0
        &&& chars.len() == SHEET_GLYPHS
        &&& forall|i: int| 0 <= i < chars.len() ==> (chars[i] as u32) < LOOKUP_SIZE
    }

    /// The font of a sheet of `width` by `height` pixels whose glyphs
    /// stand for `chars`, row by row.
    pub fn new(width: u32, height: u32, chars: &[char; 256]) -> (font: Self)
        requires
            Font::fits(width, height, chars@),
        ensures
            font@.size == (width / 16, height / 16),
            font@.lookup.len() == LOOKUP_SIZE,
            forall|code: int|
                0 <= code < LOOKUP_SIZE ==> #[trigger] font@.lookup[code] == glyph_among(
                    chars@,
                    SHEET_GLYPHS as int,
                    code,
                ),
    {
        let mut char_lookup: Vec<u8> = Vec::new();
        let mut n: usize = 0;
        while n < LOOKUP_SIZE
            invariant
                n <= LOOKUP_SIZE,
                char_lookup@.len() == n,
                forall|code: int| 0 <= code < n ==> char_lookup@[code] == NO_GLYPH,
            decreases LOOKUP_SIZE - n,
        {
            char_lookup.push(NO_GLYPH);
            n += 1;
        }
        let mut i: usize = 0;
        while i < SHEET_GLYPHS
            invariant
                i <= SHEET_GLYPHS,
                chars@.len() == SHEET_GLYPHS,
                forall|j: int| 0 <= j < chars@.len() ==> (chars@[j] as u32) < LOOKUP_SIZE,
                char_lookup@.len() == LOOKUP_SIZE,
                forall|code: int|
                    0 <= code < LOOKUP_SIZE ==> #[trigger] char_lookup@[code] == glyph_among(
                        chars@,
                        i as int,
                        code,
                    ),
            decreases SHEET_GLYPHS - i,
        {
            let c = chars[i];
            assert(c == chars@[i as int]);
            let code: u32 = c as u32;
            char_lookup.set(code as usize, i as u8);
            i += 1;
        }
        Font { char_lookup, font_size: (width / 16, height / 16) }
    }

    /// Width and height of a glyph in pixels, both at least one.
    pub fn size(&self) -> (size: (u32, u32))
        ensures
            size == self@.size,
            size.0 > 0,
            size.1 > 0,
    {
        proof {
            use_type_invariant(self);
        }
        self.font_size
    }

    /// The place in the sheet of the glyph for a code unit.
    pub fn glyph(&self, code: u16) -> (place: u8)
        ensures
            self@.lookup.len() == LOOKUP_SIZE,
            place == self@.lookup[code as int],
    {
        proof {
            use_type_invariant(self);
        }
        self.char_lookup[code as usize]
    }
}

/// The quotient of `a` by a positive `b`, rounded towards zero.
pub open spec fn div_to_zero(a: int, b: int) -> int
    recommends
        b > 0,
{
    if a >= 0 {
        a / b
    } else {
        -((-a) / b)
    }
}

/// Where the buffer drawn last lies in the window.
pub struct CanvasView {
    /// Window position of the upper left corner of the buffer.
    pub offset: (i32, i32),
    /// Width and height in window pixels of one cell or pixel of the
    /// buffer.
    pub scale: (i32, i32),
}

impl CanvasView {
    /// Whether the window position can be told in buffer positions.
    pub open spec fn maps(self, x: i32, y: i32) -> bool {
        &&& i32::MIN < x - self.offset.0 <= i32::MAX
        &&& i32::MIN < y - self.offset.1 <= i32::MAX
    }

    /// The buffer position that lies at a window position.
    pub open spec fn apply(self, x: i32, y: i32) -> [i32; 2] {
        [
            div_to_zero(x - self.offset.0, self.scale.0 as int) as i32,
            div_to_zero(y - self.offset.1, self.scale.1 as int) as i32,
        ]
    }
}

/// Where the buffer drawn last lies in the window. The scale is positive.
#[derive(Copy, Clone, Debug)]
pub struct Canvas {
    offset: (i32, i32),
    scale: (i32, i32),
}

impl View for Canvas {
    type V = CanvasView;

    closed spec fn view(&self) -> CanvasView {
        CanvasView { offset: self.offset, scale: self.scale }
    }
}

fn quotient_to_zero(a: i32, b: i32) -> (q: i32)
    requires
        b > 0,
        a > i32::MIN,
    ensures
        q == div_to_zero(a as int, b as int),
{
    if a >= 0 {
        a / b
    } else {
        let up: i32 = (-a) / b;
        -up
    }
}

impl Canvas {
    #[verifier::type_invariant]
    spec fn well_formed(self) -> bool {
        self.scale.0 > 0 && self.scale.1 > 0
    }

    /// A canvas at `offset` on which one buffer position takes up `scale`
    /// window pixels.
    pub fn new(offset: (i32, i32), scale: (i32, i32)) -> (canvas: Self)
        requires
            scale.0 > 0,
            scale.1 > 0,
        ensures
            canvas@ == (CanvasView { offset, scale }),
    {
        Canvas { offset, scale }
    }

    /// Whether the window position can be told in buffer positions.
    pub fn can_map(&self, x: i32, y: i32) -> (ok: bool)
        ensures
            ok == self@.maps(x, y),
    {
        let dx: i64 = x as i64 - self.offset.0 as i64;
        let dy: i64 = y as i64 - self.offset.1 as i64;
        -0x8000_0000 < dx && dx <= 0x7fff_ffff && -0x8000_0000 < dy && dy <= 0x7fff_ffff
    }

    /// The buffer position that lies at a window position.
    pub fn transform(&self, x: i32, y: i32) -> (p: [i32; 2])
        requires
            self@.maps(x, y),
        ensures
            p == self@.apply(x, y),
    {
        proof {
            use_type_invariant(self);
        }
        [
            quotient_to_zero(x - self.offset.0, self.scale.0),
            quotient_to_zero(y - self.offset.1, self.scale.1),
        ]
    }
}

/// A frame that waits to be shown in the window.
#[derive(Debug)]
pub enum GuiFrame {
    /// A buffer of `w` by `h` pixels.
    Pixels { w: u32, h: u32, pixels: Vec<Rgba> },
    /// A buffer of `w` by `h` cells: for each cell the place of its glyph
    /// in the font sheet, its foreground and its background.
    Chars { w: u32, h: u32, glyphs: Vec<u32>, fore: Vec<Rgba>, back: Vec<Rgba> },
}

/// What a frame is made of.
pub enum FrameView {
    Pixels { w: u32, h: u32, pixels: Seq<Rgba> },
    Chars { w: u32, h: u32, glyphs: Seq<u32>, fore: Seq<Rgba>, back: Seq<Rgba> },
}

impl View for GuiFrame {
    type V = FrameView;

    open spec fn view(&self) -> FrameView {
        match *self {
            GuiFrame::Pixels { w, h, pixels } => FrameView::Pixels { w, h, pixels: pixels@ },
            GuiFrame::Chars { w, h, glyphs, fore, back } => FrameView::Chars {
                w,
                h,
                glyphs: glyphs@,
                fore: fore@,
                back: back@,
            },
        }
    }
}

/// What the windowed backend knows between two events.
pub struct GuiState {
    /// The sixteen system colors.
    pub palette: Seq<Rgba>,
    pub font: FontView,
    /// Key presses that no frame has seen yet, oldest first.
    pub keys: Seq<KeyTyped>,
    /// The keys that are down, letters by their small letter.
    pub held: Set<Key>,
    pub mouse: MouseState,
    pub canvas: CanvasView,
    /// Frames that wait to be shown, oldest first.
    pub frames: Seq<FrameView>,
    /// How many logical frames the last frame shown stood for.
    pub logical_frame_count: u32,
    /// Width and height of the window in pixels.
    pub window: (u32, u32),
}

/// The color shown for a palette index: one of the system colors for the
/// first sixteen, the fixed color of the palette for the others.
pub open spec fn shown_color(palette: Seq<Rgba>, c: X256Color) -> Rgba {
    if c.0 < 16 {
        palette[c.0 as int]
    } else {
        x256_rgba(c.0)
    }
}

/// The frame that shows a buffer of `w` by `h` cells.
pub open spec fn chars_frame(
    palette: Seq<Rgba>,
    font: FontView,
    w: u32,
    h: u32,
    cells: Seq<CharCell>,
) -> FrameView {
    FrameView::Chars {
        w,
        h,
        glyphs: Seq::new(cells.len(), |i: int| font.lookup[cells[i].c as int] as u32),
        fore: Seq::new(cells.len(), |i: int| shown_color(palette, cells[i].foreground)),
        back: Seq::new(cells.len(), |i: int| shown_color(palette, cells[i].background)),
    }
}

/// The character that a character event stands for: with control held,
/// the control codes are turned back into the keys that made them.
/// Letters come out small or capital as shift tells, the others as the
/// character of the capital letter column.
pub open spec fn char_typed(character: char, mods: KeyMods) -> Option<char> {
    let c = character as u32;
    if c > 0x8000 {
        None
    } else if c >= 32 {
        Some(character)
    } else if !mods.ctrl {
        None
    } else if c <= 26 && !mods.shift {
        Some((0x60 + c) as char)
    } else {
        Some((0x40 + c) as char)
    }
}

/// The direction in which the wheel moved along one axis, seen from the
/// content that scrolls.
pub open spec fn wheel_step(amount: i32) -> i32 {
    if amount > 0 {
        -1i32
    } else if amount < 0 {
        1i32
    } else {
        0i32
    }
}

/// How many cells of `glyph` pixels a window of `pixels` pixels shows
/// along one axis when it is zoomed by `zoom`.
pub open spec fn cells_across(pixels: u32, glyph: u32, zoom: int) -> int {
    (pixels as int / zoom) / glyph as int
}

/// Whether the cells along one axis keep to a limit. A limit of zero is
/// none.
pub open spec fn fits_across(pixels: u32, glyph: u32, limit: u32, zoom: int) -> bool {
    limit == 0 || cells_across(pixels, glyph, zoom) <= limit
}

/// Whether a window of `w` by `h` pixels, zoomed by `zoom`, shows no more
/// cells of `size` pixels than the limits allow.
pub open spec fn zoom_fits(
    w: u32,
    h: u32,
    size: (u32, u32),
    max_w: u32,
    max_h: u32,
    zoom: int,
) -> bool {
    &&& fits_across(w, size.0, max_w, zoom)
    &&& fits_across(h, size.1, max_h, zoom)
}

/// Zooming further never shows more cells.
pub proof fn lemma_zoom_shows_less(pixels: u32, glyph: u32, zoom: int, further: int)
    requires
        1 <= zoom <= further,
        glyph > 0,
    ensures
        cells_across(pixels, glyph, further) <= cells_across(pixels, glyph, zoom),
{
    lemma_div_is_ordered_by_denominator(pixels as int, zoom, further);
    lemma_div_is_ordered(pixels as int / further, pixels as int / zoom, glyph as int);
}

/// A zoom that leaves more than one cell is less than the number of
/// pixels.
pub proof fn lemma_more_than_one_cell(pixels: u32, glyph: u32, zoom: int)
    requires
        zoom >= 1,
        glyph > 0,
        cells_across(pixels, glyph, zoom) > 1,
    ensures
        zoom < pixels,
{
    let across = pixels as int / zoom;
    lemma_div_is_ordered_by_denominator(across, 1, glyph as int);
    assert(across / 1 == across);
    lemma_fundamental_div_mod(pixels as int, zoom);
    assert(zoom * across >= zoom * 2) by (nonlinear_arith)
        requires
            across >= 2,
            zoom >= 1,
    ;
}

impl GuiState {
    /// Whether `size` is the resolution in character cells under the
    /// limits `max_w` and `max_h`: what the window shows at the least
    /// zoom that keeps to the limits.
    pub open spec fn char_resolution_is(self, max_w: u32, max_h: u32, size: (u32, u32)) -> bool {
        exists|zoom: int|
            {
                &&& zoom >= 1
                &&& #[trigger] zoom_fits(
                    self.window.0,
                    self.window.1,
                    self.font.size,
                    max_w,
                    max_h,
                    zoom,
                )
                &&& forall|less: int|
                    1 <= less < zoom ==> !#[trigger] zoom_fits(
                        self.window.0,
                        self.window.1,
                        self.font.size,
                        max_w,
                        max_h,
                        less,
                    )
                &&& size.0 == cells_across(self.window.0, self.font.size.0, zoom)
                &&& size.1 == cells_across(self.window.1, self.font.size.1, zoom)
            }
    }

    /// The state at the start of the next frame: the oldest key press is
    /// gone, whether or not it was read, and the mouse moves on.
    pub open spec fn next_frame(self) -> GuiState {
        GuiState {
            keys: if self.keys.len() > 0 {
                self.keys.drop_first()
            } else {
                self.keys
            },
            mouse: self.mouse.next_frame(),
            ..self
        }
    }

    /// The key press that the current frame sees.
    pub open spec fn current_key(self) -> KeyTyped {
        if self.keys.len() > 0 {
            self.keys[0]
        } else {
            KeyTyped::of(Key::NoKey, KeyMods::none(), false)
        }
    }

    /// The state after a key went down. The key counts as held, a letter
    /// by its small letter. A key that is not printable is a key press;
    /// the printable ones come as character events.
    pub open spec fn after_key_down(self, key: GuiKey, mods: KeyMods, repeat: bool) -> GuiState {
        match key.typed(mods, repeat) {
            Some(typed) => GuiState {
                keys: if typed.key() is Char {
                    self.keys
                } else {
                    self.keys.push(typed)
                },
                held: self.held.insert(typed.key().lowercased()),
                ..self
            },
            None => self,
        }
    }

    /// The state after a key went up.
    pub open spec fn after_key_up(self, key: GuiKey, mods: KeyMods) -> GuiState {
        match key.typed(mods, false) {
            Some(typed) => GuiState { held: self.held.remove(typed.key().lowercased()), ..self },
            None => self,
        }
    }

    /// The state after a character was typed.
    pub open spec fn after_char(self, character: char, mods: KeyMods, repeat: bool) -> GuiState {
        match char_typed(character, mods) {
            Some(c) => GuiState {
                keys: self.keys.push(
                    KeyTyped::of(Key::Char(c), KeyMods { shift: false, ..mods }, repeat),
                ),
                ..self
            },
            None => self,
        }
    }

    /// The state after the wheel moved.
    pub open spec fn after_wheel(self, x: i32, y: i32) -> GuiState {
        if x != 0 || y != 0 {
            GuiState { mouse: self.mouse.scrolled(wheel_step(x), wheel_step(y)), ..self }
        } else {
            self
        }
    }

    /// The state after a buffer of `w` by `h` cells was drawn. A buffer
    /// without cells is not shown.
    pub open spec fn after_draw_chars(self, w: u32, h: u32, cells: Seq<CharCell>) -> GuiState {
        if w == 0 || h == 0 {
            self
        } else {
            GuiState {
                frames: self.frames.push(chars_frame(self.palette, self.font, w, h, cells)),
                ..self
            }
        }
    }

    /// The state after a buffer of `w` by `h` pixels was drawn. A buffer
    /// without pixels is not shown.
    pub open spec fn after_draw_pixels(self, w: u32, h: u32, pixels: Seq<Rgba>) -> GuiState {
        if w == 0 || h == 0 {
            self
        } else {
            GuiState { frames: self.frames.push(FrameView::Pixels { w, h, pixels }), ..self }
        }
    }
}

/// The views of frames.
pub open spec fn frame_views(frames: Seq<GuiFrame>) -> Seq<FrameView> {
    Seq::new(frames.len(), |i: int| frames[i]@)
}

/// The windowed backend.
pub struct Runtime {
    system_colors: [Rgba; 16],
    font: Font,
    /// How many logical frames were covered in last frame.
    ///
    /// This goes up if the app is slow and drops frames.
    logical_frame_count: u32,
    key_down: HeldKeys,
    mouse_state: MouseState,
    keypress: VecDeque<KeyTyped>,
    canvas: Canvas,
    frames: Vec<GuiFrame>,
    window: (u32, u32),
}

impl View for Runtime {
    type V = GuiState;

    closed spec fn view(&self) -> GuiState {
        GuiState {
            palette: self.system_colors@,
            font: self.font@,
            keys: self.keypress@,
            held: self.key_down@,
            mouse: self.mouse_state,
            canvas: self.canvas@,
            frames: frame_views(self.frames@),
            logical_frame_count: self.logical_frame_count,
            window: self.window,
        }
    }
}

impl Runtime {
    /// A backend for a window of `window` pixels that draws with `font`
    /// and has seen nothing yet. The system colors are those of the
    /// palette.
    pub fn new(font: Font, window: (u32, u32)) -> (runtime: Self)
        ensures
            runtime@ == (GuiState {
                palette: Seq::new(16, |i: int| x256_rgba(i as u8)),
                font: font@,
                keys: Seq::empty(),
                held: Set::empty(),
                mouse: MouseState::Hover([0, 0]),
                canvas: CanvasView { offset: (0, 0), scale: (1, 1) },
                frames: Seq::empty(),
                logical_frame_count: 1,
                window,
            }),
    {
        let mut system_colors: [Rgba; 16] = [Rgba { r: 0, g: 0, b: 0, a: 0 };16];
        let mut i: u8 = 0;
        while i < 16
            invariant
                i <= 16,
                forall|j: int| 0 <= j < i ==> system_colors@[j] == x256_rgba(j as u8),
            decreases 16 - i,
        {
            system_colors[i as usize] = x256_to_rgba(i);
            i += 1;
        }
        let runtime = Runtime {
            system_colors,
            font,
            logical_frame_count: 1,
            key_down: HeldKeys::new(),
            mouse_state: MouseState::default(),
            keypress: VecDeque::new(),
            canvas: Canvas::new((0, 0), (1, 1)),
            frames: Vec::new(),
            window,
        };
        assert(runtime@.palette =~= Seq::new(16, |i: int| x256_rgba(i as u8)));
        assert(runtime@.frames =~= Seq::empty());
        runtime
    }

    /// Set a custom bitmap font.
    pub fn set_font(&mut self, font: Font)
        ensures
            final(self)@ == (GuiState { font: font@, ..old(self)@ }),
    {
        self.font = font;
    }

    /// Set the system color palette.
    pub fn set_palette(&mut self, palette: &[Rgba; 16])
        ensures
            final(self)@ == (GuiState { palette: palette@, ..old(self)@ }),
    {
        self.system_colors = *palette;
    }

    /// The color of the parts of the window that no buffer covers: the
    /// first of the system colors.
    pub fn background(&self) -> (color: Rgba)
        ensures
            color == self@.palette[0],
    {
        self.system_colors[0]
    }

    fn convert_color(&self, c: X256Color) -> (color: Rgba)
        ensures
            color == shown_color(self@.palette, c),
    {
        if c.0 < 16 {
            self.system_colors[c.0 as usize]
        } else {
            x256_to_rgba(c.0)
        }
    }

    /// Draw a pixel buffer of `w` by `h` pixels.
    pub fn draw_pixels(&mut self, w: u32, h: u32, buffer: &[Rgba])
        requires
            buffer@.len() == w as int * h as int,
        ensures
            final(self)@ == old(self)@.after_draw_pixels(w, h, buffer@),
    {
        if w == 0 || h == 0 {
            return ;
        }
        let pixels = vstd::slice::slice_to_vec(buffer);
        self.frames.push(GuiFrame::Pixels { w, h, pixels });
        assert(final(self)@.frames =~= old(self)@.frames.push(
            FrameView::Pixels { w, h, pixels: buffer@ },
        ));
    }

    /// Draw a character buffer of `w` by `h` cells.
    pub fn draw_chars(&mut self, w: u32, h: u32, buffer: &[CharCell])
        requires
            buffer@.len() == w as int * h as int,
        ensures
            final(self)@ == old(self)@.after_draw_chars(w, h, buffer@),
    {
        if w == 0 || h == 0 {
            return ;
        }
        let ghost font = self@.font;
        let ghost palette = self@.palette;
        let mut glyphs: Vec<u32> = Vec::new();
        let mut fore: Vec<Rgba> = Vec::new();
        let mut back: Vec<Rgba> = Vec::new();
        let mut i: usize = 0;
        while i < buffer.len()
            invariant
                i <= buffer@.len(),
                font == self@.font,
                palette == self@.palette,
                glyphs@.len() == i,
                fore@.len() == i,
                back@.len() == i,
                forall|j: int| 0 <= j < i ==> glyphs@[j] == font.lookup[buffer@[j].c as int] as u32,
                forall|j: int| 0 <= j < i ==> fore@[j] == shown_color(palette, buffer@[j].foreground),
                forall|j: int| 0 <= j < i ==> back@[j] == shown_color(palette, buffer@[j].background),
            decreases buffer@.len() - i,
        {
            let cell = buffer[i];
            glyphs.push(self.font.glyph(cell.c) as u32);
            fore.push(self.convert_color(cell.foreground));
            back.push(self.convert_color(cell.background));
            i += 1;
        }
        let ghost shown = chars_frame(palette, font, w, h, buffer@);
        assert(glyphs@ =~= shown->Chars_glyphs);
        assert(fore@ =~= shown->Chars_fore);
        assert(back@ =~= shown->Chars_back);
        self.frames.push(GuiFrame::Chars { w, h, glyphs, fore, back });
        assert(final(self)@.frames =~= old(self)@.frames.push(shown));
    }

    /// Hand out the frames that wait to be shown, oldest first.
    pub fn take_frames(&mut self) -> (frames: Vec<GuiFrame>)
        ensures
            frame_views(frames@) == old(self)@.frames,
            final(self)@ == (GuiState { frames: Seq::empty(), ..old(self)@ }),
    {
        let mut frames: Vec<GuiFrame> = Vec::new();
        core::mem::swap(&mut frames, &mut self.frames);
        assert(final(self)@.frames =~= Seq::empty());
        frames
    }

    /// Tell where the buffer drawn last lies in the window: at `offset`,
    /// each of its pixels `zoom` window pixels wide and high. For a
    /// character buffer a cell is a glyph of the font.
    pub fn set_canvas(&mut self, offset: (i32, i32), zoom: i32, chars: bool)
        requires
            zoom > 0,
            chars ==> zoom * old(self)@.font.size.0 <= i32::MAX && zoom * old(self)@.font.size.1
                <= i32::MAX,
        ensures
            final(self)@ == (GuiState {
                canvas: CanvasView {
                    offset,
                    scale: if chars {
                        (
                            (zoom * old(self)@.font.size.0) as i32,
                            (zoom * old(self)@.font.size.1) as i32,
                        )
                    } else {
                        (zoom, zoom)
                    },
                },
                ..old(self)@
            }),
    {
        if chars {
            let size = self.font.size();
            assert(zoom * size.0 >= zoom && zoom * size.1 >= zoom && zoom * size.0 >= size.0
                && zoom * size.1 >= size.1) by (nonlinear_arith)
                requires
                    zoom > 0,
                    size.0 >= 1,
                    size.1 >= 1,
            ;
            self.canvas = Canvas::new(offset, (zoom * (size.0 as i32), zoom * (size.1 as i32)));
        } else {
            self.canvas = Canvas::new(offset, (zoom, zoom));
        }
    }

    /// The window has a new size in pixels.
    pub fn resize_event(&mut self, width: u32, height: u32)
        ensures
            final(self)@ == (GuiState { window: (width, height), ..old(self)@ }),
    {
        self.window = (width, height);
    }

    /// Resolution of the window in pixels.
    pub fn pixel_resolution(&self) -> (size: (u32, u32))
        ensures
            size == self@.window,
    {
        self.window
    }

    /// Resolution of the window in character cells.
    ///
    /// The window is zoomed by the least whole factor with which it shows
    /// no more than `max_w` columns and `max_h` rows; a limit of zero is
    /// none.
    pub fn char_resolution(&self, max_w: u32, max_h: u32) -> (size: (u32, u32))
        ensures
            self@.char_resolution_is(max_w, max_h, size),
    {
        let (w, h) = self.window;
        let size = self.font.size();
        let mut n: u32 = 1;  // Scale factor.
        if max_w > 0 {
            while (w / n) / size.0 > max_w
                invariant
                    n >= 1,
                    max_w > 0,
                    size.0 > 0,
                    forall|less: int|
                        1 <= less < n ==> !#[trigger] fits_across(w, size.0, max_w, less),
                decreases w - n,
            {
                proof {
                    lemma_more_than_one_cell(w, size.0, n as int);
                    assert(!fits_across(w, size.0, max_w, n as int));
                }
                n += 1;
            }
        }
        assert(fits_across(w, size.0, max_w, n as int));
        assert forall|less: int| 1 <= less < n implies !#[trigger] zoom_fits(
            w,
            h,
            size,
            max_w,
            max_h,
            less,
        ) by {
            assert(!fits_across(w, size.0, max_w, less));
        }
        if max_h > 0 {
            while (h / n) / size.1 > max_h
                invariant
                    n >= 1,
                    max_h > 0,
                    size.0 > 0,
                    size.1 > 0,
                    fits_across(w, size.0, max_w, n as int),
                    forall|less: int|
                        1 <= less < n ==> !#[trigger] zoom_fits(w, h, size, max_w, max_h, less),
                decreases h - n,
            {
                proof {
                    lemma_more_than_one_cell(h, size.1, n as int);
                    assert(!fits_across(h, size.1, max_h, n as int));
                    assert(!zoom_fits(w, h, size, max_w, max_h, n as int));
                    lemma_zoom_shows_less(w, size.0, n as int, n as int + 1);
                }
                n += 1;
            }
        }
        // The zoom that the result is seen at.
        assert(zoom_fits(w, h, size, max_w, max_h, n as int));
        assert((w, h) == self@.window && size == self@.font.size);
        assert((w / n) / size.0 == cells_across(w, size.0, n as int));
        assert((h / n) / size.1 == cells_across(h, size.1, n as int));
        ((w / n) / size.0, (h / n) / size.1)
    }

    /// Whether a key is held down. Letter keys go by their small letter,
    /// whatever shift does.
    pub fn is_down(&self, key: Key) -> (down: bool)
        ensures
            down == self@.held.contains(key),
    {
        self.key_down.contains(key)
    }

    /// The key press of the current frame, or the empty key press.
    pub fn keypress(&self) -> (typed: KeyTyped)
        ensures
            typed == self@.current_key(),
    {
        if self.keypress.len() > 0 {
            self.keypress[0]
        } else {
            KeyTyped::default()
        }
    }

    /// The mouse state of the current frame.
    pub fn mouse_state(&self) -> (state: MouseState)
        ensures
            state == self@.mouse,
    {
        self.mouse_state
    }

    /// Record how many logical frames the frame about to run stands for.
    pub fn set_logical_frame_count(&mut self, n_frames: u32)
        ensures
            final(self)@ == (GuiState { logical_frame_count: n_frames, ..old(self)@ }),
    {
        self.logical_frame_count = n_frames;
    }

    /// Move on to the next frame: drop the key press of this frame and let
    /// a release or a scroll of the mouse end.
    pub fn end_frame(&mut self)
        ensures
            final(self)@ == old(self)@.next_frame(),
    {
        let _ = self.keypress.pop_front();
        self.mouse_state.frame_update();
        assert(self@.keys =~= old(self)@.next_frame().keys);
    }

    pub fn key_down_event(&mut self, keycode: GuiKey, keymods: KeyMods, repeat: bool)
        ensures
            final(self)@ == old(self)@.after_key_down(keycode, keymods, repeat),
    {
        match KeyTyped::try_from((keycode, keymods, repeat)) {
            Ok(typed) => {
                // Printable keys come as character events, the others
                // have to be taken from here.
                if !typed.key().is_printable() {
                    self.keypress.push_back(typed);
                }
                self.key_down.insert(typed.key().char_to_lowercase());
            },
            Err(_) => {},
        }
    }

    pub fn key_up_event(&mut self, keycode: GuiKey, keymods: KeyMods)
        ensures
            final(self)@ == old(self)@.after_key_up(keycode, keymods),
    {
        match KeyTyped::try_from((keycode, keymods, false)) {
            Ok(typed) => {
                self.key_down.remove(typed.key().char_to_lowercase());
            },
            Err(_) => {},
        }
    }

    pub fn char_event(&mut self, character: char, keymods: KeyMods, repeat: bool)
        ensures
            final(self)@ == old(self)@.after_char(character, keymods, repeat),
    {
        let c = character as u32;
        if c > 0x8000 {
            // Not a character that was typed.
            return ;
        }
        if !keymods.ctrl && c < 32 {
            // Some unprintable keys like enter try to get through here...
            return ;
        }
        let mut typed_char = character;
        if keymods.ctrl && c < 32 {
            // CTRL chars show up as nonprintable control codes on windows.
            //
            // Adjust letters to lowercase or uppercase based on shift state,
            // the rest into characters from the uppercase letter column.
            let letter_base: u8 = if keymods.shift {
                0x40
            } else {
                0x60
            };
            let base: u8 = if c <= 26 {
                letter_base
            } else {
                0x40
            };
            typed_char = (base + c as u8) as char;
        }
        let mut mods = keymods;
        // Shift must be false with printable keys.
        mods.shift = false;
        let typed = KeyTyped::new(Key::Char(typed_char), mods, repeat);
        self.keypress.push_back(typed);
    }

    pub fn mouse_motion_event(&mut self, x: i32, y: i32)
        requires
            old(self)@.canvas.maps(x, y),
        ensures
            final(self)@ == (GuiState {
                mouse: old(self)@.mouse.at(old(self)@.canvas.apply(x, y)),
                ..old(self)@
            }),
    {
        let p = self.canvas.transform(x, y);
        *self.mouse_state.cursor_pos_mut() = p;
    }

    /// Whether a motion to the window position can be taken in.
    pub fn can_move_to(&self, x: i32, y: i32) -> (ok: bool)
        ensures
            ok == self@.canvas.maps(x, y),
    {
        self.canvas.can_map(x, y)
    }

    /// The wheel moved by `x` and `y`, both rounded towards zero.
    pub fn mouse_wheel_event(&mut self, x: i32, y: i32)
        ensures
            final(self)@ == old(self)@.after_wheel(x, y),
    {
        let u: i32 = if x > 0 {
            -1
        } else if x < 0 {
            1
        } else {
            0
        };
        let v: i32 = if y > 0 {
            -1
        } else if y < 0 {
            1
        } else {
            0
        };
        if u != 0 || v != 0 {
            self.mouse_state.scroll(u, v);
        }
    }

    pub fn mouse_button_down_event(&mut self, button: GuiMouseButton)
        ensures
            final(self)@ == (GuiState {
                mouse: match button {
                    GuiMouseButton::Left => old(self)@.mouse.pressed(MouseButton::Left),
                    GuiMouseButton::Middle => old(self)@.mouse.pressed(MouseButton::Middle),
                    GuiMouseButton::Right => old(self)@.mouse.pressed(MouseButton::Right),
                    GuiMouseButton::Unknown => old(self)@.mouse,
                },
                ..old(self)@
            }),
    {
        match MouseButton::try_from(button) {
            Ok(button) => {
                self.mouse_state.button_down(button);
            },
            Err(_) => {},
        }
    }

    pub fn mouse_button_up_event(&mut self, button: GuiMouseButton)
        ensures
            final(self)@ == (GuiState {
                mouse: match button {
                    GuiMouseButton::Left => old(self)@.mouse.released(MouseButton::Left),
                    GuiMouseButton::Middle => old(self)@.mouse.released(MouseButton::Middle),
                    GuiMouseButton::Right => old(self)@.mouse.released(MouseButton::Right),
                    GuiMouseButton::Unknown => old(self)@.mouse,
                },
                ..old(self)@
            }),
    {
        match MouseButton::try_from(button) {
            Ok(button) => {
                self.mouse_state.button_up(button);
            },
            Err(_) => {},
        }
    }
}

} // verus!
