//! State of the terminal backend: the screen, the pending key presses and
//! the mouse.
use crate::char_cell::CharCell;
use crate::color::X256Color;
use crate::event::{Key, KeyMods, KeyTyped, MouseState};
use crate::tty::diff::{
    centering, frame_ops, frame_screen, law_second_draw_is_silent, lemma_index_in_grid,
    DiffRenderer, Screen, Snapshot, TermOp,
};
use crate::tty::event::{typed_of_term, TermEvent, TermMouseKind};
use std::collections::VecDeque;
use vstd::arithmetic::div_mod::lemma_fundamental_div_mod_converse;
use vstd::prelude::*;

verus! {

/// How a position on the terminal is turned into a position in the buffer
/// drawn last: the offset is taken off, the rest is scaled.
#[derive(Copy, Clone, PartialEq, Eq, Hash, Debug)]
pub struct MouseTransform {
    pub offset: [u16; 2],
    pub scale: [u8; 2],
}

impl Default for MouseTransform {
    fn default() -> (transform: Self)
        ensures
            transform == MouseTransform::identity(),
    {
        MouseTransform { offset: [0, 0], scale: [1, 1] }
    }
}

impl MouseTransform {
    /// The transform that leaves every position where it is.
    pub open spec fn identity() -> MouseTransform {
        MouseTransform { offset: [0u16, 0u16], scale: [1u8, 1u8] }
    }

    /// The transform for a buffer of `w` by `h` cells, each `rows_per_cell`
    /// buffer rows high, centered on a terminal of `cols` by `rows` cells.
    pub open spec fn centered(
        cols: u16,
        rows: u16,
        w: u32,
        h: u32,
        rows_per_cell: u8,
    ) -> MouseTransform {
        MouseTransform {
            offset: [
                centering(cols as int, w as int) as u16,
                centering(rows as int, h as int) as u16,
            ],
            scale: [1u8, rows_per_cell],
        }
    }

    /// The buffer position of the terminal cell in column `col`, row `row`.
    pub open spec fn apply(self, col: u16, row: u16) -> [i32; 2] {
        [
            ((col - self.offset[0]) * self.scale[0]) as i32,
            ((row - self.offset[1]) * self.scale[1]) as i32,
        ]
    }
}

/// The glyph that shows its upper half in the foreground color and its
/// lower half in the background color.
pub const UPPER_HALF_BLOCK: char = '\u{2580}';

/// Number of columns assumed for a terminal that does not tell its size.
pub const DEFAULT_COLS: u16 = 80;

/// Number of rows assumed for a terminal that does not tell its size.
pub const DEFAULT_ROWS: u16 = 24;

/// The cell that shows the pixels in column `x` of the pixel rows `2 * y`
/// and `2 * y + 1`.
pub open spec fn half_block(pixels: Seq<X256Color>, w: int, x: int, y: int) -> CharCell {
    CharCell {
        c: 0x2580,
        foreground: pixels[2 * y * w + x],
        background: pixels[(2 * y + 1) * w + x],
    }
}

/// The cells that show a pixel buffer of `w` by `h` pixels at two pixels
/// per cell: `w` by `h / 2` cells, row by row. A last odd row of pixels is
/// left out.
pub open spec fn half_blocks(pixels: Seq<X256Color>, w: int, h: int) -> Seq<CharCell> {
    Seq::new((w * (h / 2)) as nat, |i: int| half_block(pixels, w, i % w, i / w))
}

/// Pair up the rows of a pixel buffer, see [`half_blocks`].
pub fn half_block_cells(w: u32, h: u32, pixels: &[X256Color]) -> (cells: Vec<CharCell>)
    requires
        pixels@.len() == w as int * h as int,
    ensures
        cells@ == half_blocks(pixels@, w as int, h as int),
        cells@.len() == w as int * (h as int / 2),
{
    let rows = h / 2;
    let width = w as usize;
    let total = pixels.len();
    let mut cells: Vec<CharCell> = Vec::new();
    let mut y: u32 = 0;
    assert(0 * w as int == 0) by (nonlinear_arith);
    while y < rows
        invariant
            y <= rows,
            rows == h / 2,
            width == w,
            total == w as int * h as int,
            total == pixels@.len(),
            cells@.len() == y as int * w as int,
            forall|i: int|
                0 <= i < cells@.len() ==> cells@[i] == half_block(
                    pixels@,
                    w as int,
                    i % w as int,
                    i / w as int,
                ),
        decreases rows - y,
    {
        let mut x: u32 = 0;
        while x < w
            invariant
                x <= w,
                y < rows,
                rows == h / 2,
                width == w,
                total == w as int * h as int,
                total == pixels@.len(),
                cells@.len() == y as int * w as int + x,
                forall|i: int|
                    0 <= i < cells@.len() ==> cells@[i] == half_block(
                        pixels@,
                        w as int,
                        i % w as int,
                        i / w as int,
                    ),
            decreases w - x,
        {
            proof {
                lemma_index_in_grid(x as int, 2 * y as int, w as int, h as int);
                lemma_index_in_grid(x as int, 2 * y as int + 1, w as int, h as int);
                assert(0 <= 2 * y as int * w as int) by (nonlinear_arith);
                lemma_fundamental_div_mod_converse(
                    y as int * w as int + x as int,
                    w as int,
                    y as int,
                    x as int,
                );
            }
            let top: usize = 2 * (y as usize) * width + x as usize;
            let bottom: usize = (2 * (y as usize) + 1) * width + x as usize;
            cells.push(CharCell::new(UPPER_HALF_BLOCK, pixels[top], pixels[bottom]));
            x += 1;
        }
        assert((y as int + 1) * w as int == y as int * w as int + w as int) by (nonlinear_arith);
        y += 1;
    }
    assert(rows as int * w as int == w as int * (h as int / 2)) by (nonlinear_arith)
        requires
            rows == h / 2,
    ;
    assert(cells@ =~= half_blocks(pixels@, w as int, h as int));
    cells
}

/// What the terminal backend knows between two events.
pub struct TtyState {
    /// What is on the terminal.
    pub screen: Screen,
    /// Key presses that no frame has seen yet, oldest first.
    pub keys: Seq<KeyTyped>,
    pub mouse: MouseState,
    pub transform: MouseTransform,
    /// Whether the terminal has lost the input focus.
    pub focus_lost: bool,
    /// Operations that wait to be carried out on the terminal.
    pub output: Seq<TermOp>,
}

/// The mouse state after a mouse event at a column and a row.
pub open spec fn mouse_after(
    mouse: MouseState,
    transform: MouseTransform,
    kind: TermMouseKind,
    col: u16,
    row: u16,
) -> MouseState {
    match kind {
        TermMouseKind::Down(button) => mouse.pressed(button),
        TermMouseKind::Up(button) => mouse.released(button),
        TermMouseKind::Drag(_) => mouse.at(transform.apply(col, row)),
        TermMouseKind::Moved => mouse.at(transform.apply(col, row)),
        TermMouseKind::ScrollDown => mouse.scrolled(0, 1),
        TermMouseKind::ScrollUp => mouse.scrolled(0, -1i32),
        TermMouseKind::ScrollLeft => mouse.scrolled(-1i32, 0),
        TermMouseKind::ScrollRight => mouse.scrolled(1, 0),
    }
}

/// The screen of a terminal with a new size: nothing is known to be on it.
pub open spec fn resized(screen: Screen, cols: u16, rows: u16) -> Screen {
    Screen { cols, rows, snapshot: Snapshot { w: 0, h: 0, cells: Seq::empty() }, pen: screen.pen }
}

impl TtyState {
    /// The state of a backend that has seen nothing yet, on a terminal of
    /// the given size in columns and rows, or of 80 by 24 without one.
    pub open spec fn initial(size: Option<(u16, u16)>) -> TtyState {
        let (cols, rows) = match size {
            Some(told) => told,
            None => (DEFAULT_COLS, DEFAULT_ROWS),
        };
        TtyState {
            screen: Screen {
                cols,
                rows,
                snapshot: Snapshot { w: 0, h: 0, cells: Seq::empty() },
                pen: None,
            },
            keys: Seq::empty(),
            mouse: MouseState::Hover([0, 0]),
            transform: MouseTransform::identity(),
            focus_lost: false,
            output: Seq::empty(),
        }
    }

    /// The state after a buffer of `w` by `h` cells, each `rows_per_cell`
    /// buffer rows high, was drawn: the operations that bring the terminal
    /// up to date wait in the output, and positions of the mouse are taken
    /// relative to the buffer from now on.
    pub open spec fn after_draw(self, w: u32, h: u32, cells: Seq<CharCell>, rows_per_cell: u8) -> TtyState {
        TtyState {
            screen: frame_screen(self.screen, w, h, cells),
            transform: MouseTransform::centered(self.screen.cols, self.screen.rows, w, h, rows_per_cell),
            output: self.output + frame_ops(self.screen, w, h, cells),
            ..self
        }
    }

    /// The state after an event. Every event gives the focus back, but for
    /// the one that tells of its loss.
    pub open spec fn after_event(self, event: TermEvent) -> TtyState {
        let awake = TtyState { focus_lost: false, ..self };
        match event {
            TermEvent::Key(key) => match typed_of_term(key) {
                Some(typed) => TtyState { keys: self.keys.push(typed), ..awake },
                None => awake,
            },
            TermEvent::Mouse(kind, col, row) => TtyState {
                mouse: mouse_after(self.mouse, self.transform, kind, col, row),
                ..awake
            },
            TermEvent::Resize(cols, rows) => TtyState {
                screen: resized(self.screen, cols, rows),
                ..awake
            },
            TermEvent::FocusGained => awake,
            TermEvent::FocusLost => TtyState { focus_lost: true, ..awake },
            TermEvent::Paste => awake,
        }
    }

    /// The state at the start of the next frame: the oldest key press is
    /// gone, whether or not it was read, and the mouse moves on.
    pub open spec fn next_frame(self) -> TtyState {
        TtyState {
            keys: if self.keys.len() > 0 {
                self.keys.drop_first()
            } else {
                self.keys
            },
            mouse: self.mouse.next_frame(),
            ..self
        }
    }

    /// The key press that the current frame sees.
    pub open spec fn current_key(self) -> KeyTyped {
        if self.keys.len() > 0 {
            self.keys[0]
        } else {
            KeyTyped::of(Key::NoKey, KeyMods::none(), false)
        }
    }
}

/// The terminal backend.
pub struct Runtime {
    keypress: VecDeque<KeyTyped>,
    renderer: DiffRenderer,
    output: Vec<TermOp>,
    mouse_state: MouseState,
    // Last frame's projection that needs to be applied to mouse position.
    mouse_transform: MouseTransform,
    focus_lost: bool,
}

impl View for Runtime {
    type V = TtyState;

    closed spec fn view(&self) -> TtyState {
        TtyState {
            screen: self.renderer@,
            keys: self.keypress@,
            mouse: self.mouse_state,
            transform: self.mouse_transform,
            focus_lost: self.focus_lost,
            output: self.output@,
        }
    }
}

impl Runtime {
    /// A backend for a terminal of the given size in columns and rows, or
    /// of 80 by 24 if the terminal did not tell its size.
    pub fn new(size: Option<(u16, u16)>) -> (runtime: Self)
        ensures
            runtime@ == TtyState::initial(size),
    {
        let (cols, rows) = match size {
            Some((cols, rows)) => (cols, rows),
            None => (DEFAULT_COLS, DEFAULT_ROWS),
        };
        Runtime {
            keypress: VecDeque::new(),
            renderer: DiffRenderer::new(cols, rows),
            output: Vec::new(),
            mouse_state: MouseState::default(),
            mouse_transform: MouseTransform::default(),
            focus_lost: false,
        }
    }

    /// Draw a pixel buffer of `w` by `h` pixels, two pixel rows to a row
    /// of cells.
    pub fn draw_pixels(&mut self, w: u32, h: u32, buffer: &[X256Color])
        requires
            buffer@.len() == w as int * h as int,
        ensures
            final(self)@ == old(self)@.after_draw(
                w,
                (h / 2) as u32,
                half_blocks(buffer@, w as int, h as int),
                2,
            ),
    {
        let cells = half_block_cells(w, h, buffer);
        self.draw_chars(w, h / 2, cells.as_slice());
        // Account for the doubled y axis.
        let offset = self.mouse_transform.offset;
        self.mouse_transform = MouseTransform { offset, scale: [1, 2] };
    }

    /// Draw a character buffer of `w` by `h` cells.
    pub fn draw_chars(&mut self, w: u32, h: u32, buffer: &[CharCell])
        requires
            buffer@.len() == w as int * h as int,
        ensures
            final(self)@ == old(self)@.after_draw(w, h, buffer@, 1),
    {
        let (cols, rows) = self.renderer.size();
        // Adjust mouse pos for the small buffer.
        let x_offset: u16 = if w < cols as u32 {
            (cols - w as u16) / 2
        } else {
            0
        };
        let y_offset: u16 = if h < rows as u32 {
            (rows - h as u16) / 2
        } else {
            0
        };
        let mut ops = self.renderer.render(w, h, buffer);
        self.output.append(&mut ops);
        self.mouse_transform = MouseTransform { offset: [x_offset, y_offset], scale: [1, 1] };
    }

    /// Hand out the operations that wait to be carried out, in order.
    pub fn take_output(&mut self) -> (ops: Vec<TermOp>)
        ensures
            ops@ == old(self)@.output,
            final(self)@ == (TtyState { output: Seq::empty(), ..old(self)@ }),
    {
        let mut ops: Vec<TermOp> = Vec::new();
        core::mem::swap(&mut ops, &mut self.output);
        ops
    }

    /// Resolution in pixels: a cell shows two pixels, one above the other.
    pub fn pixel_resolution(&self) -> (size: (u32, u32))
        ensures
            size == (self@.screen.cols as u32, (self@.screen.rows * 2) as u32),
    {
        let (cols, rows) = self.renderer.size();
        (cols as u32, rows as u32 * 2)
    }

    /// Resolution in character cells.
    pub fn char_resolution(&self) -> (size: (u32, u32))
        ensures
            size == (self@.screen.cols as u32, self@.screen.rows as u32),
    {
        let (cols, rows) = self.renderer.size();
        (cols as u32, rows as u32)
    }

    /// A terminal does not tell which keys are held: every key counts as
    /// released at once.
    pub fn is_down(&self, _key: Key) -> (down: bool)
        ensures
            !down,
    {
        false
    }

    /// The key press of the current frame, or the empty key press.
    pub fn keypress(&self) -> (typed: KeyTyped)
        ensures
            typed == self@.current_key(),
    {
        if self.keypress.len() > 0 {
            self.keypress[0]
        } else {
            KeyTyped::default()
        }
    }

    /// The mouse state of the current frame.
    pub fn mouse_state(&self) -> (state: MouseState)
        ensures
            state == self@.mouse,
    {
        self.mouse_state
    }

    /// Whether the terminal has lost the focus, so that nothing can
    /// happen before the next event.
    pub fn focus_lost(&self) -> (lost: bool)
        ensures
            lost == self@.focus_lost,
    {
        self.focus_lost
    }

    /// Take in an event. The result says whether the event gave the focus
    /// back, so that the time of the frame starts anew.
    pub fn process_event(&mut self, event: TermEvent) -> (woke: bool)
        ensures
            woke == old(self)@.focus_lost,
            final(self)@ == old(self)@.after_event(event),
    {
        let woke = self.focus_lost;
        self.focus_lost = false;
        match event {
            TermEvent::Key(key) => {
                match KeyTyped::try_from(key) {
                    Ok(typed) => {
                        self.keypress.push_back(typed);
                    },
                    Err(_) => {},
                }
            },
            TermEvent::Mouse(kind, col, row) => {
                match kind {
                    TermMouseKind::Down(button) => {
                        self.mouse_state.button_down(button);
                    },
                    TermMouseKind::Up(button) => {
                        self.mouse_state.button_up(button);
                    },
                    TermMouseKind::Drag(_) => {
                        let p = self.transform_mouse_pos(col, row);
                        *self.mouse_state.cursor_pos_mut() = p;
                    },
                    TermMouseKind::Moved => {
                        let p = self.transform_mouse_pos(col, row);
                        *self.mouse_state.cursor_pos_mut() = p;
                    },
                    TermMouseKind::ScrollDown => {
                        self.mouse_state.scroll(0, 1);
                    },
                    TermMouseKind::ScrollUp => {
                        self.mouse_state.scroll(0, -1);
                    },
                    TermMouseKind::ScrollLeft => {
                        self.mouse_state.scroll(-1, 0);
                    },
                    TermMouseKind::ScrollRight => {
                        self.mouse_state.scroll(1, 0);
                    },
                }
            },
            TermEvent::Resize(cols, rows) => {
                // Record new canvas size.
                self.renderer.resize(cols, rows);
            },
            TermEvent::FocusGained => {
                // Taking in any event wakes the backend up.
            },
            TermEvent::FocusLost => {
                // Go to sleep.
                self.focus_lost = true;
            },
            TermEvent::Paste => {},
        }
        woke
    }

    /// Move on to the next frame: drop the key press of this frame and let
    /// a release or a scroll of the mouse end.
    pub fn end_frame(&mut self)
        ensures
            final(self)@ == old(self)@.next_frame(),
    {
        let _ = self.keypress.pop_front();
        self.mouse_state.frame_update();
        assert(self@.keys =~= old(self)@.next_frame().keys);
    }

    fn transform_mouse_pos(&self, col: u16, row: u16) -> (p: [i32; 2])
        ensures
            p == self@.transform.apply(col, row),
    {
        let offset = self.mouse_transform.offset;
        let scale = self.mouse_transform.scale;
        let dx: i32 = col as i32 - offset[0] as i32;
        let dy: i32 = row as i32 - offset[1] as i32;
        let sx: i32 = scale[0] as i32;
        let sy: i32 = scale[1] as i32;
        assert(-0x1000000 <= dx * sx <= 0x1000000 && -0x1000000 <= dy * sy <= 0x1000000)
            by (nonlinear_arith)
            requires
                -0xffff <= dx <= 0xffff,
                -0xffff <= dy <= 0xffff,
                0 <= sx <= 255,
                0 <= sy <= 255,
        ;
        [dx * sx, dy * sy]
    }
}

/// Drawing the same buffer twice in a row: the second time nothing but
/// the frame around no operations is added to the output, and nothing is
/// flushed.
pub proof fn law_redraw_adds_nothing(
    state: TtyState,
    w: u32,
    h: u32,
    cells: Seq<CharCell>,
    rows_per_cell: u8,
)
    ensures
        state.after_draw(w, h, cells, rows_per_cell).after_draw(w, h, cells, rows_per_cell)
            == (TtyState {
            output: state.after_draw(w, h, cells, rows_per_cell).output + seq![
                TermOp::BeginSync,
                TermOp::EndSync,
            ],
            ..state.after_draw(w, h, cells, rows_per_cell)
        }),
{
    law_second_draw_is_silent(state.screen, w, h, cells);
}

} // verus!
