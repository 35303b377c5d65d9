//! Diff renderer for character terminals.
//!
//! The renderer remembers the buffer it drew last and the colors it set
//! last. Drawing a new buffer yields the terminal operations that update
//! exactly the cells which changed.
use crate::char_cell::CharCell;
use crate::color::X256Color;
use vstd::prelude::*;
use vstd::slice::slice_to_vec;

verus! {

/// One operation on the host terminal.
#[derive(Copy, Clone, PartialEq, Eq, Structural, Hash, Debug)]
pub enum TermOp {
    /// Start of a batch that the terminal shows in one go.
    BeginSync,
    /// End of the batch.
    EndSync,
    /// Clear the whole display.
    Clear,
    /// Move the cursor to column and row.
    MoveTo(u16, u16),
    /// Back to the terminal's default colors and attributes.
    ResetColor,
    /// Reverse video attribute.
    Reverse,
    /// Bold attribute.
    Bold,
    /// Set the background to a palette index.
    Background(u8),
    /// Set the foreground to a palette index.
    Foreground(u8),
    /// Write a glyph at the cursor, which advances by one column.
    Print(char),
    /// Send everything queued so far to the terminal.
    Flush,
}

/// Foreground and background of the cell drawn last.
pub type Pen = Option<(X256Color, X256Color)>;

/// A buffer as it was handed to the renderer.
pub struct Snapshot {
    pub w: u32,
    pub h: u32,
    pub cells: Seq<CharCell>,
}

/// What the renderer knows about the terminal between two frames.
pub struct Screen {
    /// Width of the terminal in columns.
    pub cols: u16,
    /// Height of the terminal in rows.
    pub rows: u16,
    /// The buffer drawn last.
    pub snapshot: Snapshot,
    /// The colors set last.
    pub pen: Pen,
}

/// Output of a drawing pass so far.
pub struct Painted {
    pub ops: Seq<TermOp>,
    pub pen: Pen,
    /// Whether any cell differed from the snapshot.
    pub changed: bool,
}

/// Everything a drawing pass reads.
pub struct Pass {
    /// Cells to compare against, if the sizes agree.
    pub base: Option<Seq<CharCell>>,
    /// Cells to draw, row by row.
    pub buf: Seq<CharCell>,
    /// Width of a buffer row.
    pub w: int,
    /// Number of buffer columns that fit the terminal.
    pub vw: int,
    /// Number of buffer rows that fit the terminal.
    pub vh: int,
    /// Terminal column of buffer column zero.
    pub x_off: int,
    /// Terminal row of buffer row zero.
    pub y_off: int,
}

/// Margin that centers `len` cells in `host` cells; zero if they do not fit.
pub open spec fn centering(host: int, len: int) -> int {
    if len < host {
        (host - len) / 2
    } else {
        0
    }
}

/// How many of `len` cells fit in `host` cells.
pub open spec fn visible(host: int, len: int) -> int {
    if len < host {
        len
    } else {
        host
    }
}

/// The color and attribute operations that make the terminal draw in the
/// colors of `cell`.
///
/// A cell whose foreground is the terminal background, on another
/// background, is drawn in reverse video with the background color as its
/// only color. The default foreground needs no color, and the bright
/// system colors are drawn bold.
pub open spec fn style_ops(cell: CharCell) -> Seq<TermOp> {
    let inverse = cell.foreground.is_background() && !cell.background.is_background();
    let ink = if inverse {
        cell.background
    } else {
        cell.foreground
    };
    seq![TermOp::ResetColor] + (if inverse {
        seq![TermOp::Reverse]
    } else if !cell.background.is_background() {
        seq![TermOp::Background(cell.background.0)]
    } else {
        seq![]
    }) + (if ink.0 != X256Color::FOREGROUND && ink.0 != X256Color::BOLD_FOREGROUND {
        seq![TermOp::Foreground(ink.0)]
    } else {
        seq![]
    }) + (if 8 <= ink.0 < 16 && !inverse {
        seq![TermOp::Bold]
    } else {
        seq![]
    })
}

/// The operation that writes the glyph of `cell`.
pub open spec fn glyph_ops(cell: CharCell) -> Seq<TermOp> {
    match cell.glyph() {
        Some(ch) => seq![TermOp::Print(ch)],
        None => seq![],
    }
}

/// The operations for one changed cell: a cursor movement if the cursor is
/// not already there, the colors if they differ from the pen, the glyph.
pub open spec fn cell_ops(cell: CharCell, col: u16, row: u16, goto: bool, pen: Pen) -> Seq<
    TermOp,
> {
    (if goto {
        seq![TermOp::MoveTo(col, row)]
    } else {
        seq![]
    }) + (if pen != Some((cell.foreground, cell.background)) {
        style_ops(cell)
    } else {
        seq![]
    }) + glyph_ops(cell)
}

impl Pass {
    /// The pass that draws `buf` of `w` by `h` cells on `screen`.
    pub open spec fn of(screen: Screen, w: u32, h: u32, buf: Seq<CharCell>) -> Pass {
        Pass {
            base: if screen.snapshot.w == w && screen.snapshot.h == h {
                Some(screen.snapshot.cells)
            } else {
                None
            },
            buf,
            w: w as int,
            vw: visible(screen.cols as int, w as int),
            vh: visible(screen.rows as int, h as int),
            x_off: centering(screen.cols as int, w as int),
            y_off: centering(screen.rows as int, h as int),
        }
    }

    /// Whether the cell in column `x` of row `y` has to be drawn.
    pub open spec fn dirty(self, x: int, y: int) -> bool {
        match self.base {
            None => true,
            Some(old) => old[y * self.w + x] != self.buf[y * self.w + x],
        }
    }

    /// Whether the cursor has to be moved before the cell at `x`, `y` is
    /// drawn: at the start of a row and after a cell that was skipped.
    pub open spec fn needs_goto(self, x: int, y: int) -> bool {
        x == 0 || !self.dirty(x - 1, y)
    }

    /// The pass after it has looked at the cell in column `x` of row `y`.
    pub open spec fn touch(self, x: int, y: int, acc: Painted) -> Painted {
        if self.dirty(x, y) {
            let cell = self.buf[y * self.w + x];
            Painted {
                ops: acc.ops + cell_ops(
                    cell,
                    (x + self.x_off) as u16,
                    (y + self.y_off) as u16,
                    self.needs_goto(x, y),
                    acc.pen,
                ),
                pen: Some((cell.foreground, cell.background)),
                changed: true,
            }
        } else {
            acc
        }
    }

    /// The pass after the first `x_end` cells of row `y`.
    pub open spec fn paint_row(self, y: int, x_end: int, acc: Painted) -> Painted
        decreases x_end,
    {
        if x_end <= 0 {
            acc
        } else {
            self.touch(x_end - 1, y, self.paint_row(y, x_end - 1, acc))
        }
    }

    /// The pass after the first `y_end` rows.
    pub open spec fn paint_rows(self, y_end: int, acc: Painted) -> Painted
        decreases y_end,
    {
        if y_end <= 0 {
            acc
        } else {
            self.paint_row(y_end - 1, self.vw, self.paint_rows(y_end - 1, acc))
        }
    }
}

/// The operations that open a frame: the display is cleared when the size
/// of the buffer is not that of the snapshot.
pub open spec fn frame_head(screen: Screen, w: u32, h: u32) -> Seq<TermOp> {
    if screen.snapshot.w == w && screen.snapshot.h == h {
        seq![TermOp::BeginSync]
    } else {
        seq![TermOp::BeginSync, TermOp::Clear]
    }
}

/// The operations that close a frame: output is flushed only if a cell
/// was drawn.
pub open spec fn frame_tail(changed: bool) -> Seq<TermOp> {
    if changed {
        seq![TermOp::EndSync, TermOp::Flush]
    } else {
        seq![TermOp::EndSync]
    }
}

/// The whole pass over the visible cells of a frame.
pub open spec fn frame_pass(screen: Screen, w: u32, h: u32, buf: Seq<CharCell>) -> Painted {
    let pass = Pass::of(screen, w, h, buf);
    pass.paint_rows(
        pass.vh,
        Painted { ops: frame_head(screen, w, h), pen: screen.pen, changed: false },
    )
}

/// The operations that draw `buf` of `w` by `h` cells on `screen`.
pub open spec fn frame_ops(screen: Screen, w: u32, h: u32, buf: Seq<CharCell>) -> Seq<TermOp> {
    let done = frame_pass(screen, w, h, buf);
    done.ops + frame_tail(done.changed)
}

/// The screen after `buf` has been drawn on it: the buffer is the new
/// snapshot whether or not anything changed.
pub open spec fn frame_screen(screen: Screen, w: u32, h: u32, buf: Seq<CharCell>) -> Screen {
    Screen {
        cols: screen.cols,
        rows: screen.rows,
        snapshot: Snapshot { w, h, cells: buf },
        pen: frame_pass(screen, w, h, buf).pen,
    }
}

/// Tracks what is on the terminal and computes minimal updates.
pub struct DiffRenderer {
    prev_w: u32,
    prev_h: u32,
    prev_cells: Vec<CharCell>,
    cols: u16,
    rows: u16,
    pen: Pen,
}

impl View for DiffRenderer {
    type V = Screen;

    closed spec fn view(&self) -> Screen {
        Screen {
            cols: self.cols,
            rows: self.rows,
            snapshot: Snapshot { w: self.prev_w, h: self.prev_h, cells: self.prev_cells@ },
            pen: self.pen,
        }
    }
}

fn centering_of(host: u16, len: u32) -> (margin: u16)
    ensures
        margin == centering(host as int, len as int),
{
    if len < host as u32 {
        (host - len as u16) / 2
    } else {
        0
    }
}

fn visible_of(host: u16, len: u32) -> (count: u32)
    ensures
        count == visible(host as int, len as int),
{
    if len < host as u32 {
        len
    } else {
        host as u32
    }
}

fn push_style(ops: &mut Vec<TermOp>, cell: CharCell)
    ensures
        final(ops)@ == old(ops)@ + style_ops(cell),
{
    let inverse = cell.foreground.0 == X256Color::BACKGROUND && cell.background.0
        != X256Color::BACKGROUND;
    let ink = if inverse {
        cell.background
    } else {
        cell.foreground
    };
    ops.push(TermOp::ResetColor);
    if inverse {
        ops.push(TermOp::Reverse);
    } else if cell.background.0 != X256Color::BACKGROUND {
        ops.push(TermOp::Background(cell.background.0));
    }
    if ink.0 != X256Color::FOREGROUND && ink.0 != X256Color::BOLD_FOREGROUND {
        ops.push(TermOp::Foreground(ink.0));
    }
    if ink.0 >= 8 && ink.0 < 16 && !inverse {
        ops.push(TermOp::Bold);
    }
    assert(ops@ =~= old(ops)@ + style_ops(cell));
}

fn push_cell(ops: &mut Vec<TermOp>, cell: CharCell, col: u16, row: u16, goto: bool, pen: Pen)
    ensures
        final(ops)@ == old(ops)@ + cell_ops(cell, col, row, goto, pen),
{
    if goto {
        ops.push(TermOp::MoveTo(col, row));
    }
    let same_colors = match pen {
        Some((fg, bg)) => fg == cell.foreground && bg == cell.background,
        None => false,
    };
    if !same_colors {
        push_style(ops, cell);
    }
    match cell.to_char() {
        Some(ch) => {
            ops.push(TermOp::Print(ch));
        },
        None => {},
    }
    assert(ops@ =~= old(ops)@ + cell_ops(cell, col, row, goto, pen));
}

/// A position inside a `w` by `h` grid has an index below `w * h`.
pub proof fn lemma_index_in_grid(x: int, y: int, w: int, h: int)
    requires
        0 <= x < w,
        0 <= y < h,
    ensures
        0 <= y * w + x < w * h,
{
    assert(y * w + w <= h * w) by (nonlinear_arith)
        requires
            0 <= y < h,
            0 <= w,
    ;
    assert(0 <= y * w) by (nonlinear_arith)
        requires
            0 <= y,
            0 <= w,
    ;
    assert(h * w == w * h) by (nonlinear_arith);
}

impl DiffRenderer {
    #[verifier::type_invariant]
    spec fn well_formed(self) -> bool {
        self.prev_cells@.len() == self.prev_w as int * self.prev_h as int
    }

    /// A renderer for a terminal of `cols` by `rows` cells on which
    /// nothing has been drawn yet.
    pub fn new(cols: u16, rows: u16) -> (renderer: Self)
        ensures
            renderer@ == (Screen {
                cols,
                rows,
                snapshot: Snapshot { w: 0, h: 0, cells: Seq::empty() },
                pen: None,
            }),
    {
        DiffRenderer { prev_w: 0, prev_h: 0, prev_cells: Vec::new(), cols, rows, pen: None }
    }

    /// Terminal size in columns and rows.
    pub fn size(&self) -> (size: (u16, u16))
        ensures
            size == (self@.cols, self@.rows),
    {
        (self.cols, self.rows)
    }

    /// Record a new terminal size. The snapshot is dropped, so the next
    /// frame is drawn in full.
    pub fn resize(&mut self, cols: u16, rows: u16)
        ensures
            final(self)@ == (Screen {
                cols,
                rows,
                snapshot: Snapshot { w: 0, h: 0, cells: Seq::empty() },
                pen: old(self)@.pen,
            }),
    {
        *self = DiffRenderer {
            prev_w: 0,
            prev_h: 0,
            prev_cells: Vec::new(),
            cols,
            rows,
            pen: self.pen,
        };
    }

    /// Draw a buffer of `w` by `h` cells and return the operations that
    /// bring the terminal up to date.
    pub fn render(&mut self, w: u32, h: u32, buffer: &[CharCell]) -> (ops: Vec<TermOp>)
        requires
            buffer@.len() == w as int * h as int,
        ensures
            ops@ == frame_ops(old(self)@, w, h, buffer@),
            final(self)@ == frame_screen(old(self)@, w, h, buffer@),
    {
        proof {
            use_type_invariant(&*self);
        }
        let ghost pass = Pass::of(self@, w, h, buffer@);
        let ghost start = Painted {
            ops: frame_head(self@, w, h),
            pen: self@.pen,
            changed: false,
        };
        let same = self.prev_w == w && self.prev_h == h;
        let mut ops: Vec<TermOp> = Vec::new();
        ops.push(TermOp::BeginSync);
        if !same {
            // Clear the screen after a resize.
            ops.push(TermOp::Clear);
        }
        assert(ops@ =~= start.ops);
        // Center the buffer if it's smaller than the screen.
        let x_off = centering_of(self.cols, w);
        let y_off = centering_of(self.rows, h);
        let vw = visible_of(self.cols, w);
        let vh = visible_of(self.rows, h);
        let width = w as usize;
        let cells = buffer.len();
        let mut pen = self.pen;
        let mut changed = false;
        let mut y: u32 = 0;
        while y < vh
            invariant
                y <= vh,
                vh <= h,
                vw <= w,
                width == w,
                cells == w as int * h as int,
                vw == pass.vw,
                vh == pass.vh,
                x_off == pass.x_off,
                y_off == pass.y_off,
                vw + x_off <= self.cols,
                vh + y_off <= self.rows,
                buffer@.len() == w as int * h as int,
                self.prev_cells@.len() == self.prev_w as int * self.prev_h as int,
                same == (self.prev_w == w && self.prev_h == h),
                pass == Pass::of(self@, w, h, buffer@),
                (Painted { ops: ops@, pen, changed }) == pass.paint_rows(y as int, start),
            decreases vh - y,
        {
            let ghost row_start = pass.paint_rows(y as int, start);
            let mut need_goto = true;
            let mut x: u32 = 0;
            while x < vw
                invariant
                    x <= vw,
                    y < vh,
                    vh <= h,
                    vw <= w,
                    width == w,
                    cells == w as int * h as int,
                    vw == pass.vw,
                    x_off == pass.x_off,
                    y_off == pass.y_off,
                    vw + x_off <= self.cols,
                    vh + y_off <= self.rows,
                    buffer@.len() == w as int * h as int,
                    self.prev_cells@.len() == self.prev_w as int * self.prev_h as int,
                    same == (self.prev_w == w && self.prev_h == h),
                    pass == Pass::of(self@, w, h, buffer@),
                    need_goto == pass.needs_goto(x as int, y as int),
                    (Painted { ops: ops@, pen, changed }) == pass.paint_row(
                        y as int,
                        x as int,
                        row_start,
                    ),
                decreases vw - x,
            {
                proof {
                    lemma_index_in_grid(x as int, y as int, w as int, h as int);
                    assert(0 <= y as int * w as int) by (nonlinear_arith);
                }
                let i: usize = y as usize * width + x as usize;
                let cell = buffer[i];
                // Skip drawing cells that didn't change from previous frame.
                if same && self.prev_cells[i] == cell {
                    need_goto = true;
                } else {
                    push_cell(&mut ops, cell, x as u16 + x_off, y as u16 + y_off, need_goto, pen);
                    pen = Some((cell.foreground, cell.background));
                    changed = true;
                    need_goto = false;
                }
                x += 1;
            }
            y += 1;
        }
        ops.push(TermOp::EndSync);
        if changed {
            ops.push(TermOp::Flush);
        }
        assert(ops@ =~= frame_ops(old(self)@, w, h, buffer@));
        *self = DiffRenderer {
            prev_w: w,
            prev_h: h,
            prev_cells: slice_to_vec(buffer),
            cols: self.cols,
            rows: self.rows,
            pen,
        };
        ops
    }
}

/// Cells that are not dirty leave a pass as it is.
pub proof fn lemma_clean_cells(pass: Pass, y: int, from: int, to: int, acc: Painted)
    requires
        0 <= from <= to,
        forall|x: int| from <= x < to ==> !pass.dirty(x, y),
    ensures
        pass.paint_row(y, to, acc) == pass.paint_row(y, from, acc),
    decreases to - from,
{
    if from < to {
        lemma_clean_cells(pass, y, from, to - 1, acc);
    }
}

/// Rows without a dirty cell leave a pass as it is.
pub proof fn lemma_clean_rows(pass: Pass, from: int, to: int, acc: Painted)
    requires
        0 <= from <= to,
        forall|x: int, y: int| 0 <= x < pass.vw && from <= y < to ==> !pass.dirty(x, y),
    ensures
        pass.paint_rows(to, acc) == pass.paint_rows(from, acc),
    decreases to - from,
{
    if from < to {
        lemma_clean_rows(pass, from, to - 1, acc);
        let before = pass.paint_rows(to - 1, acc);
        if pass.vw > 0 {
            lemma_clean_cells(pass, to - 1, 0, pass.vw, before);
        }
    }
}

/// Two positions of a grid with the same index are the same position.
pub proof fn lemma_index_injective(x1: int, y1: int, x2: int, y2: int, w: int)
    requires
        0 <= x1 < w,
        0 <= x2 < w,
        y1 * w + x1 == y2 * w + x2,
    ensures
        x1 == x2,
        y1 == y2,
{
    if y1 < y2 {
        assert(y2 * w >= y1 * w + w) by (nonlinear_arith)
            requires
                y1 < y2,
                0 < w,
        ;
    } else if y2 < y1 {
        assert(y1 * w >= y2 * w + w) by (nonlinear_arith)
            requires
                y2 < y1,
                0 < w,
        ;
    }
}

/// Drawing the buffer that is already on the screen yields no cell
/// update and no flush, and leaves the screen as it is.
pub proof fn law_unchanged_frame_is_silent(screen: Screen, w: u32, h: u32, buf: Seq<CharCell>)
    requires
        screen.snapshot == (Snapshot { w, h, cells: buf }),
    ensures
        frame_ops(screen, w, h, buf) == seq![TermOp::BeginSync, TermOp::EndSync],
        frame_screen(screen, w, h, buf) == screen,
{
    let pass = Pass::of(screen, w, h, buf);
    let start = Painted { ops: frame_head(screen, w, h), pen: screen.pen, changed: false };
    lemma_clean_rows(pass, 0, pass.vh, start);
    assert(frame_pass(screen, w, h, buf) == start);
    assert(frame_ops(screen, w, h, buf) =~= seq![TermOp::BeginSync, TermOp::EndSync]);
}

/// Drawing the same buffer twice: whatever the first call did, the second
/// yields no cell update and no flush.
pub proof fn law_second_draw_is_silent(screen: Screen, w: u32, h: u32, buf: Seq<CharCell>)
    ensures
        frame_ops(frame_screen(screen, w, h, buf), w, h, buf) == seq![
            TermOp::BeginSync,
            TermOp::EndSync,
        ],
        frame_screen(frame_screen(screen, w, h, buf), w, h, buf) == frame_screen(
            screen,
            w,
            h,
            buf,
        ),
{
    law_unchanged_frame_is_silent(frame_screen(screen, w, h, buf), w, h, buf);
}

/// A frame that differs from the snapshot in exactly one visible cell
/// yields one cursor movement and the glyph of that cell, with color
/// operations between them only if the colors of the cell are not those
/// of the pen.
pub proof fn law_single_cell_update(
    screen: Screen,
    w: u32,
    h: u32,
    buf: Seq<CharCell>,
    x: int,
    y: int,
)
    requires
        screen.snapshot.w == w,
        screen.snapshot.h == h,
        screen.snapshot.cells.len() == w as int * h as int,
        buf.len() == w as int * h as int,
        0 <= x < visible(screen.cols as int, w as int),
        0 <= y < visible(screen.rows as int, h as int),
        buf[y * w + x] != screen.snapshot.cells[y * w + x],
        forall|i: int| 0 <= i < buf.len() && i != y * w + x ==> buf[i] == screen.snapshot.cells[i],
    ensures
        frame_ops(screen, w, h, buf) == seq![
            TermOp::BeginSync,
            TermOp::MoveTo(
                (x + centering(screen.cols as int, w as int)) as u16,
                (y + centering(screen.rows as int, h as int)) as u16,
            ),
        ] + (if screen.pen == Some((buf[y * w + x].foreground, buf[y * w + x].background)) {
            seq![]
        } else {
            style_ops(buf[y * w + x])
        }) + glyph_ops(buf[y * w + x]) + seq![TermOp::EndSync, TermOp::Flush],
        frame_screen(screen, w, h, buf).pen == Some(
            (buf[y * w + x].foreground, buf[y * w + x].background),
        ),
{
    let pass = Pass::of(screen, w, h, buf);
    let start = Painted { ops: frame_head(screen, w, h), pen: screen.pen, changed: false };
    let cell = buf[y * w + x];
    assert forall|x2: int, y2: int|
        0 <= x2 < pass.vw && 0 <= y2 < pass.vh && (x2 != x || y2 != y) implies !pass.dirty(
        x2,
        y2,
    ) by {
        lemma_index_in_grid(x2, y2, w as int, h as int);
        if y2 * w + x2 == y * w + x {
            lemma_index_injective(x2, y2, x, y, w as int);
        }
    }
    // Nothing happens in the rows above.
    lemma_clean_rows(pass, 0, y, start);
    // In the row of the cell, nothing happens before it and after it.
    lemma_clean_cells(pass, y, 0, x, start);
    let drawn = pass.touch(x, y, start);
    assert(pass.paint_row(y, x + 1, start) == drawn);
    lemma_clean_cells(pass, y, x + 1, pass.vw, start);
    assert(pass.paint_rows(y + 1, start) == drawn);
    // Nothing happens in the rows below.
    lemma_clean_rows(pass, y + 1, pass.vh, start);
    assert(frame_pass(screen, w, h, buf) == drawn);
    assert(pass.needs_goto(x, y));
    assert(frame_ops(screen, w, h, buf) =~= seq![
        TermOp::BeginSync,
        TermOp::MoveTo((x + pass.x_off) as u16, (y + pass.y_off) as u16),
    ] + (if screen.pen == Some((cell.foreground, cell.background)) {
        seq![]
    } else {
        style_ops(cell)
    }) + glyph_ops(cell) + seq![TermOp::EndSync, TermOp::Flush]);
}

/// Number of glyphs that a sequence of operations writes.
pub open spec fn glyph_writes(ops: Seq<TermOp>) -> nat
    decreases ops.len(),
{
    if ops.len() == 0 {
        0
    } else {
        glyph_writes(ops.drop_last()) + if ops.last() is Print {
            1nat
        } else {
            0nat
        }
    }
}

/// Number of cursor movements in a sequence of operations.
pub open spec fn cursor_moves(ops: Seq<TermOp>) -> nat
    decreases ops.len(),
{
    if ops.len() == 0 {
        0
    } else {
        cursor_moves(ops.drop_last()) + if ops.last() is MoveTo {
            1nat
        } else {
            0nat
        }
    }
}

/// Glyph writes and cursor movements of two sequences add up.
pub proof fn lemma_counts_add(a: Seq<TermOp>, b: Seq<TermOp>)
    ensures
        glyph_writes(a + b) == glyph_writes(a) + glyph_writes(b),
        cursor_moves(a + b) == cursor_moves(a) + cursor_moves(b),
    decreases b.len(),
{
    if b.len() == 0 {
        assert(a + b =~= a);
    } else {
        assert((a + b).drop_last() =~= a + b.drop_last());
        lemma_counts_add(a, b.drop_last());
    }
}

/// Counts of a single operation.
pub proof fn lemma_counts_single(op: TermOp)
    ensures
        glyph_writes(seq![op]) == (if op is Print {
            1nat
        } else {
            0nat
        }),
        cursor_moves(seq![op]) == (if op is MoveTo {
            1nat
        } else {
            0nat
        }),
        glyph_writes(Seq::<TermOp>::empty()) == 0,
        cursor_moves(Seq::<TermOp>::empty()) == 0,
{
    reveal_with_fuel(glyph_writes, 2);
    reveal_with_fuel(cursor_moves, 2);
    assert(seq![op].drop_last() =~= Seq::<TermOp>::empty());
}

/// The color operations write no glyph and move no cursor.
pub proof fn lemma_style_counts(cell: CharCell)
    ensures
        glyph_writes(style_ops(cell)) == 0,
        cursor_moves(style_ops(cell)) == 0,
{
    let inverse = cell.foreground.is_background() && !cell.background.is_background();
    let ink = if inverse {
        cell.background
    } else {
        cell.foreground
    };
    let a = seq![TermOp::ResetColor];
    let b: Seq<TermOp> = if inverse {
        seq![TermOp::Reverse]
    } else if !cell.background.is_background() {
        seq![TermOp::Background(cell.background.0)]
    } else {
        seq![]
    };
    let c: Seq<TermOp> = if ink.0 != X256Color::FOREGROUND && ink.0
        != X256Color::BOLD_FOREGROUND {
        seq![TermOp::Foreground(ink.0)]
    } else {
        seq![]
    };
    let d: Seq<TermOp> = if 8 <= ink.0 < 16 && !inverse {
        seq![TermOp::Bold]
    } else {
        seq![]
    };
    lemma_counts_single(TermOp::ResetColor);
    lemma_counts_single(TermOp::Reverse);
    lemma_counts_single(TermOp::Background(cell.background.0));
    lemma_counts_single(TermOp::Foreground(ink.0));
    lemma_counts_single(TermOp::Bold);
    lemma_counts_add(a, b);
    lemma_counts_add(a + b, c);
    lemma_counts_add(a + b + c, d);
    assert(style_ops(cell) == a + b + c + d);
}

/// A cell with a glyph is drawn with one glyph write, and with one cursor
/// movement exactly if the cursor has to be moved.
pub proof fn lemma_cell_counts(cell: CharCell, col: u16, row: u16, goto: bool, pen: Pen)
    ensures
        glyph_writes(cell_ops(cell, col, row, goto, pen)) == (if cell.glyph() is Some {
            1nat
        } else {
            0nat
        }),
        cursor_moves(cell_ops(cell, col, row, goto, pen)) == (if goto {
            1nat
        } else {
            0nat
        }),
{
    let a: Seq<TermOp> = if goto {
        seq![TermOp::MoveTo(col, row)]
    } else {
        seq![]
    };
    let b: Seq<TermOp> = if pen != Some((cell.foreground, cell.background)) {
        style_ops(cell)
    } else {
        seq![]
    };
    let c = glyph_ops(cell);
    lemma_counts_single(TermOp::MoveTo(col, row));
    lemma_style_counts(cell);
    if cell.glyph() is Some {
        lemma_counts_single(TermOp::Print(cell.glyph()->0));
    }
    lemma_counts_add(a, b);
    lemma_counts_add(a + b, c);
    assert(cell_ops(cell, col, row, goto, pen) == a + b + c);
}

/// Whether the first `x_end` cells of row `y` all have a glyph.
pub open spec fn row_has_glyphs(pass: Pass, y: int, x_end: int) -> bool {
    forall|x: int| 0 <= x < x_end ==> (#[trigger] pass.buf[y * pass.w + x]).glyph() is Some
}

/// In a pass that has nothing to compare against, a row is drawn with one
/// cursor movement and one glyph write for each of its cells.
pub proof fn lemma_full_row_counts(pass: Pass, y: int, x_end: int, acc: Painted)
    requires
        pass.base is None,
        0 <= x_end,
        row_has_glyphs(pass, y, x_end),
    ensures
        glyph_writes(pass.paint_row(y, x_end, acc).ops) == glyph_writes(acc.ops) + x_end,
        cursor_moves(pass.paint_row(y, x_end, acc).ops) == cursor_moves(acc.ops) + (if x_end
            > 0 {
            1nat
        } else {
            0nat
        }),
        pass.paint_row(y, x_end, acc).changed == (acc.changed || x_end > 0),
    decreases x_end,
{
    if x_end > 0 {
        lemma_full_row_counts(pass, y, x_end - 1, acc);
        let before = pass.paint_row(y, x_end - 1, acc);
        let x = x_end - 1;
        let cell = pass.buf[y * pass.w + x];
        assert(cell.glyph() is Some);
        let ops = cell_ops(
            cell,
            (x + pass.x_off) as u16,
            (y + pass.y_off) as u16,
            pass.needs_goto(x, y),
            before.pen,
        );
        lemma_cell_counts(
            cell,
            (x + pass.x_off) as u16,
            (y + pass.y_off) as u16,
            pass.needs_goto(x, y),
            before.pen,
        );
        lemma_counts_add(before.ops, ops);
    }
}

/// In a pass that has nothing to compare against, every row is drawn in
/// full.
pub proof fn lemma_full_rows_counts(pass: Pass, y_end: int, acc: Painted)
    requires
        pass.base is None,
        0 <= y_end,
        0 <= pass.vw,
        forall|y: int| 0 <= y < y_end ==> row_has_glyphs(pass, y, pass.vw),
    ensures
        glyph_writes(pass.paint_rows(y_end, acc).ops) == glyph_writes(acc.ops) + y_end * pass.vw,
        cursor_moves(pass.paint_rows(y_end, acc).ops) == cursor_moves(acc.ops) + (if pass.vw
            > 0 {
            y_end
        } else {
            0
        }),
        pass.paint_rows(y_end, acc).changed == (acc.changed || (y_end > 0 && pass.vw > 0)),
    decreases y_end,
{
    if y_end > 0 {
        lemma_full_rows_counts(pass, y_end - 1, acc);
        lemma_full_row_counts(pass, y_end - 1, pass.vw, pass.paint_rows(y_end - 1, acc));
        assert(y_end * pass.vw == (y_end - 1) * pass.vw + pass.vw) by (nonlinear_arith);
    } else {
        assert(y_end * pass.vw == 0) by (nonlinear_arith)
            requires
                y_end == 0,
        ;
    }
}

/// A frame whose size differs from that of the snapshot is drawn in full,
/// whatever the cells of the snapshot were: the display is cleared, every
/// visible cell counts as changed, and each visible row is drawn with one
/// cursor movement and one glyph write per cell.
pub proof fn law_size_change_repaints_all(screen: Screen, w: u32, h: u32, buf: Seq<CharCell>)
    requires
        screen.snapshot.w != w || screen.snapshot.h != h,
        buf.len() == w as int * h as int,
    ensures
        frame_ops(screen, w, h, buf).subrange(0, 2) == seq![TermOp::BeginSync, TermOp::Clear],
        forall|x: int, y: int| Pass::of(screen, w, h, buf).dirty(x, y),
        forall|other: Screen|
            other.cols == screen.cols && other.rows == screen.rows && other.pen == screen.pen && (
            other.snapshot.w != w || other.snapshot.h != h) ==> frame_ops(other, w, h, buf)
                == frame_ops(screen, w, h, buf),
        (forall|i: int| 0 <= i < buf.len() ==> (#[trigger] buf[i]).glyph() is Some) ==> {
            let vw = visible(screen.cols as int, w as int);
            let vh = visible(screen.rows as int, h as int);
            &&& glyph_writes(frame_ops(screen, w, h, buf)) == vh * vw
            &&& cursor_moves(frame_ops(screen, w, h, buf)) == (if vw > 0 {
                vh
            } else {
                0
            })
        },
{
    let pass = Pass::of(screen, w, h, buf);
    let start = Painted { ops: frame_head(screen, w, h), pen: screen.pen, changed: false };
    let done = frame_pass(screen, w, h, buf);
    assert(start.ops.len() == 2);
    lemma_ops_grow(pass, pass.vh, start);
    assert(frame_ops(screen, w, h, buf).subrange(0, 2) =~= seq![
        TermOp::BeginSync,
        TermOp::Clear,
    ]);
    assert forall|other: Screen|
        other.cols == screen.cols && other.rows == screen.rows && other.pen == screen.pen && (
        other.snapshot.w != w || other.snapshot.h != h) implies frame_ops(other, w, h, buf)
        == frame_ops(screen, w, h, buf) by {
        assert(Pass::of(other, w, h, buf) == pass);
    }
    if forall|i: int| 0 <= i < buf.len() ==> (#[trigger] buf[i]).glyph() is Some {
        assert forall|y: int| 0 <= y < pass.vh implies row_has_glyphs(pass, y, pass.vw) by {
            assert forall|x: int| 0 <= x < pass.vw implies (#[trigger] pass.buf[y * pass.w
                + x]).glyph() is Some by {
                lemma_index_in_grid(x, y, w as int, h as int);
            }
        }
        lemma_full_rows_counts(pass, pass.vh, start);
        lemma_counts_single(TermOp::BeginSync);
        lemma_counts_single(TermOp::Clear);
        lemma_counts_single(TermOp::EndSync);
        lemma_counts_single(TermOp::Flush);
        lemma_counts_add(seq![TermOp::BeginSync], seq![TermOp::Clear]);
        assert(start.ops =~= seq![TermOp::BeginSync] + seq![TermOp::Clear]);
        lemma_counts_add(seq![TermOp::EndSync], seq![TermOp::Flush]);
        assert(seq![TermOp::EndSync, TermOp::Flush] =~= seq![TermOp::EndSync] + seq![
            TermOp::Flush,
        ]);
        lemma_counts_add(done.ops, frame_tail(done.changed));
    }
}

/// A pass only ever appends to the operations it started with.
pub proof fn lemma_ops_grow(pass: Pass, y_end: int, acc: Painted)
    ensures
        acc.ops.is_prefix_of(pass.paint_rows(y_end, acc).ops),
    decreases y_end,
{
    if y_end > 0 {
        lemma_ops_grow(pass, y_end - 1, acc);
        lemma_row_ops_grow(pass, y_end - 1, pass.vw, pass.paint_rows(y_end - 1, acc));
    }
}

/// A row only ever appends to the operations it started with.
pub proof fn lemma_row_ops_grow(pass: Pass, y: int, x_end: int, acc: Painted)
    ensures
        acc.ops.is_prefix_of(pass.paint_row(y, x_end, acc).ops),
    decreases x_end,
{
    if x_end > 0 {
        lemma_row_ops_grow(pass, y, x_end - 1, acc);
    }
}

} // verus!
