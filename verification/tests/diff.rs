use navni::char_cell::CharCell;
use navni::color::X256Color;
use navni::tty::diff::TermOp::{
    Background, BeginSync, Bold, Clear, EndSync, Flush, Foreground, MoveTo, Print, ResetColor,
    Reverse,
};
use navni::tty::diff::{DiffRenderer, TermOp};

const FG: X256Color = X256Color(X256Color::FOREGROUND);
const BG: X256Color = X256Color(X256Color::BACKGROUND);
const RED: X256Color = X256Color(X256Color::RED);
const NAVY: X256Color = X256Color(X256Color::NAVY);
const WHITE: X256Color = X256Color(X256Color::BOLD_FOREGROUND);

fn blanks(n: usize) -> Vec<CharCell> {
    vec![CharCell::c(' '); n]
}

fn count_prints(ops: &[TermOp]) -> usize {
    ops.iter().filter(|op| matches!(op, Print(_))).count()
}

fn count_moves(ops: &[TermOp]) -> usize {
    ops.iter().filter(|op| matches!(op, MoveTo(_, _))).count()
}

#[test]
fn three_cells_then_nothing() {
    // A 3 by 1 buffer of spaces in the default colors, with an X in red
    // in the middle.
    let mut buffer = blanks(3);
    buffer[1] = CharCell::new('X', RED, BG);
    let mut renderer = DiffRenderer::new(80, 24);
    let first = renderer.render(3, 1, &buffer);
    assert_eq!(
        first,
        vec![
            BeginSync,
            Clear,
            MoveTo(38, 11),
            ResetColor,
            Print(' '),
            ResetColor,
            Foreground(9),
            Bold,
            Print('X'),
            ResetColor,
            Print(' '),
            EndSync,
            Flush,
        ]
    );
    // Drawn again unchanged, nothing is drawn and nothing is flushed.
    let second = renderer.render(3, 1, &buffer);
    assert_eq!(second, vec![BeginSync, EndSync]);
    let third = renderer.render(3, 1, &buffer);
    assert_eq!(third, vec![BeginSync, EndSync]);
}

#[test]
fn one_changed_cell() {
    let mut buffer = blanks(3);
    buffer[1] = CharCell::new('X', RED, BG);
    let mut renderer = DiffRenderer::new(80, 24);
    renderer.render(3, 1, &buffer);
    // Other colors than those drawn last: one cursor movement, the
    // colors, one glyph.
    buffer[1] = CharCell::new('Y', RED, BG);
    assert_eq!(
        renderer.render(3, 1, &buffer),
        vec![BeginSync, MoveTo(39, 11), ResetColor, Foreground(9), Bold, Print('Y'), EndSync, Flush]
    );
    // The colors drawn last: no color operation.
    buffer[0] = CharCell::new('Z', RED, BG);
    assert_eq!(
        renderer.render(3, 1, &buffer),
        vec![BeginSync, MoveTo(38, 11), Print('Z'), EndSync, Flush]
    );
}

#[test]
fn runs_of_changed_cells_share_a_cursor_movement() {
    let mut buffer = blanks(10);
    let mut renderer = DiffRenderer::new(5, 2);
    renderer.render(5, 2, &buffer);
    // Two runs in the first row, one at the start of the second.
    for i in [0, 1, 3, 5, 6] {
        buffer[i] = CharCell::c('#');
    }
    assert_eq!(
        renderer.render(5, 2, &buffer),
        vec![
            BeginSync,
            MoveTo(0, 0),
            Print('#'),
            Print('#'),
            MoveTo(3, 0),
            Print('#'),
            MoveTo(0, 1),
            Print('#'),
            Print('#'),
            EndSync,
            Flush,
        ]
    );
}

#[test]
fn size_change_repaints_everything() {
    let buffer = blanks(12);
    let mut renderer = DiffRenderer::new(80, 24);
    renderer.render(4, 3, &buffer);
    // The same cells as a buffer of another shape.
    let ops = renderer.render(3, 4, &buffer);
    assert_eq!(ops[0], BeginSync);
    assert_eq!(ops[1], Clear);
    assert_eq!(count_prints(&ops), 12);
    assert_eq!(count_moves(&ops), 4);
    assert_eq!(ops[ops.len() - 2], EndSync);
    assert_eq!(ops[ops.len() - 1], Flush);
    // And back, once more in full.
    let ops = renderer.render(4, 3, &buffer);
    assert_eq!(ops[1], Clear);
    assert_eq!(count_prints(&ops), 12);
    assert_eq!(count_moves(&ops), 3);
    // What was on the screen before does not matter.
    let mut other = DiffRenderer::new(80, 24);
    other.render(6, 2, &vec![CharCell::c('?'); 12]);
    renderer.render(6, 2, &buffer);
    assert_eq!(other.render(4, 3, &buffer)[2..], renderer.render(4, 3, &buffer)[2..]);
}

#[test]
fn terminal_resize_repaints_everything() {
    let buffer = blanks(6);
    let mut renderer = DiffRenderer::new(80, 24);
    renderer.render(3, 2, &buffer);
    assert_eq!(renderer.render(3, 2, &buffer), vec![BeginSync, EndSync]);
    renderer.resize(100, 30);
    assert_eq!(renderer.size(), (100, 30));
    let ops = renderer.render(3, 2, &buffer);
    assert_eq!(ops[1], Clear);
    assert_eq!(ops[2], MoveTo(48, 14));
    assert_eq!(count_prints(&ops), 6);
}

#[test]
fn buffer_larger_than_the_terminal_is_cut() {
    let mut buffer = blanks(12);
    for (i, cell) in buffer.iter_mut().enumerate() {
        cell.set_c((b'a' + i as u8) as char);
    }
    let mut renderer = DiffRenderer::new(2, 2);
    let ops = renderer.render(4, 3, &buffer);
    assert_eq!(
        ops,
        vec![
            BeginSync,
            Clear,
            MoveTo(0, 0),
            ResetColor,
            Print('a'),
            Print('b'),
            MoveTo(0, 1),
            Print('e'),
            Print('f'),
            EndSync,
            Flush,
        ]
    );
    // A change in a cell that does not show draws nothing.
    buffer[11].set_c('!');
    buffer[2].set_c('!');
    assert_eq!(renderer.render(4, 3, &buffer), vec![BeginSync, EndSync]);
}

#[test]
fn color_policy() {
    let mut renderer = DiffRenderer::new(1, 1);
    // Colors on a background.
    let ops = renderer.render(1, 1, &[CharCell::new('a', NAVY, RED)]);
    assert_eq!(
        ops,
        vec![BeginSync, Clear, MoveTo(0, 0), ResetColor, Background(9), Foreground(4), Print('a'), EndSync, Flush]
    );
    // The terminal background as foreground is reverse video.
    let ops = renderer.render(1, 1, &[CharCell::new('a', BG, NAVY)]);
    assert_eq!(
        ops,
        vec![BeginSync, MoveTo(0, 0), ResetColor, Reverse, Foreground(4), Print('a'), EndSync, Flush]
    );
    // Reverse video of a bright color is not bold.
    let ops = renderer.render(1, 1, &[CharCell::new('a', BG, RED)]);
    assert_eq!(
        ops,
        vec![BeginSync, MoveTo(0, 0), ResetColor, Reverse, Foreground(9), Print('a'), EndSync, Flush]
    );
    // The bold foreground is bold and needs no color.
    let ops = renderer.render(1, 1, &[CharCell::new('a', WHITE, BG)]);
    assert_eq!(ops, vec![BeginSync, MoveTo(0, 0), ResetColor, Bold, Print('a'), EndSync, Flush]);
    // Background on background is not reverse video.
    let ops = renderer.render(1, 1, &[CharCell::new('a', BG, BG)]);
    assert_eq!(ops, vec![BeginSync, MoveTo(0, 0), ResetColor, Foreground(0), Print('a'), EndSync, Flush]);
    // A color of the cube.
    let ops = renderer.render(1, 1, &[CharCell::new('a', X256Color(200), X256Color(17))]);
    assert_eq!(
        ops,
        vec![BeginSync, MoveTo(0, 0), ResetColor, Background(17), Foreground(200), Print('a'), EndSync, Flush]
    );
    // The default colors need nothing but the reset.
    let ops = renderer.render(1, 1, &[CharCell::new('a', FG, BG)]);
    assert_eq!(ops, vec![BeginSync, MoveTo(0, 0), ResetColor, Print('a'), EndSync, Flush]);
}

#[test]
fn null_glyph_is_a_space_and_half_pairs_are_not_drawn() {
    let mut renderer = DiffRenderer::new(3, 1);
    let broken = CharCell { c: 0xd800, foreground: FG, background: BG };
    let ops = renderer.render(3, 1, &[CharCell::default(), broken, CharCell::c('x')]);
    assert_eq!(
        ops,
        vec![BeginSync, Clear, MoveTo(0, 0), ResetColor, Print(' '), Print('x'), EndSync, Flush]
    );
}

#[test]
fn empty_buffer() {
    let mut renderer = DiffRenderer::new(80, 24);
    // The snapshot of a new renderer is the empty buffer.
    assert_eq!(renderer.render(0, 0, &[]), vec![BeginSync, EndSync]);
    assert_eq!(renderer.render(0, 5, &[]), vec![BeginSync, Clear, EndSync]);
    assert_eq!(renderer.render(0, 5, &[]), vec![BeginSync, EndSync]);
}

#[test]
fn centering_rounds_down() {
    let mut renderer = DiffRenderer::new(10, 7);
    let ops = renderer.render(3, 2, &blanks(6));
    assert_eq!(ops[2], MoveTo(3, 2));
    assert_eq!(ops[7], MoveTo(3, 3));
    // A buffer as large as the terminal is not moved.
    let ops = renderer.render(10, 7, &blanks(70));
    assert_eq!(ops[2], MoveTo(0, 0));
}
