use navni::char_cell::CharCell;
use navni::color::X256Color;

const FG: X256Color = X256Color(X256Color::FOREGROUND);
const BG: X256Color = X256Color(X256Color::BACKGROUND);
const RED: X256Color = X256Color(X256Color::RED);

#[test]
fn default_cell_is_blank() {
    let cell = CharCell::default();
    assert_eq!(cell.c, 0);
    assert_eq!(cell.foreground, FG);
    assert_eq!(cell.background, BG);
}

#[test]
fn new_stores_the_code_unit() {
    let cell = CharCell::new('A', RED, BG);
    assert_eq!(cell, CharCell { c: 0x41, foreground: RED, background: BG });
    let block = CharCell::new('\u{2588}', FG, RED);
    assert_eq!(block.c, 0x2588);
    assert_eq!(CharCell::new('\u{ffff}', FG, BG).c, 0xffff);
}

#[test]
fn wide_characters_are_replaced() {
    assert_eq!(CharCell::new('\u{10000}', FG, BG).c, 0xfffd);
    assert_eq!(CharCell::c('\u{1f600}').c, 0xfffd);
    let mut cell = CharCell::c('a');
    cell.set_c('\u{10ffff}');
    assert_eq!(cell.c, 0xfffd);
}

#[test]
fn set_c_keeps_the_colors() {
    let mut cell = CharCell::new('a', RED, FG);
    cell.set_c('b');
    assert_eq!(cell, CharCell { c: 0x62, foreground: RED, background: FG });
}

#[test]
fn c_uses_default_colors() {
    assert_eq!(CharCell::c('x'), CharCell { c: 0x78, foreground: FG, background: BG });
    assert_eq!(CharCell::from('x'), CharCell::c('x'));
}

#[test]
fn col_sets_the_foreground() {
    assert_eq!(CharCell::c('x').col(RED), CharCell { c: 0x78, foreground: RED, background: BG });
}

#[test]
fn inv_swaps_the_colors() {
    let cell = CharCell::new('x', RED, BG);
    assert_eq!(cell.inv(), CharCell { c: 0x78, foreground: BG, background: RED });
    assert_eq!(cell.inv().inv(), cell);
    let mut other = cell;
    other.invert();
    assert_eq!(other, cell.inv());
}

#[test]
fn to_char_gives_the_glyph() {
    assert_eq!(CharCell::c('x').to_char(), Some('x'));
    assert_eq!(CharCell::c('\u{2580}').to_char(), Some('\u{2580}'));
    // The null glyph is drawn as a space.
    assert_eq!(CharCell::default().to_char(), Some(' '));
    // Half of a surrogate pair is no character.
    let broken = CharCell { c: 0xd800, foreground: FG, background: BG };
    assert_eq!(broken.to_char(), None);
    let broken = CharCell { c: 0xdfff, foreground: FG, background: BG };
    assert_eq!(broken.to_char(), None);
    let edge = CharCell { c: 0xe000, foreground: FG, background: BG };
    assert_eq!(edge.to_char(), Some('\u{e000}'));
}
