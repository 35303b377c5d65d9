use navni::char_cell::CharCell;
use navni::color::{x256_to_rgba, Rgba, X256Color};
use navni::event::{Key, KeyMods, KeyTyped, MouseButton, MouseState};
use navni::exec::{Advance, Executor, FrameTask, Step};
use navni::gui::event::{GuiKey, GuiMouseButton};
use navni::gui::held::HeldKeys;
use navni::gui::runtime::{Canvas, Font, GuiFrame, Runtime};
use navni::{Backend, BackendType};

fn sheet() -> [char; 256] {
    let mut chars = ['\0'; 256];
    for (i, c) in chars.iter_mut().enumerate() {
        *c = char::from_u32(i as u32).unwrap();
    }
    chars
}

fn font() -> Font {
    Font::new(128, 240, &sheet())
}

fn runtime() -> Runtime {
    Runtime::new(font(), (1280, 720))
}

fn plain() -> KeyMods {
    KeyMods::default()
}

fn ctrl() -> KeyMods {
    KeyMods { ctrl: true, ..KeyMods::default() }
}

fn shift() -> KeyMods {
    KeyMods { shift: true, ..KeyMods::default() }
}

fn typed(c: char, mods: KeyMods) -> KeyTyped {
    KeyTyped::new(Key::Char(c), mods, false)
}

#[test]
fn window_keys() {
    let cases = [
        (0x0020, Some(Key::Char(' '))),
        (0x0027, Some(Key::Char('\''))),
        (0x002c, Some(Key::Char(','))),
        (0x002d, Some(Key::Char('-'))),
        (0x002e, Some(Key::Char('.'))),
        (0x002f, Some(Key::Char('/'))),
        (0x0030, Some(Key::Char('0'))),
        (0x0039, Some(Key::Char('9'))),
        (0x003a, None),
        (0x003b, Some(Key::Char(';'))),
        (0x003c, None),
        (0x003d, Some(Key::Char('='))),
        (0x0040, None),
        (0x0041, Some(Key::Char('a'))),
        (0x004d, Some(Key::Char('m'))),
        (0x005a, Some(Key::Char('z'))),
        (0x005b, Some(Key::Char('['))),
        (0x005c, Some(Key::Char('\\'))),
        (0x005d, Some(Key::Char(']'))),
        (0x005e, None),
        (0x0060, Some(Key::Char('`'))),
        (0x0061, None),
        (0x0100, None),
        (0x0101, None),
        (0xff1b, Some(Key::Esc)),
        (0xff0d, Some(Key::Enter)),
        (0xff09, Some(Key::Tab)),
        (0xff08, Some(Key::Backspace)),
        (0xff63, Some(Key::Insert)),
        (0xffff, Some(Key::Delete)),
        (0xff53, Some(Key::Right)),
        (0xff51, Some(Key::Left)),
        (0xff54, Some(Key::Down)),
        (0xff52, Some(Key::Up)),
        (0xff55, Some(Key::PageUp)),
        (0xff56, Some(Key::PageDown)),
        (0xff50, Some(Key::Home)),
        (0xff57, Some(Key::End)),
        (0xffe5, None),
        (0xff14, None),
        (0xff7f, None),
        (0xfd1d, None),
        (0xff13, None),
        (0xffbe, Some(Key::F(1))),
        (0xffc9, Some(Key::F(12))),
        (0xffd6, Some(Key::F(25))),
        (0xffd7, None),
        (0xffb0, Some(Key::Char('0'))),
        (0xffb9, Some(Key::Char('9'))),
        (0xffae, Some(Key::Char('.'))),
        (0xffaf, Some(Key::Char('/'))),
        (0xffaa, Some(Key::Char('*'))),
        (0xffad, Some(Key::Char('-'))),
        (0xffab, Some(Key::Char('+'))),
        (0xff8d, Some(Key::Enter)),
        (0xffbd, Some(Key::Char('='))),
        (0xffe1, Some(Key::Shift)),
        (0xffe2, Some(Key::Shift)),
        (0xffe3, Some(Key::Ctrl)),
        (0xffe4, Some(Key::Ctrl)),
        (0xffe9, Some(Key::Alt)),
        (0xffea, Some(Key::Alt)),
        (0xffeb, Some(Key::Icon)),
        (0xffec, Some(Key::Icon)),
        (0xff67, None),
        (0xff04, None),
        (0x01ff, None),
        (0x0000, None),
    ];
    for (code, expected) in cases {
        assert_eq!(Key::try_from(GuiKey(code)).ok(), expected);
    }
    assert_eq!(GuiKey::ESCAPE, 0xff1b);
    assert_eq!(GuiKey::A, 0x41);
}

#[test]
fn modifier_keys_count_as_held_when_struck() {
    let none = plain();
    assert_eq!(KeyMods::from((GuiKey(GuiKey::LEFT_SHIFT), none)), shift());
    assert_eq!(KeyMods::from((GuiKey(GuiKey::RIGHT_CONTROL), none)), ctrl());
    assert_eq!(KeyMods::from((GuiKey(GuiKey::LEFT_ALT), none)), KeyMods { alt: true, ..none });
    assert_eq!(KeyMods::from((GuiKey(GuiKey::RIGHT_SUPER), none)), KeyMods { logo: true, ..none });
    assert_eq!(KeyMods::from((GuiKey(GuiKey::ENTER), ctrl())), ctrl());
    assert_eq!(
        KeyTyped::try_from((GuiKey(GuiKey::LEFT_SHIFT), none, false)),
        Ok(KeyTyped::new(Key::Shift, shift(), false))
    );
    // Shift is dropped for printable keys.
    assert_eq!(KeyTyped::try_from((GuiKey(GuiKey::A), shift(), true)), Ok(KeyTyped::new(Key::Char('a'), none, true)));
    assert_eq!(KeyTyped::try_from((GuiKey(GuiKey::UP), shift(), false)), Ok(KeyTyped::new(Key::Up, shift(), false)));
    assert_eq!(KeyTyped::try_from((GuiKey(0x01ff), none, false)), Err(()));
}

#[test]
fn mouse_buttons() {
    assert_eq!(MouseButton::try_from(GuiMouseButton::Left), Ok(MouseButton::Left));
    assert_eq!(MouseButton::try_from(GuiMouseButton::Middle), Ok(MouseButton::Middle));
    assert_eq!(MouseButton::try_from(GuiMouseButton::Right), Ok(MouseButton::Right));
    assert_eq!(MouseButton::try_from(GuiMouseButton::Unknown), Err(()));
    let mut r = runtime();
    r.mouse_button_down_event(GuiMouseButton::Unknown);
    assert_eq!(r.mouse_state(), MouseState::Hover([0, 0]));
    r.mouse_button_down_event(GuiMouseButton::Middle);
    assert_eq!(r.mouse_state(), MouseState::Drag([0, 0], [0, 0], MouseButton::Middle));
    r.mouse_button_up_event(GuiMouseButton::Unknown);
    r.mouse_button_up_event(GuiMouseButton::Left);
    assert_eq!(r.mouse_state(), MouseState::Drag([0, 0], [0, 0], MouseButton::Middle));
    r.mouse_button_up_event(GuiMouseButton::Middle);
    assert_eq!(r.mouse_state(), MouseState::Release([0, 0], [0, 0], MouseButton::Middle));
}

#[test]
fn held_keys() {
    let mut held = HeldKeys::new();
    assert!(!held.contains(Key::Up));
    held.insert(Key::Up);
    held.insert(Key::Char('a'));
    held.insert(Key::Up);
    assert!(held.contains(Key::Up));
    assert!(held.contains(Key::Char('a')));
    assert!(!held.contains(Key::Char('A')));
    assert!(!held.contains(Key::Down));
    held.remove(Key::Up);
    assert!(!held.contains(Key::Up));
    assert!(held.contains(Key::Char('a')));
    held.remove(Key::F(3));
    assert!(held.contains(Key::Char('a')));
}

#[test]
fn keys_are_down_until_they_go_up() {
    let mut r = runtime();
    assert!(!r.is_down(Key::Char('a')));
    r.key_down_event(GuiKey(GuiKey::A), shift(), false);
    r.key_down_event(GuiKey(GuiKey::LEFT), plain(), false);
    r.key_down_event(GuiKey(0x01ff), plain(), false);
    assert!(r.is_down(Key::Char('a')));
    assert!(!r.is_down(Key::Char('A')));
    assert!(r.is_down(Key::Left));
    // Only the key that is not printable is a key press.
    assert_eq!(r.keypress(), KeyTyped::new(Key::Left, plain(), false));
    r.end_frame();
    assert_eq!(r.keypress(), KeyTyped::default());
    assert!(r.is_down(Key::Left));
    r.key_up_event(GuiKey(GuiKey::A), plain());
    r.key_up_event(GuiKey(0x01ff), plain());
    assert!(!r.is_down(Key::Char('a')));
    assert!(r.is_down(Key::Left));
    r.key_up_event(GuiKey(GuiKey::LEFT), plain());
    assert!(!r.is_down(Key::Left));
}

#[test]
fn characters_are_key_presses() {
    let cases = [
        ('a', plain(), Some(typed('a', plain()))),
        ('A', shift(), Some(typed('A', plain()))),
        (' ', plain(), Some(typed(' ', plain()))),
        ('\u{e9}', plain(), Some(typed('\u{e9}', plain()))),
        ('\u{8000}', plain(), Some(typed('\u{8000}', plain()))),
        ('\u{8001}', plain(), None),
        ('\u{f700}', plain(), None),
        ('\r', plain(), None),
        ('\u{1f}', shift(), None),
        // Control codes stand for the keys that made them.
        ('\u{3}', ctrl(), Some(typed('c', ctrl()))),
        ('\u{3}', KeyMods { shift: true, ..ctrl() }, Some(typed('C', ctrl()))),
        ('\u{1a}', ctrl(), Some(typed('z', ctrl()))),
        ('\u{1b}', ctrl(), Some(typed('[', ctrl()))),
        ('\u{1f}', ctrl(), Some(typed('_', ctrl()))),
        ('\u{0}', ctrl(), Some(typed('`', ctrl()))),
        ('\u{0}', KeyMods { shift: true, ..ctrl() }, Some(typed('@', ctrl()))),
        ('x', ctrl(), Some(typed('x', ctrl()))),
    ];
    for (character, mods, expected) in cases {
        let mut r = runtime();
        r.char_event(character, mods, false);
        assert_eq!(r.keypress(), expected.unwrap_or_default());
    }
    let mut r = runtime();
    r.char_event('k', plain(), true);
    assert!(r.keypress().is_repeat());
}

#[test]
fn wheel_scrolls_against_its_movement() {
    let mut r = runtime();
    r.mouse_wheel_event(0, 0);
    assert_eq!(r.mouse_state(), MouseState::Hover([0, 0]));
    r.mouse_wheel_event(0, 3);
    assert_eq!(r.mouse_state(), MouseState::Scroll([0, 0], [0, -1]));
    r.mouse_wheel_event(-120, 0);
    assert_eq!(r.mouse_state(), MouseState::Scroll([0, 0], [1, 0]));
    r.mouse_wheel_event(1, -1);
    assert_eq!(r.mouse_state(), MouseState::Scroll([0, 0], [-1, 1]));
    r.end_frame();
    assert_eq!(r.mouse_state(), MouseState::Hover([0, 0]));
}

#[test]
fn mouse_positions_are_told_in_buffer_positions() {
    let mut r = runtime();
    r.mouse_motion_event(17, 31);
    assert_eq!(r.mouse_state(), MouseState::Hover([17, 31]));
    // Pixels three window pixels wide, starting at (10, 20).
    r.set_canvas((10, 20), 3, false);
    r.mouse_motion_event(17, 31);
    assert_eq!(r.mouse_state(), MouseState::Hover([2, 3]));
    // Positions before the canvas round towards zero.
    r.mouse_motion_event(9, 16);
    assert_eq!(r.mouse_state(), MouseState::Hover([0, -1]));
    r.mouse_motion_event(4, 0);
    assert_eq!(r.mouse_state(), MouseState::Hover([-2, -6]));
    // Cells of a font of 8 by 15 pixels, twice as large.
    r.set_canvas((0, 0), 2, true);
    r.mouse_motion_event(100, 100);
    assert_eq!(r.mouse_state(), MouseState::Hover([6, 3]));
    assert!(r.can_move_to(i32::MAX, i32::MIN + 1));
    assert!(!r.can_move_to(0, i32::MIN));
    r.set_canvas((1, -1), 1, false);
    assert!(!r.can_move_to(i32::MIN, 0));
    assert!(!r.can_move_to(0, i32::MAX));
    assert!(r.can_move_to(i32::MIN + 2, i32::MAX - 1));
}

#[test]
fn canvas() {
    let canvas = Canvas::new((-5, 5), (2, 4));
    assert_eq!(canvas.transform(0, 0), [2, -1]);
    assert_eq!(canvas.transform(-5, 5), [0, 0]);
    assert_eq!(canvas.transform(-8, 21), [-1, 4]);
    assert!(canvas.can_map(0, 0));
    assert!(!canvas.can_map(i32::MAX, 0));
    assert!(!canvas.can_map(0, i32::MIN));
}

#[test]
fn font_lookup() {
    let mut chars = ['\u{ffff}'; 256];
    chars[0] = '\0';
    chars[1] = 'a';
    chars[2] = '\u{2588}';
    chars[3] = 'a';
    chars[254] = 'z';
    let font = Font::new(160, 256, &chars);
    assert_eq!(font.size(), (10, 16));
    assert_eq!(font.glyph(0), 0);
    // The last place of a character counts.
    assert_eq!(font.glyph('a' as u16), 3);
    assert_eq!(font.glyph(0x2588), 2);
    assert_eq!(font.glyph('z' as u16), 254);
    assert_eq!(font.glyph(0xffff), 255);
    // Characters without a glyph.
    assert_eq!(font.glyph('b' as u16), 0xff);
    assert_eq!(font.glyph(0x1234), 0xff);
}

#[test]
fn char_resolution_zooms_to_the_limits() {
    // Glyphs of 8 by 15 pixels in a window of 1280 by 720.
    let r = runtime();
    assert_eq!(r.pixel_resolution(), (1280, 720));
    assert_eq!(r.char_resolution(0, 0), (160, 48));
    assert_eq!(r.char_resolution(160, 48), (160, 48));
    assert_eq!(r.char_resolution(80, 0), (80, 24));
    assert_eq!(r.char_resolution(159, 0), (80, 24));
    assert_eq!(r.char_resolution(0, 47), (80, 24));
    assert_eq!(r.char_resolution(80, 10), (32, 9));
    assert_eq!(r.char_resolution(1, 0), (1, 0));
    let mut r = r;
    r.resize_event(0, 0);
    assert_eq!(r.char_resolution(0, 0), (0, 0));
    assert_eq!(r.char_resolution(5, 5), (0, 0));
    r.resize_event(17, 31);
    assert_eq!(r.char_resolution(1, 1), (1, 1));
}

#[test]
fn frames_wait_to_be_shown() {
    let mut r = runtime();
    let red = Rgba::new(0xff, 0, 0, 0xff);
    let mut palette = [Rgba::default(); 16];
    palette[9] = red;
    r.set_palette(&palette);
    let cells = [
        CharCell::new('a', X256Color(9), X256Color(0)),
        CharCell::new('\u{2588}', X256Color(200), X256Color(15)),
    ];
    r.draw_chars(2, 1, &cells);
    r.draw_pixels(1, 2, &[red, Rgba::default()]);
    // Buffers without cells are not shown.
    r.draw_chars(0, 7, &[]);
    r.draw_pixels(3, 0, &[]);
    let frames = r.take_frames();
    assert_eq!(frames.len(), 2);
    match &frames[0] {
        GuiFrame::Chars { w, h, glyphs, fore, back } => {
            assert_eq!((*w, *h), (2, 1));
            assert_eq!(glyphs, &vec![0x61, 0xff]);
            assert_eq!(fore, &vec![red, x256_to_rgba(200)]);
            assert_eq!(back, &vec![Rgba::default(), Rgba::default()]);
        }
        GuiFrame::Pixels { .. } => panic!("the first frame was one of cells"),
    }
    match &frames[1] {
        GuiFrame::Pixels { w, h, pixels } => {
            assert_eq!((*w, *h), (1, 2));
            assert_eq!(pixels, &vec![red, Rgba::default()]);
        }
        GuiFrame::Chars { .. } => panic!("the second frame was one of pixels"),
    }
    assert_eq!(r.take_frames().len(), 0);
}

#[test]
fn system_colors_start_as_the_palette() {
    let mut r = runtime();
    r.draw_chars(1, 1, &[CharCell::new('a', X256Color(9), X256Color(4))]);
    match &r.take_frames()[0] {
        GuiFrame::Chars { fore, back, .. } => {
            assert_eq!(fore[0], x256_to_rgba(9));
            assert_eq!(back[0], x256_to_rgba(4));
        }
        GuiFrame::Pixels { .. } => panic!("the frame was one of cells"),
    }
}

/// Runs for two frames.
struct TwoFrames {
    seen: Vec<u32>,
}

impl FrameTask<Runtime> for TwoFrames {
    fn resume(&mut self, runtime: &mut Runtime) -> Step {
        self.seen.push(runtime.char_resolution(0, 0).0);
        if self.seen.len() == 3 {
            Step::Finished
        } else {
            Step::Yielded
        }
    }
}

#[test]
fn window_frames_of_a_task() {
    let mut r = runtime();
    let mut executor = Executor::new(TwoFrames { seen: Vec::new() });
    r.key_down_event(GuiKey(GuiKey::UP), plain(), false);
    r.key_down_event(GuiKey(GuiKey::DOWN), plain(), false);
    // No logical frame is due: nothing happens.
    assert_eq!(navni::gui::frame(&mut r, &mut executor, 0), None);
    assert_eq!(navni::gui::keypress(&r).key(), Key::Up);
    assert_eq!(navni::gui::frame(&mut r, &mut executor, 2), Some(Advance::Yielded));
    assert_eq!(navni::gui::keypress(&r).key(), Key::Down);
    assert_eq!(navni::gui::frame(&mut r, &mut executor, 1), Some(Advance::Yielded));
    assert_eq!(navni::gui::frame(&mut r, &mut executor, 1), Some(Advance::Terminated));
    assert_eq!(navni::gui::frame(&mut r, &mut executor, 1), Some(Advance::Terminated));
    assert!(executor.terminated());
}

#[test]
fn window_facade() {
    let mut r = runtime();
    assert_eq!(navni::gui::backend_type(), BackendType::Gui);
    assert_eq!(navni::gui::pixel_resolution(&r), (1280, 720));
    assert_eq!(navni::gui::char_resolution(&r, 80, 0), (80, 24));
    navni::gui::set_font(&mut r, Font::new(256, 256, &sheet()));
    assert_eq!(navni::gui::char_resolution(&r, 0, 0), (80, 45));
    let white = Rgba::new(0xff, 0xff, 0xff, 0xff);
    navni::gui::set_palette(&mut r, &[white; 16]);
    let _ = navni::gui::draw_chars(&mut r, 1, 1, &[CharCell::c('a')]);
    let _ = navni::gui::draw_pixels(&mut r, 1, 1, &[white]);
    assert_eq!(r.take_frames().len(), 2);
    r.key_down_event(GuiKey(GuiKey::Z), plain(), false);
    assert!(navni::gui::is_down(&r, Key::Char('z')));
    assert_eq!(navni::gui::mouse_state(&r), MouseState::Hover([0, 0]));
    let mut backend = Backend::Gui(r);
    assert_eq!(navni::backend_type(&backend), BackendType::Gui);
    assert!(navni::is_down(&backend, Key::Char('z')));
    assert_eq!(navni::pixel_resolution(&backend), (1280, 720));
    assert_eq!(navni::char_resolution(&backend, 0, 0), (80, 45));
    navni::set_font(&mut backend, font());
    assert_eq!(navni::char_resolution(&backend, 0, 0), (160, 48));
    navni::set_palette(&mut backend, &[white; 16]);
    let _ = navni::draw_pixels(&mut backend, 1, 1, &[white], |_| X256Color(0));
    let _ = navni::draw_chars(&mut backend, 1, 1, &[CharCell::c('a')]);
    match &mut backend {
        Backend::Gui(runtime) => assert_eq!(runtime.take_frames().len(), 2),
        Backend::Tty(_) => panic!("not the backend that was made"),
    }
}
