use navni::char_cell::CharCell;
use navni::color::{Rgba, X256Color};
use navni::event::{Key, KeyMods, KeyTyped, MouseButton, MouseState};
use navni::exec::{Advance, Executor, FrameTask, Step};
use navni::tty::diff::TermOp;
use navni::tty::event::{TermEvent, TermKey, TermKeyEvent, TermKeyKind, TermModifierKey, TermMouseKind};
use navni::tty::runtime::{half_block_cells, Runtime};
use navni::{Backend, BackendType};

fn key(code: TermKey, mods: KeyMods, kind: TermKeyKind) -> TermEvent {
    TermEvent::Key(TermKeyEvent { code, mods, kind })
}

fn press(code: TermKey) -> TermEvent {
    key(code, KeyMods::default(), TermKeyKind::Press)
}

fn shifted() -> KeyMods {
    KeyMods { shift: true, ..KeyMods::default() }
}

#[test]
fn terminal_keys() {
    let m = KeyMods { ctrl: true, ..KeyMods::default() };
    let cases = [
        (TermKey::Backspace, Some(Key::Backspace)),
        (TermKey::Enter, Some(Key::Enter)),
        (TermKey::Left, Some(Key::Left)),
        (TermKey::Right, Some(Key::Right)),
        (TermKey::Up, Some(Key::Up)),
        (TermKey::Down, Some(Key::Down)),
        (TermKey::Home, Some(Key::Home)),
        (TermKey::End, Some(Key::End)),
        (TermKey::PageUp, Some(Key::PageUp)),
        (TermKey::PageDown, Some(Key::PageDown)),
        (TermKey::Tab, Some(Key::Tab)),
        (TermKey::BackTab, Some(Key::Tab)),
        (TermKey::Delete, Some(Key::Delete)),
        (TermKey::Insert, Some(Key::Insert)),
        (TermKey::F(7), Some(Key::F(7))),
        (TermKey::Char('q'), Some(Key::Char('q'))),
        (TermKey::Null, None),
        (TermKey::Esc, Some(Key::Esc)),
        (TermKey::CapsLock, None),
        (TermKey::ScrollLock, None),
        (TermKey::NumLock, None),
        (TermKey::PrintScreen, None),
        (TermKey::Pause, None),
        (TermKey::Menu, None),
        (TermKey::KeypadBegin, None),
        (TermKey::Media, None),
        (TermKey::Modifier(TermModifierKey::LeftShift), Some(Key::Shift)),
        (TermKey::Modifier(TermModifierKey::RightShift), Some(Key::Shift)),
        (TermKey::Modifier(TermModifierKey::LeftControl), Some(Key::Ctrl)),
        (TermKey::Modifier(TermModifierKey::RightControl), Some(Key::Ctrl)),
        (TermKey::Modifier(TermModifierKey::LeftAlt), Some(Key::Alt)),
        (TermKey::Modifier(TermModifierKey::RightAlt), Some(Key::Alt)),
        (TermKey::Modifier(TermModifierKey::LeftSuper), Some(Key::Icon)),
        (TermKey::Modifier(TermModifierKey::RightSuper), Some(Key::Icon)),
        (TermKey::Modifier(TermModifierKey::LeftHyper), None),
        (TermKey::Modifier(TermModifierKey::RightMeta), None),
        (TermKey::Modifier(TermModifierKey::IsoLevel3Shift), None),
    ];
    for (code, expected) in cases {
        assert_eq!(Key::try_from(code).ok(), expected);
        let event = TermKeyEvent { code, mods: m, kind: TermKeyKind::Press };
        assert_eq!(KeyTyped::try_from(event).ok(), expected.map(|k| KeyTyped::new(k, m, false)));
    }
}

#[test]
fn shift_is_dropped_for_printable_keys() {
    let event = TermKeyEvent { code: TermKey::Char('A'), mods: shifted(), kind: TermKeyKind::Repeat };
    assert_eq!(KeyTyped::try_from(event), Ok(KeyTyped::new(Key::Char('A'), KeyMods::default(), true)));
    let event = TermKeyEvent { code: TermKey::Tab, mods: shifted(), kind: TermKeyKind::Release };
    assert_eq!(KeyTyped::try_from(event), Ok(KeyTyped::new(Key::Tab, shifted(), false)));
}

#[test]
fn key_presses_queue_up() {
    let mut runtime = Runtime::new(Some((80, 24)));
    assert_eq!(runtime.keypress(), KeyTyped::default());
    runtime.process_event(press(TermKey::Char('a')));
    runtime.process_event(press(TermKey::CapsLock));
    runtime.process_event(press(TermKey::Enter));
    assert_eq!(runtime.keypress(), KeyTyped::new(Key::Char('a'), KeyMods::default(), false));
    // The key press stays until the frame is over, read or not.
    assert_eq!(runtime.keypress(), KeyTyped::new(Key::Char('a'), KeyMods::default(), false));
    runtime.end_frame();
    assert_eq!(runtime.keypress(), KeyTyped::new(Key::Enter, KeyMods::default(), false));
    runtime.end_frame();
    assert_eq!(runtime.keypress(), KeyTyped::default());
    runtime.end_frame();
    assert_eq!(runtime.keypress(), KeyTyped::default());
    assert!(!runtime.is_down(Key::Char('a')));
}

#[test]
fn mouse_events() {
    let mut runtime = Runtime::new(Some((80, 24)));
    assert_eq!(runtime.mouse_state(), MouseState::Hover([0, 0]));
    runtime.process_event(TermEvent::Mouse(TermMouseKind::Moved, 5, 5));
    runtime.process_event(TermEvent::Mouse(TermMouseKind::Down(MouseButton::Left), 5, 5));
    assert_eq!(runtime.mouse_state(), MouseState::Drag([5, 5], [5, 5], MouseButton::Left));
    runtime.process_event(TermEvent::Mouse(TermMouseKind::Drag(MouseButton::Left), 6, 5));
    assert_eq!(runtime.mouse_state(), MouseState::Drag([6, 5], [5, 5], MouseButton::Left));
    runtime.process_event(TermEvent::Mouse(TermMouseKind::Down(MouseButton::Right), 6, 5));
    assert_eq!(runtime.mouse_state(), MouseState::Drag([6, 5], [5, 5], MouseButton::Left));
    runtime.end_frame();
    assert_eq!(runtime.mouse_state(), MouseState::Drag([6, 5], [5, 5], MouseButton::Left));
    runtime.process_event(TermEvent::Mouse(TermMouseKind::Up(MouseButton::Left), 6, 5));
    assert_eq!(runtime.mouse_state(), MouseState::Release([6, 5], [5, 5], MouseButton::Left));
    runtime.end_frame();
    assert_eq!(runtime.mouse_state(), MouseState::Hover([6, 5]));
    let scrolls = [
        (TermMouseKind::ScrollDown, [0, 1]),
        (TermMouseKind::ScrollUp, [0, -1]),
        (TermMouseKind::ScrollLeft, [-1, 0]),
        (TermMouseKind::ScrollRight, [1, 0]),
    ];
    for (kind, delta) in scrolls {
        runtime.process_event(TermEvent::Mouse(kind, 0, 0));
        assert_eq!(runtime.mouse_state(), MouseState::Scroll([6, 5], delta));
    }
    runtime.end_frame();
    assert_eq!(runtime.mouse_state(), MouseState::Hover([6, 5]));
}

#[test]
fn mouse_positions_are_relative_to_the_buffer() {
    let mut runtime = Runtime::new(Some((80, 24)));
    // A buffer of 20 by 4 cells is centered with margins of 30 and 10.
    runtime.draw_chars(20, 4, &vec![CharCell::default(); 80]);
    runtime.process_event(TermEvent::Mouse(TermMouseKind::Moved, 35, 12));
    assert_eq!(runtime.mouse_state(), MouseState::Hover([5, 2]));
    runtime.process_event(TermEvent::Mouse(TermMouseKind::Moved, 0, 0));
    assert_eq!(runtime.mouse_state(), MouseState::Hover([-30, -10]));
    // Pixels are two to a cell: 20 by 8 pixels take up 20 by 4 cells.
    runtime.draw_pixels(20, 8, &vec![X256Color(0); 160]);
    runtime.process_event(TermEvent::Mouse(TermMouseKind::Moved, 35, 12));
    assert_eq!(runtime.mouse_state(), MouseState::Hover([5, 4]));
}

#[test]
fn resolution_follows_the_terminal() {
    let mut runtime = Runtime::new(None);
    assert_eq!(runtime.char_resolution(), (80, 24));
    assert_eq!(runtime.pixel_resolution(), (80, 48));
    runtime.process_event(TermEvent::Resize(120, 40));
    assert_eq!(runtime.char_resolution(), (120, 40));
    assert_eq!(runtime.pixel_resolution(), (120, 80));
    assert_eq!(Runtime::new(Some((1, 2))).char_resolution(), (1, 2));
}

#[test]
fn focus() {
    let mut runtime = Runtime::new(None);
    assert!(!runtime.focus_lost());
    assert!(!runtime.process_event(TermEvent::FocusLost));
    assert!(runtime.focus_lost());
    // Any event wakes the backend up.
    assert!(runtime.process_event(TermEvent::Paste));
    assert!(!runtime.focus_lost());
    runtime.process_event(TermEvent::FocusLost);
    assert!(runtime.process_event(TermEvent::FocusLost));
    assert!(runtime.focus_lost());
    assert!(runtime.process_event(TermEvent::FocusGained));
    assert!(!runtime.focus_lost());
    assert!(!runtime.process_event(TermEvent::FocusGained));
}

#[test]
fn output_waits_to_be_taken() {
    let mut runtime = Runtime::new(Some((2, 1)));
    let buffer = [CharCell::c('a'), CharCell::c('b')];
    runtime.draw_chars(2, 1, &buffer);
    runtime.draw_chars(2, 1, &buffer);
    assert_eq!(
        runtime.take_output(),
        vec![
            TermOp::BeginSync,
            TermOp::Clear,
            TermOp::MoveTo(0, 0),
            TermOp::ResetColor,
            TermOp::Print('a'),
            TermOp::Print('b'),
            TermOp::EndSync,
            TermOp::Flush,
            TermOp::BeginSync,
            TermOp::EndSync,
        ]
    );
    assert_eq!(runtime.take_output(), vec![]);
    // A resize of the terminal makes the next frame a full one. The
    // colors are still those set last, so they are not set again.
    runtime.process_event(TermEvent::Resize(2, 1));
    runtime.draw_chars(2, 1, &buffer);
    assert_eq!(
        runtime.take_output(),
        vec![
            TermOp::BeginSync,
            TermOp::Clear,
            TermOp::MoveTo(0, 0),
            TermOp::Print('a'),
            TermOp::Print('b'),
            TermOp::EndSync,
            TermOp::Flush,
        ]
    );
}

#[test]
fn pixels_pair_up() {
    let p = |i: u8| X256Color(i);
    // 2 by 5 pixels: the last row is left out.
    let pixels = [p(0), p(1), p(2), p(3), p(4), p(5), p(6), p(7), p(8), p(9)];
    let cells = half_block_cells(2, 5, &pixels);
    assert_eq!(
        cells,
        vec![
            CharCell::new('\u{2580}', p(0), p(2)),
            CharCell::new('\u{2580}', p(1), p(3)),
            CharCell::new('\u{2580}', p(4), p(6)),
            CharCell::new('\u{2580}', p(5), p(7)),
        ]
    );
    assert_eq!(cells[0].c, 0x2580);
    assert_eq!(half_block_cells(3, 1, &[p(1), p(2), p(3)]), vec![]);
    assert_eq!(half_block_cells(0, 4, &[]), vec![]);
    let mut runtime = Runtime::new(Some((2, 2)));
    runtime.draw_pixels(2, 5, &pixels);
    let drawn = runtime.take_output();
    let mut same = Runtime::new(Some((2, 2)));
    same.draw_chars(2, 2, &cells);
    assert_eq!(drawn, same.take_output());
}

/// Draws its frame number for three frames.
struct Counter {
    frame: u8,
}

impl FrameTask<Runtime> for Counter {
    fn resume(&mut self, runtime: &mut Runtime) -> Step {
        if self.frame == 3 {
            return Step::Finished;
        }
        self.frame += 1;
        let _ = navni::tty::draw_chars(runtime, 1, 1, &[CharCell::c((b'0' + self.frame) as char)]);
        Step::Yielded
    }
}

#[test]
fn frames_of_a_task() {
    let mut runtime = Runtime::new(Some((1, 1)));
    let mut executor = Executor::new(Counter { frame: 0 });
    runtime.process_event(press(TermKey::Up));
    runtime.process_event(press(TermKey::Down));
    runtime.process_event(TermEvent::Mouse(TermMouseKind::ScrollUp, 0, 0));
    assert_eq!(navni::tty::frame(&mut runtime, &mut executor), Advance::Yielded);
    // The frame is over: its key press is gone and the scroll has ended.
    assert_eq!(navni::tty::keypress(&runtime).key(), Key::Down);
    assert_eq!(navni::tty::mouse_state(&runtime), MouseState::Hover([0, 0]));
    assert_eq!(runtime.take_output()[4], TermOp::Print('1'));
    assert_eq!(navni::tty::frame(&mut runtime, &mut executor), Advance::Yielded);
    assert_eq!(navni::tty::frame(&mut runtime, &mut executor), Advance::Yielded);
    runtime.process_event(press(TermKey::Left));
    assert_eq!(navni::tty::frame(&mut runtime, &mut executor), Advance::Terminated);
    // The last call crossed no frame boundary.
    assert_eq!(navni::tty::keypress(&runtime).key(), Key::Left);
    assert_eq!(navni::tty::frame(&mut runtime, &mut executor), Advance::Terminated);
}

#[test]
fn terminal_facade() {
    let mut runtime = Runtime::new(Some((10, 5)));
    assert_eq!(navni::tty::backend_type(), BackendType::Tty);
    assert_eq!(navni::tty::pixel_resolution(&runtime), (10, 10));
    assert_eq!(navni::tty::char_resolution(&runtime, 3, 3), (10, 5));
    assert!(!navni::tty::is_down(&runtime, Key::Up));
    let before = runtime.char_resolution();
    navni::tty::set_palette(&mut runtime, &[Rgba::default(); 16]);
    assert_eq!(runtime.char_resolution(), before);
    // Pixels are turned into palette colors by the function given.
    let red = Rgba::new(0xff, 0, 0, 0xff);
    let black = Rgba::new(0, 0, 0, 0xff);
    let pick = |c: Rgba| if c.r > 0x7f { X256Color(9) } else { X256Color(0) };
    let _ = navni::tty::draw_pixels(&mut runtime, 1, 2, &[red, black], pick);
    let mut same = Runtime::new(Some((10, 5)));
    same.draw_pixels(1, 2, &[X256Color(9), X256Color(0)]);
    assert_eq!(runtime.take_output(), same.take_output());
    assert_eq!(navni::tty::quantized(&[red, black, red], &pick), vec![X256Color(9), X256Color(0), X256Color(9)]);
}

#[test]
fn backend_dispatch() {
    let mut backend = Backend::Tty(Runtime::new(Some((4, 2))));
    assert_eq!(navni::backend_type(&backend), BackendType::Tty);
    assert_eq!(navni::char_resolution(&backend, 0, 0), (4, 2));
    assert_eq!(navni::pixel_resolution(&backend), (4, 4));
    assert!(!navni::is_down(&backend, Key::Char('a')));
    assert_eq!(navni::keypress(&backend), KeyTyped::default());
    assert_eq!(navni::mouse_state(&backend), MouseState::Hover([0, 0]));
    let _ = navni::draw_chars(&mut backend, 1, 1, &[CharCell::c('x')]);
    match &mut backend {
        Backend::Tty(runtime) => assert_eq!(runtime.take_output()[4], TermOp::Print('x')),
        Backend::Gui(_) => panic!("not the backend that was made"),
    }
}

/// Draws one cell for two frames.
struct Blinker {
    frames: u8,
}

impl FrameTask<Backend> for Blinker {
    fn resume(&mut self, backend: &mut Backend) -> Step {
        if self.frames == 2 {
            return Step::Finished;
        }
        self.frames += 1;
        let _ = navni::draw_chars(backend, 1, 1, &[CharCell::c('*')]);
        Step::Yielded
    }
}

#[test]
fn frames_on_any_backend() {
    let mut runtime = Runtime::new(Some((1, 1)));
    runtime.process_event(press(TermKey::Up));
    runtime.process_event(press(TermKey::Down));
    let mut backend = Backend::Tty(runtime);
    let mut executor = Executor::new(Blinker { frames: 0 });
    // No frame is due: nothing happens.
    assert_eq!(navni::frame(&mut backend, &mut executor, 0), None);
    assert_eq!(navni::keypress(&backend).key(), Key::Up);
    assert_eq!(navni::frame(&mut backend, &mut executor, 1), Some(Advance::Yielded));
    assert_eq!(navni::keypress(&backend).key(), Key::Down);
    assert_eq!(navni::frame(&mut backend, &mut executor, 3), Some(Advance::Yielded));
    assert_eq!(navni::keypress(&backend), KeyTyped::default());
    assert_eq!(navni::frame(&mut backend, &mut executor, 1), Some(Advance::Terminated));
    assert_eq!(navni::frame(&mut backend, &mut executor, 1), Some(Advance::Terminated));
    match &mut backend {
        Backend::Tty(runtime) => assert_eq!(runtime.take_output().len(), 7 + 2),
        Backend::Gui(_) => panic!("not the backend that was made"),
    }
}
