use navni::event::MouseState::{Drag, Hover, Release, Scroll};
use navni::event::{InvalidEncoding, Key, KeyMods, KeyTyped, MouseButton, MouseState};

fn mods(shift: bool, ctrl: bool, alt: bool, logo: bool) -> KeyMods {
    KeyMods { shift, ctrl, alt, logo }
}

fn plain() -> KeyMods {
    KeyMods::default()
}

fn named_keys() -> Vec<Key> {
    vec![
        Key::NoKey,
        Key::Up,
        Key::Down,
        Key::Left,
        Key::Right,
        Key::Tab,
        Key::Enter,
        Key::Esc,
        Key::Backspace,
        Key::Delete,
        Key::Insert,
        Key::Home,
        Key::End,
        Key::PageUp,
        Key::PageDown,
        Key::Shift,
        Key::Ctrl,
        Key::Alt,
        Key::Icon,
    ]
}

fn check_translate(a: MouseState, c: MouseState) {
    let mut b = a;
    b += [10, 20];
    assert_eq!(b, c);
}

#[test]
fn mouse_translate() {
    check_translate(Hover([10, 10]), Hover([20, 30]));
    check_translate(
        Drag([10, 10], [20, 20], MouseButton::Left),
        Drag([20, 30], [30, 40], MouseButton::Left),
    );
    check_translate(
        Release([10, 10], [20, 20], MouseButton::Left),
        Release([20, 30], [30, 40], MouseButton::Left),
    );

    // NB. The second element in `Scroll` is the scroll delta, not a
    // screen position. It should not be translated.
    check_translate(Scroll([10, 10], [1, 1]), Scroll([20, 30], [1, 1]));
}

#[test]
fn mouse_translate_back() {
    let mut state = MouseState::Drag([20, 30], [30, 40], MouseButton::Right);
    state -= [10, 20];
    assert_eq!(state, MouseState::Drag([10, 10], [20, 20], MouseButton::Right));
    let mut state = MouseState::Scroll([0, 0], [0, -1]);
    state -= [-5, 5];
    assert_eq!(state, MouseState::Scroll([5, -5], [0, -1]));
}

#[test]
fn key_typed_parse() {
    // Every named key and every function key that has a name, with every
    // combination of modifiers.
    let mut keys = named_keys();
    for n in 1..=12u8 {
        keys.push(Key::F(n));
    }
    for key in keys {
        for bits in 0..16u8 {
            let m = mods(bits & 1 != 0, bits & 2 != 0, bits & 4 != 0, bits & 8 != 0);
            let typed = KeyTyped::new(key, m, false);
            let s = typed.to_text();
            assert_eq!(KeyTyped::from_text(&s), Ok(typed));
            assert_eq!(s.parse::<KeyTyped>(), Ok(typed));
        }
    }
    // Every printable ASCII character, with every combination of
    // modifiers but shift.
    for code in 32..127u8 {
        for bits in 0..8u8 {
            let m = mods(false, bits & 1 != 0, bits & 2 != 0, bits & 4 != 0);
            let typed = KeyTyped::new(Key::Char(code as char), m, false);
            let s = typed.to_text();
            assert_eq!(KeyTyped::from_text(&s), Ok(typed));
        }
    }
}

#[test]
fn key_text_examples() {
    assert_eq!(KeyTyped::new(Key::Up, plain(), false).to_text(), "Up");
    assert_eq!(KeyTyped::new(Key::Esc, plain(), false).to_text(), "Esc");
    assert_eq!(KeyTyped::new(Key::Backspace, plain(), false).to_text(), "Bksp");
    assert_eq!(KeyTyped::new(Key::Enter, plain(), false).to_text(), "Ret");
    assert_eq!(KeyTyped::new(Key::NoKey, plain(), false).to_text(), "none");
    assert_eq!(KeyTyped::new(Key::F(1), plain(), false).to_text(), "F1");
    assert_eq!(KeyTyped::new(Key::F(12), plain(), false).to_text(), "F12");
    assert_eq!(KeyTyped::new(Key::F(0), plain(), false).to_text(), "F0");
    assert_eq!(KeyTyped::new(Key::F(107), plain(), false).to_text(), "F107");
    assert_eq!(KeyTyped::new(Key::F(255), plain(), false).to_text(), "F255");
    assert_eq!(KeyTyped::new(Key::Char('x'), plain(), false).to_text(), "x");
    assert_eq!(KeyTyped::new(Key::Char('X'), plain(), false).to_text(), "X");
    assert_eq!(KeyTyped::new(Key::Char(' '), plain(), false).to_text(), "Sp");
    assert_eq!(KeyTyped::new(Key::Char('-'), mods(false, true, false, false), false).to_text(), "C--");
    assert_eq!(
        KeyTyped::new(Key::PageDown, mods(true, true, true, true), false).to_text(),
        "D-A-C-S-PgDn"
    );
    assert_eq!(KeyTyped::new(Key::Char('q'), mods(false, true, true, true), true).to_text(), "D-A-C-q");
    assert_eq!(Key::Delete.to_text(), "Del");
    assert_eq!(Key::Char('\u{e9}').to_text(), "\u{e9}");
}

#[test]
fn key_text_prefixes_in_any_order() {
    let all = KeyTyped::new(Key::Home, mods(true, true, true, true), false);
    assert_eq!(KeyTyped::from_text("S-C-A-D-Home"), Ok(all));
    assert_eq!(KeyTyped::from_text("D-D-S-C-C-A-Home"), Ok(all));
    // The old name of the alt key.
    let alt = KeyTyped::new(Key::Char('x'), mods(false, false, true, false), false);
    assert_eq!(KeyTyped::from_text("M-x"), Ok(alt));
    assert_eq!(KeyTyped::from_text("A-x"), Ok(alt));
}

#[test]
fn key_text_errors() {
    assert_eq!(KeyTyped::from_text(""), Err(InvalidEncoding::BadKey));
    assert_eq!(KeyTyped::from_text("up"), Err(InvalidEncoding::BadKey));
    assert_eq!(KeyTyped::from_text("UP"), Err(InvalidEncoding::BadKey));
    assert_eq!(KeyTyped::from_text("F0"), Err(InvalidEncoding::BadKey));
    assert_eq!(KeyTyped::from_text("F13"), Err(InvalidEncoding::BadKey));
    assert_eq!(KeyTyped::from_text("C-"), Err(InvalidEncoding::BadKey));
    assert_eq!(KeyTyped::from_text("c-x"), Err(InvalidEncoding::BadKey));
    assert_eq!(KeyTyped::from_text(" "), Err(InvalidEncoding::BadKey));
    assert_eq!(KeyTyped::from_text("\u{7f}"), Err(InvalidEncoding::BadKey));
    assert_eq!(KeyTyped::from_text("\u{e9}"), Err(InvalidEncoding::BadKey));
    assert_eq!(KeyTyped::from_text("xy"), Err(InvalidEncoding::BadKey));
    assert_eq!(KeyTyped::from_text("Up "), Err(InvalidEncoding::BadKey));
    assert_eq!(KeyTyped::from_text("S-x"), Err(InvalidEncoding::ShiftOnPrintable));
    assert_eq!(KeyTyped::from_text("S-Sp"), Err(InvalidEncoding::ShiftOnPrintable));
    assert_eq!(KeyTyped::from_text("C-S-A-X"), Err(InvalidEncoding::ShiftOnPrintable));
    assert_eq!(Key::from_text("C-x"), Err(InvalidEncoding::BadKey));
    assert_eq!("nope".parse::<Key>(), Err(InvalidEncoding::BadKey));
}

#[test]
fn key_names_read_back() {
    for key in named_keys() {
        assert_eq!(Key::from_text(&key.to_text()), Ok(key));
    }
    assert_eq!(Key::from_text("Sp"), Ok(Key::Char(' ')));
    assert_eq!(Key::from_text("!"), Ok(Key::Char('!')));
    assert_eq!(Key::from_text("~"), Ok(Key::Char('~')));
    assert_eq!(Key::from_text("F7"), Ok(Key::F(7)));
}

#[test]
fn repeat_flag_is_not_written() {
    let held = KeyTyped::new(Key::Left, plain(), true);
    assert_eq!(held.to_text(), "Left");
    assert_eq!(KeyTyped::from_text("Left"), Ok(held.ignore_repeat_flag()));
    assert!(held.is_repeat());
    assert!(!held.ignore_repeat_flag().is_repeat());
}

#[test]
fn is_compares_without_repeat() {
    let typed = KeyTyped::new(Key::Char('c'), mods(false, true, false, false), true);
    assert!(typed.is("C-c"));
    assert!(!typed.is("c"));
    assert!(!typed.is("C-C"));
    assert!(!typed.is("A-C-c"));
    assert!(!typed.is("no such key"));
    assert!(!typed.is("S-c"));
    assert!(KeyTyped::default().is("none"));
}

#[test]
fn key_typed_parts() {
    let m = mods(true, false, true, false);
    let typed = KeyTyped::new(Key::F(3), m, true);
    assert_eq!(typed.key(), Key::F(3));
    assert_eq!(typed.mods(), m);
    assert!(typed.is_repeat());
    assert!(typed.is_some());
    assert!(!KeyTyped::default().is_some());
    assert_eq!(KeyTyped::default().key(), Key::NoKey);
    assert_eq!(KeyTyped::from(m), KeyTyped::new(Key::NoKey, m, false));
}

#[test]
fn key_predicates() {
    assert!(Key::Char('a').is_printable());
    assert!(Key::Char(' ').is_printable());
    assert!(!Key::Enter.is_printable());
    assert!(!Key::F(1).is_printable());
    assert!(Key::Up.is_some());
    assert!(!Key::NoKey.is_some());
    assert_eq!(Key::default(), Key::NoKey);
}

#[test]
fn lowercase_stands_for_the_physical_key() {
    assert_eq!(Key::Char('A').char_to_lowercase(), Key::Char('a'));
    assert_eq!(Key::Char('Z').char_to_lowercase(), Key::Char('z'));
    assert_eq!(Key::Char('a').char_to_lowercase(), Key::Char('a'));
    assert_eq!(Key::Char('@').char_to_lowercase(), Key::Char('@'));
    assert_eq!(Key::Char('[').char_to_lowercase(), Key::Char('['));
    assert_eq!(Key::Char('\u{c9}').char_to_lowercase(), Key::Char('\u{c9}'));
    assert_eq!(Key::Enter.char_to_lowercase(), Key::Enter);
}

#[test]
fn key_codes_differ() {
    let mut keys = named_keys();
    for n in 0..=255u8 {
        keys.push(Key::F(n));
    }
    for c in ['\0', 'a', 'A', ' ', '\u{ff}', '\u{100}', '\u{10ffff}'] {
        keys.push(Key::Char(c));
    }
    for (i, a) in keys.iter().enumerate() {
        for (j, b) in keys.iter().enumerate() {
            assert_eq!(a.to_code() == b.to_code(), i == j);
        }
    }
    assert_eq!(Key::F(12).to_code(), 0x10c);
    assert_eq!(Key::Char('a').to_code(), 0x1000061);
}

#[test]
fn click_runs_its_course() {
    let mut state = MouseState::Hover([3, 4]);
    state.button_down(MouseButton::Left);
    assert_eq!(state, MouseState::Drag([3, 4], [3, 4], MouseButton::Left));
    state.button_up(MouseButton::Left);
    assert_eq!(state, MouseState::Release([3, 4], [3, 4], MouseButton::Left));
    state.frame_update();
    assert_eq!(state, MouseState::Hover([3, 4]));
}

#[test]
fn second_press_is_ignored() {
    let mut state = MouseState::Hover([3, 4]);
    state.button_down(MouseButton::Left);
    state.button_down(MouseButton::Right);
    assert_eq!(state, MouseState::Drag([3, 4], [3, 4], MouseButton::Left));
    // The release of another button does nothing either.
    state.button_up(MouseButton::Right);
    assert_eq!(state, MouseState::Drag([3, 4], [3, 4], MouseButton::Left));
    // A drag outlasts the frame.
    state.frame_update();
    assert_eq!(state, MouseState::Drag([3, 4], [3, 4], MouseButton::Left));
    state.button_up(MouseButton::Left);
    // A release that no frame has seen is not clobbered by a press.
    state.button_down(MouseButton::Middle);
    assert_eq!(state, MouseState::Release([3, 4], [3, 4], MouseButton::Left));
}

#[test]
fn motion_keeps_the_origin() {
    let mut state = MouseState::Hover([5, 5]);
    state.button_down(MouseButton::Left);
    *state.cursor_pos_mut() = [6, 5];
    assert_eq!(state, MouseState::Drag([6, 5], [5, 5], MouseButton::Left));
    assert_eq!(state.cursor_pos(), [6, 5]);
    assert_eq!(state.press_pos(), Some([5, 5]));
    state.button_up(MouseButton::Left);
    *state.cursor_pos_mut() = [7, 8];
    assert_eq!(state, MouseState::Release([7, 8], [5, 5], MouseButton::Left));
    assert_eq!(<[i32; 2]>::from(state), [7, 8]);
}

#[test]
fn scroll_lasts_one_frame() {
    let mut state = MouseState::Hover([1, 2]);
    state.scroll(0, -1);
    assert_eq!(state, MouseState::Scroll([1, 2], [0, -1]));
    assert_eq!(state.scroll_delta(), [0, -1]);
    assert_eq!(state.press_pos(), None);
    state.frame_update();
    assert_eq!(state, MouseState::Hover([1, 2]));
    assert_eq!(state.scroll_delta(), [0, 0]);
    // A scroll ends a drag, and a press right after a scroll starts one.
    let mut state = MouseState::Drag([9, 9], [1, 1], MouseButton::Left);
    state.scroll(1, 0);
    assert_eq!(state, MouseState::Scroll([9, 9], [1, 0]));
    state.button_down(MouseButton::Right);
    assert_eq!(state, MouseState::Drag([9, 9], [9, 9], MouseButton::Right));
}

#[test]
fn mouse_starts_at_rest() {
    assert_eq!(MouseState::default(), MouseState::Hover([0, 0]));
    let mut state = MouseState::default();
    state.button_up(MouseButton::Left);
    state.frame_update();
    assert_eq!(state, MouseState::Hover([0, 0]));
}
