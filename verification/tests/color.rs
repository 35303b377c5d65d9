use navni::color::{x256_to_rgba, Rgba, X256Color};

const BLACK: Rgba = Rgba { r: 0x00, g: 0x00, b: 0x00, a: 0xff };
const WHITE: Rgba = Rgba { r: 0xff, g: 0xff, b: 0xff, a: 0xff };
const RED: Rgba = Rgba { r: 0xff, g: 0x00, b: 0x00, a: 0xff };

#[test]
fn color_mul() {
    assert_eq!(BLACK * BLACK, BLACK);
    assert_eq!(WHITE * WHITE, WHITE);
    assert_eq!(WHITE * RED, RED);
    assert_eq!(BLACK * RED, BLACK);
}

#[test]
fn color_mul_rounds_down() {
    let half = Rgba::new(0x80, 0x7f, 0x01, 0xfe);
    // 128 * 128 / 255 = 64, 127 * 127 / 255 = 63, 1 * 1 / 255 = 0,
    // 254 * 254 / 255 = 253.
    assert_eq!(half * half, Rgba::new(64, 63, 0, 253));
}

#[test]
fn new_sets_channels() {
    let c = Rgba::new(1, 2, 3, 4);
    assert_eq!((c.r, c.g, c.b, c.a), (1, 2, 3, 4));
    assert_eq!(Rgba::default(), Rgba::new(0, 0, 0, 0));
}

#[test]
fn transparency_is_zero_alpha() {
    assert!(Rgba::new(9, 9, 9, 0).is_transparent());
    assert!(!Rgba::new(0, 0, 0, 1).is_transparent());
    assert!(!BLACK.is_transparent());
}

#[test]
fn bit_operators_work_on_every_channel() {
    let mut c = Rgba::new(0b1100, 0b1010, 0x0f, 0x00);
    c |= Rgba::new(0b0011, 0b0101, 0xf0, 0x80);
    assert_eq!(c, Rgba::new(0b1111, 0b1111, 0xff, 0x80));
    c &= Rgba::new(0b0110, 0xff, 0x3c, 0x7f);
    assert_eq!(c, Rgba::new(0b0110, 0b1111, 0x3c, 0x00));
}

#[test]
fn system_colors() {
    assert_eq!(x256_to_rgba(0x0), Rgba::new(0x00, 0x00, 0x00, 0xff));
    assert_eq!(x256_to_rgba(0x1), Rgba::new(0xaa, 0x00, 0x00, 0xff));
    assert_eq!(x256_to_rgba(0x2), Rgba::new(0x00, 0xaa, 0x00, 0xff));
    assert_eq!(x256_to_rgba(0x3), Rgba::new(0xaa, 0x55, 0x00, 0xff));
    assert_eq!(x256_to_rgba(0x4), Rgba::new(0x22, 0x22, 0xcc, 0xff));
    assert_eq!(x256_to_rgba(0x5), Rgba::new(0xaa, 0x00, 0xaa, 0xff));
    assert_eq!(x256_to_rgba(0x6), Rgba::new(0x00, 0xaa, 0xaa, 0xff));
    assert_eq!(x256_to_rgba(0x7), Rgba::new(0xaa, 0xaa, 0xaa, 0xff));
    assert_eq!(x256_to_rgba(0x8), Rgba::new(0x55, 0x55, 0x55, 0xff));
    assert_eq!(x256_to_rgba(0x9), Rgba::new(0xff, 0x55, 0x55, 0xff));
    assert_eq!(x256_to_rgba(0xa), Rgba::new(0x55, 0xff, 0x55, 0xff));
    assert_eq!(x256_to_rgba(0xb), Rgba::new(0xff, 0xff, 0x55, 0xff));
    assert_eq!(x256_to_rgba(0xc), Rgba::new(0x55, 0x55, 0xff, 0xff));
    assert_eq!(x256_to_rgba(0xd), Rgba::new(0xff, 0x55, 0xff, 0xff));
    assert_eq!(x256_to_rgba(0xe), Rgba::new(0x55, 0xff, 0xff, 0xff));
    assert_eq!(x256_to_rgba(0xf), Rgba::new(0xff, 0xff, 0xff, 0xff));
}

#[test]
fn color_cube() {
    // First and last entry of the cube.
    assert_eq!(x256_to_rgba(16), Rgba::new(0, 0, 0, 0xff));
    assert_eq!(x256_to_rgba(231), Rgba::new(255, 255, 255, 0xff));
    // 16 + 36 * 1 + 6 * 2 + 3 = 67: levels 95, 135, 175.
    assert_eq!(x256_to_rgba(67), Rgba::new(95, 135, 175, 0xff));
    // 16 + 36 * 5 + 6 * 0 + 4 = 200: levels 255, 0, 215.
    assert_eq!(x256_to_rgba(200), Rgba::new(255, 0, 215, 0xff));
}

#[test]
fn grey_ramp() {
    assert_eq!(x256_to_rgba(232), Rgba::new(8, 8, 8, 0xff));
    assert_eq!(x256_to_rgba(244), Rgba::new(128, 128, 128, 0xff));
    assert_eq!(x256_to_rgba(255), Rgba::new(238, 238, 238, 0xff));
}

#[test]
fn palette_lists_every_index() {
    let table = X256Color::palette();
    assert_eq!(table.len(), 256);
    for i in 0..256usize {
        assert_eq!(table[i], x256_to_rgba(i as u8));
        assert_eq!(Rgba::from(X256Color(i as u8)), table[i]);
    }
}

#[test]
fn system_color_names() {
    assert_eq!(X256Color::BACKGROUND, 0);
    assert_eq!(X256Color::FOREGROUND, 7);
    assert_eq!(X256Color::RED, 9);
    assert_eq!(X256Color::BOLD_FOREGROUND, 15);
    assert_eq!(X256Color::default(), X256Color(0));
}
