use hypixel_stats::color::{color_to_hex, Color};
use hypixel_stats::markup::parse_color;
use hypixel_stats::palette::{darken_color, get_color, get_shadow, palette_entry, position, PALETTE_LEN};

#[test]
fn colour_constructors() {
    assert_eq!(Color::from_argb(1, 2, 3, 4), Color { a: 1, r: 2, g: 3, b: 4 });
    assert_eq!(Color::from_rgb(2, 3, 4), Color { a: 255, r: 2, g: 3, b: 4 });
    assert_eq!(Color::black().with_a(75), Color { a: 75, r: 0, g: 0, b: 0 });
    assert_eq!(Color::white(), Color { a: 255, r: 255, g: 255, b: 255 });
}

#[test]
fn hex_is_upper_case_without_alpha() {
    assert_eq!(color_to_hex(Color { a: 12, r: 0xAB, g: 0x0C, b: 0xF0 }), "#AB0CF0");
    assert_eq!(color_to_hex(Color::black()), "#000000");
}

#[test]
fn hex_round_trip() {
    let c = Color { a: 9, r: 0x12, g: 0xEF, b: 0x7A };
    assert_eq!(parse_color(&color_to_hex(c)), Some(Color { a: 255, ..c }));
}

#[test]
fn named_colours() {
    assert_eq!(get_color("gold"), Some(Color { a: 255, r: 0xFF, g: 0xAA, b: 0x00 }));
    assert_eq!(get_color("Gold"), None);
    assert_eq!(get_color("dark_aqua"), Some(Color { a: 255, r: 0x00, g: 0xAA, b: 0xAA }));
    for i in 0..PALETTE_LEN {
        let (name, rgb, _) = palette_entry(i);
        let c = get_color(name).unwrap();
        assert_eq!(position(&color_to_hex(c)), Some(i));
        assert_eq!(((c.r as u32) << 16) | ((c.g as u32) << 8) | c.b as u32, rgb);
    }
}

#[test]
fn shadow_of_named_colour() {
    assert_eq!(get_shadow(Color { a: 255, r: 0x55, g: 0xFF, b: 0x55 }), Color { a: 255, r: 0x15, g: 0x3F, b: 0x15 });
    assert_eq!(get_shadow(Color { a: 10, r: 0xFF, g: 0xFF, b: 0xFF }), Color { a: 255, r: 0x3F, g: 0x3F, b: 0x3F });
    assert_eq!(get_shadow(Color::black()), Color::black());
}

#[test]
fn shadow_of_other_colour_is_darkened() {
    // 0xFF * 0.25 = 63.75 -> 64; 0x02 * 0.25 = 0.5 -> 1; 0x01 -> 0.25 -> 0
    assert_eq!(get_shadow(Color { a: 3, r: 0xFF, g: 0x02, b: 0x01 }), Color { a: 255, r: 64, g: 1, b: 0 });
    assert_eq!(darken_color(Color { a: 0, r: 6, g: 254, b: 253 }), Color { a: 255, r: 2, g: 64, b: 63 });
}

#[test]
fn darkening_matches_float_rounding() {
    for c in 0..=255u8 {
        let expected = ((c as f32) * (1.0 - 0.75f32)).round().clamp(0.0, 255.0) as u8;
        assert_eq!(darken_color(Color::from_rgb(c, c, c)).r, expected);
    }
}
