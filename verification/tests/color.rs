use germterm::color::{
    blend_alpha_mult, lerp_lut_a, lerp_lut_b, lerp_scaled, mul_div_255, reciprocal_255_over_x, Color, ColorRgb,
};
use germterm::style::premultiply;

#[test]
fn channels_round_trip() {
    let c = Color::new(1, 2, 3, 4);
    assert_eq!(c.0, 0x01_02_03_04);
    assert_eq!((c.r(), c.g(), c.b(), c.a()), (1, 2, 3, 4));
    assert_eq!(c.rgb(), (1, 2, 3));
    assert_eq!(c.rgba(), (1, 2, 3, 4));
    assert_eq!(c.with_alpha(9), Color::new(1, 2, 3, 9));
}

#[test]
fn named_colors() {
    assert_eq!(Color::clear().0, 0);
    assert_eq!(Color::red().rgba(), (255, 0, 0, 255));
    assert_eq!(Color::dark_gray().rgba(), (0xA9, 0xA9, 0xA9, 0xFF));
    assert_eq!(Color::violet().rgba(), (0x7F, 0x00, 0xFF, 0xFF));
}

#[test]
fn color_rgb_becomes_opaque_color() {
    let rgb = ColorRgb::new(10, 20, 30);
    assert_eq!((rgb.r(), rgb.g(), rgb.b()), (10, 20, 30));
    let c: Color = Color::from(rgb);
    assert_eq!(c, Color::new(10, 20, 30, 255));
}

#[test]
fn lookup_functions_match_their_float_formulas() {
    for a in 0..=255u32 {
        for b in 0..=255u32 {
            let mul = ((a as f32 * b as f32) / 255.0 + 0.5) as u8;
            assert_eq!(mul_div_255(a as u8, b as u8), mul, "mul {a} {b}");
            let mult = (b as f32 * (1.0 - a as f32 / 255.0) + 0.5) as u8;
            assert_eq!(blend_alpha_mult(a as u8, b as u8), mult, "alpha {a} {b}");
            assert_eq!(lerp_lut_a(a as u8, b as u8), ((a * (255 - b) + 128) / 255) as u8);
            assert_eq!(lerp_lut_b(a as u8, b as u8), ((a * b + 128) / 255) as u8);
        }
    }
    assert_eq!(reciprocal_255_over_x(0), 0);
    for x in 1..=255u32 {
        let recip = 255.0 / x as f32;
        assert_eq!(reciprocal_255_over_x(x as u8), (recip * 256.0 + 0.5) as u16, "recip {x}");
    }
}

#[test]
fn lerp_ends_and_middle() {
    let a = Color::red();
    let b = Color::blue();
    assert_eq!(lerp_scaled(a, b, 0), a);
    assert_eq!(lerp_scaled(a, b, 255), b);
    assert_eq!(lerp_scaled(a, b, 128), Color::new(127, 0, 128, 255));
}

#[test]
fn premultiply_scales_the_channels() {
    assert_eq!(premultiply(Color::red().with_alpha(127)), Color::new(127, 0, 0, 127));
    assert_eq!(premultiply(Color::white()), Color::white());
    assert_eq!(premultiply(Color::new(200, 100, 50, 0)), Color::clear());
}
