use zlaunch::color::{parse_color, Color};

fn float_alpha(text: String) -> Option<u8> {
    text.parse::<f32>().ok().map(|a| (a * 255.0) as u8)
}

#[test]
fn test_parse_hex_3() {
    let color = parse_color("#f0a", float_alpha).unwrap();
    assert_eq!(color.r, 255);
    assert_eq!(color.g, 0);
    assert_eq!(color.b, 170);
    assert_eq!(color.a, 255);
}

#[test]
fn test_parse_hex_6() {
    let color = parse_color("#ff00aa", float_alpha).unwrap();
    assert_eq!(color.r, 255);
    assert_eq!(color.g, 0);
    assert_eq!(color.b, 170);
    assert_eq!(color.a, 255);
}

#[test]
fn test_parse_rgb() {
    let color = parse_color("rgb(255, 128, 64)", float_alpha).unwrap();
    assert_eq!(color.r, 255);
    assert_eq!(color.g, 128);
    assert_eq!(color.b, 64);
    assert_eq!(color.a, 255);
}

#[test]
fn test_to_hex() {
    let color = Color::from_rgb(255, 128, 64);
    assert_eq!(color.to_hex(), "#FF8040");
}

#[test]
fn parse_hex_8_and_to_hex_with_alpha() {
    let color = parse_color("  #0A0b0C80 ", float_alpha).unwrap();
    assert_eq!(color, Color::from_rgba(10, 11, 12, 128));
    assert_eq!(color.to_hex(), "#0A0B0C80");
}

#[test]
fn hex_roundtrip_examples() {
    for c in [
        Color::from_rgb(0, 0, 0),
        Color::from_rgba(1, 254, 171, 0),
        Color::from_rgb(255, 255, 255),
    ] {
        assert_eq!(parse_color(&c.to_hex(), float_alpha), Some(c));
    }
}

#[test]
fn parse_rgba_reads_fractional_alpha() {
    let color = parse_color("rgba(1, 2, 3, 0.5)", float_alpha).unwrap();
    assert_eq!(color, Color::from_rgba(1, 2, 3, 127));
    assert_eq!(parse_color("rgba(1, 2, 3, x)", float_alpha), None);
}

#[test]
fn parse_rejects_bad_input() {
    assert_eq!(parse_color("#ggg", float_alpha), None);
    assert_eq!(parse_color("#12345", float_alpha), None);
    assert_eq!(parse_color("rgb(256, 0, 0)", float_alpha), None);
    assert_eq!(parse_color("rgb(1, 2)", float_alpha), None);
    assert_eq!(parse_color("rgb(1, 2, 3", float_alpha), None);
    assert_eq!(parse_color("blue", float_alpha), None);
}

#[test]
fn parse_accepts_plus_signs_like_from_str_radix() {
    assert_eq!(parse_color("#+f+f+f", float_alpha), Some(Color::from_rgb(15, 15, 15)));
    assert_eq!(parse_color("rgb(+1, 02, 3)", float_alpha), Some(Color::from_rgb(1, 2, 3)));
}

#[test]
fn rgb_string_is_decimal() {
    assert_eq!(Color::from_rgb(255, 8, 64).to_rgb_string(), "rgb(255, 8, 64)");
    assert_eq!(Color::from_rgba(0, 10, 100, 3).to_rgb_string(), "rgb(0, 10, 100)");
}

#[test]
fn rgb_string_parses_back_opaque() {
    let c = Color::from_rgba(7, 200, 99, 10);
    assert_eq!(parse_color(&c.to_rgb_string(), float_alpha), Some(Color::from_rgb(7, 200, 99)));
}

#[test]
fn rgb_components_text_lists_the_decimal_components() {
    assert_eq!(Color::from_rgb(255, 128, 0).to_rgb_components(), "255, 128, 0");
    assert_eq!(Color::from_rgba(0, 7, 42, 3).to_rgb_components(), "0, 7, 42");
}
