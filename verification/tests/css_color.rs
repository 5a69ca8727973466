use aetheris_client::css_color::{parse_css_color, Rgba8};

#[test]
fn six_digit_colours_are_opaque() {
    assert_eq!(parse_css_color("#0a1B2c"), Some(Rgba8 { r: 10, g: 27, b: 44, a: 255 }));
    assert_eq!(parse_css_color("ffffff"), Some(Rgba8 { r: 255, g: 255, b: 255, a: 255 }));
}

#[test]
fn eight_digit_colours_carry_alpha() {
    assert_eq!(parse_css_color("#11223380"), Some(Rgba8 { r: 17, g: 34, b: 51, a: 128 }));
}

#[test]
fn whitespace_is_trimmed() {
    assert_eq!(parse_css_color("  #000000\n"), Some(Rgba8 { r: 0, g: 0, b: 0, a: 255 }));
    assert_eq!(parse_css_color("\u{a0}#102030\u{3000}"), Some(Rgba8 { r: 16, g: 32, b: 48, a: 255 }));
    assert_eq!(parse_css_color("\t\u{2009}ff0000 "), Some(Rgba8 { r: 255, g: 0, b: 0, a: 255 }));
}

#[test]
fn signs_are_not_digits() {
    assert_eq!(parse_css_color("#+f+f+f"), None);
    assert_eq!(parse_css_color("#-f0000"), None);
    assert_eq!(parse_css_color("+f+f+f+f"), None);
}

#[test]
fn malformed_colours_give_none() {
    assert_eq!(parse_css_color(""), None);
    assert_eq!(parse_css_color("#"), None);
    assert_eq!(parse_css_color("#fff"), None);
    assert_eq!(parse_css_color("#ggggggg"), None);
    assert_eq!(parse_css_color("#12345"), None);
    assert_eq!(parse_css_color("##123456"), None);
    assert_eq!(parse_css_color("#1234567"), None);
    assert_eq!(parse_css_color("rgb(1,2,3)"), None);
    // Three two-byte characters: cut on boundaries, but not hex.
    assert_eq!(parse_css_color("\u{e9}\u{e9}\u{e9}"), None);
}
