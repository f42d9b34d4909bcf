use cosmostrix::cell::TermColor;
use cosmostrix::charset::{
    build_chars, charset_from_str, parse_user_hex_chars, CharRange, Charset, CharsetError,
    CS_BINARY, CS_DEFAULT, CS_ENGLISH_DIGITS, CS_EXTENDED_DEFAULT, CS_KATAKANA, CS_NONE,
};
use cosmostrix::config::{
    detect_color_mode, parse_color_scheme, parse_user_colors, ConfigError, U16Range,
};
use cosmostrix::palette::build_palette;
use cosmostrix::runtime::{ColorMode, ColorScheme, UserColor, UserColors};

#[test]
fn charset_keywords_parse() {
    assert_eq!(charset_from_str("auto", true), Ok(Charset(CS_DEFAULT)));
    assert_eq!(charset_from_str("auto", false), Ok(Charset(CS_EXTENDED_DEFAULT)));
    assert_eq!(charset_from_str("  ASCII  ", false), Ok(Charset(CS_DEFAULT)));
    assert_eq!(charset_from_str("katakana", true), Ok(Charset(CS_KATAKANA)));
    assert_eq!(charset_from_str("dec", true), Ok(Charset(CS_ENGLISH_DIGITS)));
    assert_eq!(charset_from_str("klingon", true), Err(CharsetError::UnknownCharset));
}

#[test]
fn charset_bit_operations() {
    let a = Charset(CS_BINARY);
    let b = Charset(CS_KATAKANA);
    assert!(!a.contains(b));
    let both = a.or(b);
    assert!(both.contains(a) && both.contains(b));
}

#[test]
fn hex_chars_parse_and_skip_blanks() {
    let got = parse_user_hex_chars("41, 42,,63").unwrap();
    assert_eq!(got, vec!['A', 'B', 'c']);
}

#[test]
fn hex_chars_reject_bad_digit() {
    assert_eq!(parse_user_hex_chars("41,zz"), Err(CharsetError::InvalidHex(2)));
}

#[test]
fn hex_chars_reject_surrogate() {
    assert_eq!(parse_user_hex_chars("D800"), Err(CharsetError::InvalidScalar(1)));
}

#[test]
fn build_chars_binary_class() {
    let none: Vec<CharRange> = Vec::new();
    let got = build_chars(Charset(CS_BINARY), &none, true);
    assert_eq!(got, vec!['0', '1']);
}

#[test]
fn build_chars_empty_request_uses_default() {
    let none: Vec<CharRange> = Vec::new();
    let got = build_chars(Charset(CS_NONE), &none, true);
    // The plain default starts with the English letters.
    assert_eq!(got[0], 'A');
    assert!(got.contains(&'z') && got.contains(&'9') && got.contains(&'!'));
}

#[test]
fn build_chars_user_range_appends() {
    let ranges = vec![CharRange { lo: 'a', hi: 'c' }];
    let got = build_chars(Charset(CS_NONE), &ranges, true);
    assert_eq!(got, vec!['a', 'b', 'c']);
}

#[test]
fn u16_range_parses_pair() {
    let r = U16Range::from_str("300,400").unwrap();
    assert_eq!((r.low, r.high), (300, 400));
    let r2 = U16Range::from_str(" 1 , 3000 ").unwrap();
    assert_eq!((r2.low, r2.high), (1, 3000));
}

#[test]
fn numbers_tolerate_a_leading_plus() {
    let r = U16Range::from_str("+300,+400").unwrap();
    assert_eq!((r.low, r.high), (300, 400));
    assert_eq!(parse_user_hex_chars("+41"), Ok(vec!['A']));
    assert!(matches!(parse_user_hex_chars("++41"), Err(CharsetError::InvalidHex(1))));
    assert!(matches!(U16Range::from_str("+,4"), Err(ConfigError::InvalidLow)));
}

#[test]
fn u16_range_rejects_bad_input() {
    assert_eq!(U16Range::from_str("300"), Err(ConfigError::ExpectedPair));
    assert_eq!(U16Range::from_str("x,4"), Err(ConfigError::InvalidLow));
    assert_eq!(U16Range::from_str("4,x"), Err(ConfigError::InvalidHigh));
    assert_eq!(U16Range::from_str("0,4"), Err(ConfigError::BadRange));
    assert_eq!(U16Range::from_str("5,4"), Err(ConfigError::BadRange));
}

#[test]
fn color_scheme_names_parse() {
    assert_eq!(parse_color_scheme("green"), Ok(ColorScheme::Green));
    assert_eq!(parse_color_scheme(" GRAY "), Ok(ColorScheme::Gray));
    assert_eq!(parse_color_scheme("grey"), Ok(ColorScheme::Gray));
    assert_eq!(parse_color_scheme("mauve"), Err(ConfigError::UnknownScheme));
}

#[test]
fn color_mode_detection() {
    assert_eq!(detect_color_mode(Some(0), "", ""), ColorMode::Mono);
    assert_eq!(detect_color_mode(Some(16), "", ""), ColorMode::Color16);
    assert_eq!(detect_color_mode(Some(32), "", ""), ColorMode::TrueColor);
    assert_eq!(detect_color_mode(Some(999), "", ""), ColorMode::Color256);
    assert_eq!(detect_color_mode(None, "TRUECOLOR", ""), ColorMode::TrueColor);
    assert_eq!(detect_color_mode(None, "24bit", ""), ColorMode::TrueColor);
    assert_eq!(detect_color_mode(None, "", "xterm-256color"), ColorMode::Color256);
    assert_eq!(detect_color_mode(None, "", "vt100"), ColorMode::Color16);
}

#[test]
fn user_colors_parse_file() {
    let content = "; a comment\nneo_color_version 1\n0,0,0,0\n46, 500, 1000, 500\n82\n";
    let got = parse_user_colors(content).unwrap();
    assert_eq!(got.colors.len(), 3);
    assert_eq!(got.colors[0].index, 0);
    assert_eq!(got.colors[1].index, 46);
    let rgb = got.colors[1].rgb_1000.unwrap();
    assert_eq!((rgb.r, rgb.g, rgb.b), (500, 1000, 500));
    assert_eq!(got.colors[2].rgb_1000, None);
}

#[test]
fn user_colors_reject_bad_files() {
    assert!(matches!(parse_user_colors("1,2,3,4\n"), Err(ConfigError::TooFewColors)));
    assert!(matches!(parse_user_colors("zz\n1\n"), Err(ConfigError::InvalidColorIndex)));
    assert!(matches!(parse_user_colors("1,a,2,3\n2\n"), Err(ConfigError::InvalidChannel)));
}

#[test]
fn palette_mono_is_white() {
    let p = build_palette(ColorScheme::Green, ColorMode::Mono, false, None);
    assert_eq!(p.colors, vec![TermColor::White]);
    assert_eq!(p.bg, Some(TermColor::Black));
}

#[test]
fn palette_green_sixteen_colors() {
    let p = build_palette(ColorScheme::Green, ColorMode::Color16, true, None);
    assert_eq!(p.colors, vec![TermColor::DarkGreen, TermColor::Green]);
    assert_eq!(p.bg, None);
}

#[test]
fn palette_green_256_ramp() {
    let p = build_palette(ColorScheme::Green, ColorMode::Color256, false, None);
    let want: Vec<TermColor> =
        vec![234u8, 22, 28, 35, 78, 84, 159].into_iter().map(TermColor::Ansi).collect();
    assert_eq!(p.colors, want);
}

#[test]
fn palette_user_colors() {
    let user = UserColors {
        colors: vec![
            UserColor { index: 16, rgb_1000: None },
            UserColor { index: 40, rgb_1000: None },
            UserColor { index: 46, rgb_1000: None },
        ],
    };
    let p = build_palette(ColorScheme::User, ColorMode::Color256, false, Some(&user));
    assert_eq!(p.bg, Some(TermColor::Ansi(16)));
    assert_eq!(p.colors, vec![TermColor::Ansi(40), TermColor::Ansi(46)]);
}
