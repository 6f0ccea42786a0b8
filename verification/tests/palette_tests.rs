use bevy_psx::hex::parse_hex_color;
use bevy_psx::{Palette, PaletteError, Rgb};

fn rgb(r: u16, g: u16, b: u16) -> Rgb {
    Rgb { r, g, b }
}

fn parse_err(content: &str) -> PaletteError {
    match Palette::parse_hex_content(content, None) {
        Ok(p) => panic!("expected an error, got {:?}", p),
        Err(e) => e,
    }
}

#[test]
fn parses_one_color_per_line() {
    let p = Palette::parse_hex_content("ff0000\n00ff00\n0000ff", Some("rgb".to_string())).unwrap();
    assert_eq!(p.colors, vec![rgb(1020, 0, 0), rgb(0, 1020, 0), rgb(0, 0, 1020)]);
    assert_eq!(p.name, Some("rgb".to_string()));
}

#[test]
fn levels_map_to_fixed_point_channels() {
    let p = Palette::parse_hex_content("010203\n7f80ff", None).unwrap();
    assert_eq!(p.colors, vec![rgb(4, 8, 12), rgb(508, 512, 1020)]);
    assert_eq!(p.name, None);
}

#[test]
fn skips_blank_and_comment_lines() {
    let p = Palette::parse_hex_content("# header\n// note\n\n   \n  abc  \n", None).unwrap();
    assert_eq!(p.colors, vec![rgb(680, 748, 816)]);
}

#[test]
fn hash_prefixed_colors_are_comments() {
    let p = Palette::parse_hex_content("#ff0000\n00ff00", None).unwrap();
    assert_eq!(p.colors, vec![rgb(0, 1020, 0)]);
    assert_eq!(parse_err("#ff0000\n#00ff00\n"), PaletteError::EmptyPalette);
}

#[test]
fn empty_content_is_an_empty_palette() {
    assert_eq!(parse_err(""), PaletteError::EmptyPalette);
    assert_eq!(parse_err("\n\n// nothing\n"), PaletteError::EmptyPalette);
}

#[test]
fn crlf_line_endings() {
    let p = Palette::parse_hex_content("ff0000\r\n00ff00\r\n", None).unwrap();
    assert_eq!(p.colors, vec![rgb(1020, 0, 0), rgb(0, 1020, 0)]);
}

#[test]
fn bad_line_reports_its_number() {
    assert_eq!(
        parse_err("ff0000\n\nzz0000\nffffff"),
        PaletteError::ParseError(
            "Line 3: Invalid hex color: Invalid red component: zz".to_string()
        )
    );
}

#[test]
fn green_and_blue_component_errors() {
    assert_eq!(
        parse_err("00gg00"),
        PaletteError::ParseError(
            "Line 1: Invalid hex color: Invalid green component: gg".to_string()
        )
    );
    assert_eq!(
        parse_err("0000-1"),
        PaletteError::ParseError(
            "Line 1: Invalid hex color: Invalid blue component: -1".to_string()
        )
    );
}

#[test]
fn wrong_length_is_reported() {
    assert_eq!(
        parse_err("ff00"),
        PaletteError::ParseError(
            "Line 1: Invalid hex color: Invalid hex color length: ff00 (expected 3 or 6 characters)"
                .to_string()
        )
    );
}

#[test]
fn line_numbers_above_nine() {
    let mut content = String::new();
    for _ in 0..11 {
        content.push_str("000000\n");
    }
    content.push_str("oops\n");
    assert_eq!(
        parse_err(&content),
        PaletteError::ParseError(
            "Line 12: Invalid hex color: Invalid hex color length: oops (expected 3 or 6 characters)"
                .to_string()
        )
    );
}

#[test]
fn short_form_doubles_each_digit() {
    assert_eq!(parse_hex_color("abc").unwrap(), parse_hex_color("aabbcc").unwrap());
    assert_eq!(parse_hex_color("f0a").unwrap(), rgb(1020, 0, 680));
    assert_eq!(
        parse_hex_color("xbc"),
        Err(PaletteError::InvalidHexColor("Invalid red component: xx".to_string()))
    );
    assert_eq!(
        parse_hex_color("aXc"),
        Err(PaletteError::InvalidHexColor("Invalid green component: XX".to_string()))
    );
}

#[test]
fn plus_sign_is_accepted_in_a_component() {
    assert_eq!(parse_hex_color("+f+f+f").unwrap(), rgb(60, 60, 60));
    assert_eq!(
        parse_hex_color("++ffff"),
        Err(PaletteError::InvalidHexColor("Invalid red component: ++".to_string()))
    );
}

#[test]
fn surrounding_white_space_is_trimmed() {
    assert_eq!(parse_hex_color(" \t00FF00\u{a0}").unwrap(), rgb(0, 1020, 0));
}

#[test]
fn length_counts_utf8_bytes() {
    // 'é' takes two bytes: "é1234" is six bytes long, and its red component is "é".
    assert_eq!(
        parse_hex_color("é1234"),
        Err(PaletteError::InvalidHexColor("Invalid red component: é".to_string()))
    );
    // "éé" is four bytes: neither form.
    assert_eq!(
        parse_hex_color("éé"),
        Err(PaletteError::InvalidHexColor(
            "Invalid hex color length: éé (expected 3 or 6 characters)".to_string()
        ))
    );
}

#[test]
fn closest_color_picks_the_nearest() {
    let p = Palette {
        colors: vec![rgb(0, 0, 0), rgb(1020, 1020, 1020), rgb(1020, 0, 0)],
        name: None,
    };
    assert_eq!(p.find_closest_color(rgb(900, 100, 100)), rgb(1020, 0, 0));
    assert_eq!(p.find_closest_color(rgb(100, 100, 100)), rgb(0, 0, 0));
    assert_eq!(p.find_closest_color(rgb(800, 800, 700)), rgb(1020, 1020, 1020));
}

#[test]
fn closest_color_prefers_the_earliest_on_ties() {
    let p = Palette { colors: vec![rgb(0, 0, 0), rgb(20, 0, 0), rgb(0, 0, 0)], name: None };
    assert_eq!(p.find_closest_color(rgb(10, 0, 0)), rgb(0, 0, 0));
    let q = Palette { colors: vec![rgb(20, 0, 0), rgb(0, 0, 0)], name: None };
    assert_eq!(q.find_closest_color(rgb(10, 0, 0)), rgb(20, 0, 0));
}

#[test]
fn closest_color_of_empty_palette_is_black() {
    assert_eq!(Palette::new().find_closest_color(rgb(500, 500, 500)), rgb(0, 0, 0));
}

#[test]
fn quantizing_twice_is_quantizing_once() {
    let p = Palette {
        colors: vec![rgb(0, 0, 0), rgb(510, 255, 0), rgb(1020, 1020, 1020), rgb(0, 510, 0)],
        name: None,
    };
    for t in [rgb(1, 2, 3), rgb(600, 300, 10), rgb(900, 900, 900), rgb(100, 400, 50)] {
        let once = p.find_closest_color(t);
        assert_eq!(p.find_closest_color(once), once);
    }
}

#[test]
fn shader_array_pads_with_the_last_color() {
    let p = Palette { colors: vec![rgb(1, 1, 1), rgb(2, 2, 2)], name: None };
    assert_eq!(p.to_shader_array(4), vec![rgb(1, 1, 1), rgb(2, 2, 2), rgb(2, 2, 2), rgb(2, 2, 2)]);
    assert_eq!(p.to_shader_array(1), vec![rgb(1, 1, 1)]);
    assert_eq!(p.to_shader_array(0), vec![]);
    assert_eq!(Palette::new().to_shader_array(3), vec![rgb(0, 0, 0); 3]);
}

#[test]
fn palette_basics() {
    let mut p = Palette::with_name("mine".to_string());
    assert!(p.is_empty());
    p.add_color(rgb(4, 8, 12));
    assert_eq!(p.len(), 1);
    assert!(!p.is_empty());
    assert_eq!(p.name.as_deref(), Some("mine"));
    assert_eq!(Palette::default(), Palette::new());
}

#[test]
fn error_messages() {
    assert_eq!(PaletteError::IoError("gone".to_string()).message(), "IO Error: gone");
    assert_eq!(PaletteError::ParseError("bad".to_string()).message(), "Parse Error: bad");
    assert_eq!(PaletteError::EmptyPalette.message(), "Empty palette");
    assert_eq!(PaletteError::InvalidHexColor("x".to_string()).message(), "Invalid hex color: x");
}

#[test]
fn content_definedness() {
    assert!(Palette::hex_content_defined("ff0000\n00ff00"));
    assert!(Palette::hex_content_defined(""));
    // "é1234" is six bytes and splits cleanly at byte 2: an ordinary error.
    assert!(Palette::hex_content_defined("é1234"));
    // "aé123" is six bytes, and byte 2 falls inside 'é'.
    assert!(!Palette::hex_content_defined("aé123"));
    // "é1" is three bytes but only two characters.
    assert!(!Palette::hex_content_defined("000000\né1"));
    // A bad line before the one that cannot be split stops the reading first.
    assert!(Palette::hex_content_defined("zz0000\naé123"));
    // Comment lines are never read as colors.
    assert!(Palette::hex_content_defined("# aé123\n000000"));
}

#[test]
fn comments_white_space_and_short_forms_do_not_change_colors() {
    let a = Palette::parse_hex_content("abc\n112233\n", None).unwrap();
    let b = Palette::parse_hex_content("# header\n   aabbcc \t\n\n// note\n112233\n", None).unwrap();
    assert_eq!(a.colors, b.colors);
    assert!(Palette::parse_hex_content("zzz\n", None).is_err());
    assert!(Palette::parse_hex_content("// c\n  zzzzzz\n", None).is_err());
}

#[test]
fn a_slash_short_form_doubles_to_a_comment() {
    // "/ab" is a (bad) color line, but its doubled form "//aabb" is a comment.
    assert!(Palette::parse_hex_content("/ab\n000000", None).is_err());
    assert!(Palette::parse_hex_content("//aabb\n000000", None).is_ok());
}
