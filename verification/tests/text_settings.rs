use lib::text::{configured_background_color, parse_color_argb, setting_enabled, DEFAULT_BACKGROUND_COLOR};

#[test]
fn six_digit_color_is_opaque() {
    assert_eq!(parse_color_argb("#ff0000"), Some(0xffff0000));
    assert_eq!(parse_color_argb("123456"), Some(0xff123456));
}

#[test]
fn eight_digit_color_keeps_alpha() {
    assert_eq!(parse_color_argb("80112233"), Some(0x80112233));
    assert_eq!(parse_color_argb("#00000000"), Some(0));
    assert_eq!(parse_color_argb("FFFFFFFF"), Some(0xffffffff));
}

#[test]
fn color_ignores_white_space_and_hashes() {
    assert_eq!(parse_color_argb("  00ff00\n"), Some(0xff00ff00));
    assert_eq!(parse_color_argb("##abcdef"), Some(0xffabcdef));
    assert_eq!(parse_color_argb("\u{3000}\u{a0}ABCDEF\t"), Some(0xffabcdef));
}

#[test]
fn color_of_other_lengths_is_none() {
    assert_eq!(parse_color_argb(""), None);
    assert_eq!(parse_color_argb("#"), None);
    assert_eq!(parse_color_argb("abc"), None);
    assert_eq!(parse_color_argb("1234567"), None);
    assert_eq!(parse_color_argb("123456789"), None);
}

#[test]
fn color_with_bad_digits_is_none() {
    assert_eq!(parse_color_argb("gggggg"), None);
    assert_eq!(parse_color_argb("12 456"), None);
    assert_eq!(parse_color_argb("-abcde"), None);
    assert_eq!(parse_color_argb("#12345é"), None);
}

#[test]
fn color_accepts_a_plus_sign_like_from_str_radix() {
    assert_eq!(parse_color_argb("+abcde"), Some(0xff0abcde));
    assert_eq!(u32::from_str_radix("+abcde", 16).ok().map(|v| 0xff000000 | v), Some(0xff0abcde));
    assert_eq!(parse_color_argb("+1234567"), Some(0x01234567));
}

#[test]
fn background_color_falls_back_to_default() {
    assert_eq!(configured_background_color(None), DEFAULT_BACKGROUND_COLOR);
    assert_eq!(configured_background_color(Some("zzz")), DEFAULT_BACKGROUND_COLOR);
    assert_eq!(configured_background_color(Some("#123456")), 0xff123456);
    assert_eq!(DEFAULT_BACKGROUND_COLOR, 0xff101418);
}

#[test]
fn settings_that_switch_on() {
    assert!(setting_enabled("1"));
    assert!(setting_enabled("TRUE"));
    assert!(setting_enabled(" yes "));
    assert!(setting_enabled("On"));
}

#[test]
fn settings_that_do_not_switch_on() {
    assert!(!setting_enabled("0"));
    assert!(!setting_enabled("enable"));
    assert!(!setting_enabled(""));
    assert!(!setting_enabled("o n"));
    assert!(!setting_enabled("truee"));
}

#[test]
fn every_color_written_in_hex_reads_back() {
    for c in [0u32, 1, 0xff101418, 0x80112233, 0xdeadbeef, u32::MAX, 0x00abcdef] {
        assert_eq!(parse_color_argb(&format!("{:08x}", c)), Some(c));
        assert_eq!(parse_color_argb(&format!("#{:08x}", c)), Some(c));
        assert_eq!(parse_color_argb(&format!("{:08X}", c)), Some(c));
    }
}
