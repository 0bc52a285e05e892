use mb_tui::terminal::palette::parse_response;
use mb_tui::theme::palette::Palette;

#[test]
fn parses_four_digit_response() {
    assert_eq!(
        parse_response(b"\x1b]11;rgb:0000/2b2b/3636\x1b\\"),
        Some((0, 0x2b, 0x36))
    );
}

#[test]
fn parses_two_digit_response() {
    assert_eq!(
        parse_response(b"\x1b]11;rgb:ff/ff/ff\x1b\\"),
        Some((255, 255, 255))
    );
}

#[test]
fn parses_one_and_three_digit_components_and_bel() {
    assert_eq!(parse_response(b"\x1b]11;RGB:f/abc/1\x07"), Some((0xff, 0xab, 0x11)));
}

#[test]
fn rejects_malformed_responses() {
    assert_eq!(parse_response(b"\x1b]11;rgb:ff/ff\x1b\\"), None);
    assert_eq!(parse_response(b"\x1b]11;rgb:ff/zz/ff\x1b\\"), None);
    assert_eq!(parse_response(b"\x1b]11;rgb:fffff/ff/ff\x1b\\"), None);
    assert_eq!(parse_response(b"no color here"), None);
    // Not UTF-8.
    assert_eq!(parse_response(b"\xffrgb:ff/ff/ff"), None);
}

#[test]
fn rgb_selection_is_conventional() {
    assert_eq!(Palette::from_rgb(20, 20, 20), Palette::Dark);
    assert_eq!(Palette::from_rgb(240, 240, 240), Palette::Light);
}

#[test]
fn luminance_threshold_is_exclusive() {
    // 0.299 * 128 + 0.587 * 128 + 0.114 * 128 = 128: not light.
    assert_eq!(Palette::from_rgb(128, 128, 128), Palette::Dark);
    assert_eq!(Palette::from_rgb(129, 129, 129), Palette::Light);
    assert!(Palette::Light.is_light());
    assert!(!Palette::default().is_light());
}
