use ncurses_native::input::mouse::{parse_sgr_mouse, wide_key, WideKey};

#[test]
fn sgr_mouse_reports() {
    assert_eq!(parse_sgr_mouse(b"\x1b[<0;10;5M"), Some(((0, 9, 4, true), 10)));
    assert_eq!(parse_sgr_mouse(b"\x1b[<3;1;1mxyz"), Some(((3, 0, 0, false), 9)));
    assert_eq!(parse_sgr_mouse(b"\x1b[<0;10M"), None);
    assert_eq!(parse_sgr_mouse(b"\x1b[<0;1;1"), None);
    assert_eq!(parse_sgr_mouse(b"\x1b[<0;1;1X"), None);
    assert_eq!(parse_sgr_mouse(b"\x1b[<"), None);
}

#[test]
fn wide_keys_from_codes() {
    assert_eq!(wide_key(&[0x41]), (WideKey::Char(0x41), 1));
    assert_eq!(wide_key(&[300, 0x41]), (WideKey::Code(300), 1));
    assert_eq!(wide_key(&[0xC3, 0xA9]), (WideKey::Char(0xE9), 2));
    assert_eq!(wide_key(&[0xE2, 0x82, 0xAC, 0x41]), (WideKey::Char(0x20AC), 3));
    assert_eq!(wide_key(&[0xC3, 0x41]), (WideKey::Char(0xC3), 1));
    assert_eq!(wide_key(&[0xE2, 0x82]), (WideKey::Char(0xE2), 2));
    assert_eq!(wide_key(&[0xFF]), (WideKey::Char(0xFF), 1));
}
