use ncurses_native::screen::{clear, clr_bol, clr_eol, clr_eos, single_field_repaint, RESET_DEFAULTS};
use ncurses_native::{mvcur, Attr, Xterm, ADMITTED_TERM, COVERAGE_NOTE, DEFAULT_PAIR, INIT_PROLOGUE, SCREEN_ROWS};

#[test]
fn re_exports_are_wired() {
    assert_eq!(ADMITTED_TERM, "xterm");
    assert_eq!(DEFAULT_PAIR, (7, 0));
    assert_eq!(Attr::Bold.sgr_code(), 1);
    assert_eq!(mvcur((1, 1), (1, 1)), b"");
    assert_eq!(ncurses_native::clear(), b"\x1b[H\x1b[2J");
    assert!(INIT_PROLOGUE.starts_with(b"\x1b[?1049h"));
    assert_eq!(Xterm::ROWS, SCREEN_ROWS);
}

#[test]
fn coverage_note_is_honest() {
    assert!(COVERAGE_NOTE.contains("3-5%"));
    assert!(COVERAGE_NOTE.contains("TERM=xterm"));
    assert!(COVERAGE_NOTE.contains("not a port"));
    assert!(COVERAGE_NOTE.contains("seed"));
}

#[test]
fn erase_ops() {
    assert_eq!(clear(), b"\x1b[H\x1b[2J");
    assert_eq!(clr_eos(), b"\x1b[J");
    assert_eq!(clr_eol(), b"\x1b[K");
    assert_eq!(clr_bol(), b"\x1b[1K");
}

#[test]
fn reset_defaults_constant() {
    assert_eq!(RESET_DEFAULTS, *b"\x1b(B\x1b[m\x1b[39;49m\x1b[37m\x1b[40m");
}

#[test]
fn single_field_repaint_matches_oracle_bodies() {
    assert_eq!(
        single_field_repaint(2, 3, b"X", 2, 4),
        b"\x1b[3d\x1b(B\x1b[m\x1b[39;49m\x1b[37m\x1b[40m\x1b[J\x1b[H\x1b[K\x1b[2d  \x1b[32m\x1b[44mX\x1b(B\x1b[m\x1b[39;49m\x1b[37m\x1b[40m\x1b[K\r\x1b[3d".to_vec()
    );
    assert_eq!(
        single_field_repaint(3, 1, b"X", 2, 4),
        b"\x1b[4d\x1b(B\x1b[m\x1b[39;49m\x1b[37m\x1b[40m\x1b[J\x1b[H\x1b[K\x1b[2d\x1b[K\x1b[3d\x1b[32m\x1b[44mX\x1b(B\x1b[m\x1b[39;49m\x1b[37m\x1b[40m\x1b[K\x1b[4d\x08".to_vec()
    );
    assert_eq!(
        single_field_repaint(3, 6, b"X", 2, 4),
        b"\x1b[4d\x1b(B\x1b[m\x1b[39;49m\x1b[37m\x1b[40m\x1b[J\x1b[H\x1b[K\x1b[2d\x1b[K\x1b[3;5H\x1b[1K \x1b[32m\x1b[44mX\x1b(B\x1b[m\x1b[39;49m\x1b[37m\x1b[40m\x1b[K\r\x1b[4d".to_vec()
    );
    assert_eq!(
        single_field_repaint(5, 10, b"X", 2, 4),
        b"\x1b[6d\x1b(B\x1b[m\x1b[39;49m\x1b[37m\x1b[40m\x1b[J\x1b[H\x1b[K\x1b[2d\x1b[K\x1b[3d\x1b[K\x1b[4d\x1b[K\x1b[5;9H\x1b[1K \x1b[32m\x1b[44mX\x1b(B\x1b[m\x1b[39;49m\x1b[37m\x1b[40m\x1b[K\r\x1b[6d".to_vec()
    );
    assert_eq!(
        single_field_repaint(4, 10, b"HELLO", 1, 3),
        b"\x1b[5d\x1b(B\x1b[m\x1b[39;49m\x1b[37m\x1b[40m\x1b[J\x1b[H\x1b[K\x1b[2d\x1b[K\x1b[3d\x1b[K\x1b[4;9H\x1b[1K \x1b[31m\x1b[43mHELLO\x1b(B\x1b[m\x1b[39;49m\x1b[37m\x1b[40m\x1b[K\r\x1b[5d".to_vec()
    );
    assert_eq!(
        single_field_repaint(6, 2, b"QRS", 4, 5),
        b"\x1b[7d\x1b(B\x1b[m\x1b[39;49m\x1b[37m\x1b[40m\x1b[J\x1b[H\x1b[K\x1b[2d\x1b[K\x1b[3d\x1b[K\x1b[4d\x1b[K\x1b[5d\x1b[K\x1b[6d \x1b[34m\x1b[45mQRS\x1b(B\x1b[m\x1b[39;49m\x1b[37m\x1b[40m\x1b[K\r\x1b[7d".to_vec()
    );
}
