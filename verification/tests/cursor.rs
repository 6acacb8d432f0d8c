use ncurses_native::cursor::{apply_padding, mvcur, mvcur_caps, mvcur_ovw, normalized_cost, strip_padding, Caps};

#[test]
fn no_op_move_is_empty() {
    assert_eq!(mvcur((1, 1), (1, 1)), b"");
    assert_eq!(mvcur((5, 9), (5, 9)), b"");
}

#[test]
fn home_target_uses_home() {
    assert_eq!(mvcur((10, 40), (1, 1)), b"\x1b[H");
}

#[test]
fn padding_emits_or_strips_per_xon() {
    assert_eq!(
        apply_padding(b"\x1b[1;1H$<5>", false, 0),
        [b"\x1b[1;1H".as_ref(), &[0u8; 21]].concat()
    );
    assert_eq!(apply_padding(b"\x1b[A$<2>", false, 0).len(), 3 + 8);
    assert_eq!(apply_padding(b"\x1b[1;1H$<5>", true, 0), b"\x1b[1;1H".to_vec());
    assert_eq!(apply_padding(b"\x1b[A$<2/>", true, 0).len(), 3 + 8);
    assert_eq!(apply_padding(b"x$<5>", false, b'.'), b"x.....................".to_vec());
}

#[test]
fn same_row_forward_uses_cuf1_then_hpa() {
    assert_eq!(mvcur((1, 1), (1, 2)), b"\x1b[C");
    assert_eq!(mvcur((1, 5), (1, 9)), b"\x1b[9G");
    assert_eq!(mvcur((1, 1), (1, 8)), b"\x1b[8G");
}

#[test]
fn same_row_backward() {
    assert_eq!(mvcur((1, 9), (1, 8)), b"\x08");
    assert_eq!(mvcur((1, 5), (1, 2)), b"\x08\x08\x08");
}

#[test]
fn vertical_then_horizontal() {
    assert_eq!(mvcur((1, 1), (2, 3)), b"\x1b[2;3H");
    assert_eq!(mvcur((3, 1), (2, 1)), b"\x1b[A");
}

#[test]
fn cup_when_cheapest_or_nonlocal() {
    assert_eq!(mvcur((1, 1), (1, 10)), b"\x1b[1;10H");
    assert_eq!(mvcur((1, 1), (3, 5)), b"\x1b[3;5H");
    assert_eq!(mvcur((1, 1), (10, 40)), b"\x1b[10;40H");
    assert_eq!(mvcur((1, 1), (2, 79)), b"\x1b[2;79H");
}

#[test]
fn prompt_moves_match_screenio_pins() {
    assert_eq!(mvcur((1, 2), (2, 1)), b"\x1b[2d\x08");
    assert_eq!(mvcur((1, 6), (2, 1)), b"\r\x1b[2d");
    assert_eq!(mvcur((2, 4), (3, 1)), b"\r\x1b[3d");
}

#[test]
fn vt100_uses_parm_caps_without_hpa_vpa() {
    let c = Caps::vt100();
    assert_eq!(mvcur_caps(&c, (1, 1), (2, 3)), b"\x1b[1B\x1b[2C");
    assert_eq!(mvcur_caps(&c, (6, 6), (8, 8)), b"\x1b[2B\x1b[2C");
    assert_eq!(mvcur_caps(&c, (4, 4), (2, 2)), b"\x1b[2A\x08\x08");
    assert_eq!(mvcur_caps(&c, (6, 11), (4, 5)), b"\x1b[2A\x1b[6D");
    assert_eq!(mvcur_caps(&c, (6, 41), (6, 6)), b"\x1b[35D");
    assert_eq!(mvcur_caps(&c, (11, 11), (11, 12)), b"\x1b[1C");
    assert_eq!(mvcur_caps(&c, (11, 12), (11, 11)), b"\x08");
    assert_eq!(mvcur_caps(&c, (11, 11), (10, 11)), b"\x1b[1A");
    assert_eq!(mvcur_caps(&c, (11, 11), (12, 11)), b"\x1b[1B");
    assert_eq!(mvcur_caps(&c, (9, 6), (1, 1)), b"\x1b[H");
    assert_eq!(mvcur_caps(&c, (1, 1), (6, 11)), b"\x1b[6;11H");
}

#[test]
fn cygwin_uses_cud1_for_down_one() {
    let c = Caps::cygwin();
    assert_eq!(mvcur_caps(&c, (1, 1), (2, 1)), b"\x1b[B");
    assert_eq!(mvcur_caps(&c, (1, 1), (3, 1)), b"\x1b[3d");
    assert_eq!(mvcur_caps(&c, (3, 1), (2, 1)), b"\x1b[A");
    assert_eq!(mvcur_caps(&c, (1, 5), (1, 9)), b"\x1b[9G");
}

#[test]
fn xterm_caps_unchanged_by_parameterization() {
    let c = Caps::xterm();
    assert_eq!(mvcur_caps(&c, (1, 1), (2, 3)), b"\x1b[2;3H");
    assert_eq!(mvcur_caps(&c, (1, 1), (1, 2)), b"\x1b[C");
    assert_eq!(mvcur_caps(&c, (3, 1), (2, 1)), b"\x1b[A");
    assert_eq!(mvcur_caps(&c, (1, 5), (1, 9)), b"\x1b[9G");
}

#[test]
fn overwrite_hook_rewrites_known_cells() {
    // Two cells to the right that may be rewritten: their bytes cost 2, less than hpa.
    let out = mvcur_ovw((1, 1), (1, 3), |r, c| if r == 0 && c < 2 { Some(b'a' + c as u8) } else { None });
    assert_eq!(out, b"ab");
    // A refused cell falls back to motion.
    let out = mvcur_ovw((1, 1), (1, 3), |_, c| if c == 0 { Some(b'a') } else { None });
    assert_eq!(out, b"\x1b[3G");
}

#[test]
fn normalized_cost_counts_bytes_and_padding() {
    assert_eq!(normalized_cost(b"\x1b[24;24H"), 8);
    assert_eq!(normalized_cost(b"\x1b[24;24H$<5>"), 33);
    assert_eq!(normalized_cost(b"\x1b[C$<2>"), 13);
    assert_eq!(normalized_cost(b"$<0.5>"), 2);
    assert_eq!(normalized_cost(b"a$<"), 3);
}

#[test]
fn strip_padding_removes_only_closed_specs() {
    assert_eq!(strip_padding(b"a$<5>b$<2/>c"), b"abc");
    assert_eq!(strip_padding(b"a$<5"), b"a$<5");
    assert_eq!(strip_padding(b"$x"), b"$x");
}

#[test]
fn mvcur_accepts_extreme_coordinates() {
    let m = i32::MIN;
    assert_eq!(mvcur((m, m), (m, m)), Vec::<u8>::new());
    let _ = mvcur((m, 1), (1, 1));
    let _ = mvcur((1, 1), (m, m));
    let _ = mvcur((i32::MAX, i32::MAX), (m, 5));
}

#[test]
fn mvcur_ovw_no_op_never_asks_the_hook() {
    let out = mvcur_ovw((5, 7), (5, 7), |_, _| -> Option<u8> { panic!("hook asked on a no-op move") });
    assert_eq!(out, Vec::<u8>::new());
}
