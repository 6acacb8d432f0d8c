use ncurses_native::color::Palette;
use ncurses_native::update::Screen;
use ncurses_native::window::attrs;
use ncurses_native::window::{char_width, Cell, WIDE_PAD};

fn blank_cell() -> Cell {
    Cell::plain(' ', 0)
}

fn grid(rows: i32, cols: i32) -> Vec<Cell> {
    vec![blank_cell(); (rows * cols) as usize]
}

fn draw(g: &mut [Cell], cols: i32, row: i32, col: i32, s: &str) -> (i32, i32) {
    let mut c = col;
    for &b in s.as_bytes() {
        g[(row * cols + c) as usize] = Cell::plain(b as char, 0);
        c += 1;
    }
    (row, c)
}

fn full_screen(rows: i32, cols: i32) -> Vec<Cell> {
    let mut g = grid(rows, cols);
    for r in 0..rows {
        draw(&mut g, cols, r, 0, &format!("line {r:02} content"));
    }
    g
}

fn shift_up(g: &[Cell], rows: i32, cols: i32, n: i32) -> Vec<Cell> {
    let mut out = grid(rows, cols);
    for r in 0..rows - n {
        let (a, b) = ((r * cols) as usize, ((r + n) * cols) as usize);
        out[a..a + cols as usize].copy_from_slice(&g[b..b + cols as usize]);
    }
    out
}

fn shift_down(g: &[Cell], rows: i32, cols: i32, n: i32) -> Vec<Cell> {
    let mut out = grid(rows, cols);
    for r in n..rows {
        let (a, b) = ((r * cols) as usize, ((r - n) * cols) as usize);
        out[a..a + cols as usize].copy_from_slice(&g[b..b + cols as usize]);
    }
    out
}

fn band_up(g: &[Cell], cols: i32, top: i32, bot: i32, n: i32) -> Vec<Cell> {
    let mut out = g.to_vec();
    let w = cols as usize;
    for r in top..=bot {
        let a = (r * cols) as usize;
        if r + n <= bot {
            let b = ((r + n) * cols) as usize;
            let src = g[b..b + w].to_vec();
            out[a..a + w].copy_from_slice(&src);
        } else {
            out[a..a + w].fill(blank_cell());
        }
    }
    out
}

fn band_down(g: &[Cell], cols: i32, top: i32, bot: i32, n: i32) -> Vec<Cell> {
    let mut out = g.to_vec();
    let w = cols as usize;
    for r in top..=bot {
        let a = (r * cols) as usize;
        if r - n >= top {
            let b = ((r - n) * cols) as usize;
            let src = g[b..b + w].to_vec();
            out[a..a + w].copy_from_slice(&src);
        } else {
            out[a..a + w].fill(blank_cell());
        }
    }
    out
}

#[test]
fn first_paint_two_lines() {
    let (rows, cols) = (24, 80);
    let mut g = grid(rows, cols);
    draw(&mut g, cols, 2, 5, "hello world");
    let (cy, cx) = draw(&mut g, cols, 4, 0, "second line here");
    let mut s = Screen::new(rows, cols);
    let out = s.doupdate(&g, cy, cx);
    assert_eq!(
        out,
        b"\x1b[H\x1b[2J\x1b[3;6Hhello world\r\x1b[5dsecond line here".to_vec()
    );
}

#[test]
fn overwrite_same_length() {
    let (rows, cols) = (24, 80);
    let mut g = grid(rows, cols);
    let (cy, cx) = draw(&mut g, cols, 2, 5, "hello");
    let mut s = Screen::new(rows, cols);
    let _ = s.doupdate(&g, cy, cx);
    let mut g2 = grid(rows, cols);
    let (cy2, cx2) = draw(&mut g2, cols, 2, 5, "HELLO");
    let out = s.doupdate(&g2, cy2, cx2);
    assert_eq!(out, b"\x1b[6GHELLO".to_vec());
}

#[test]
fn no_change_is_empty_then_park() {
    let (rows, cols) = (24, 80);
    let mut g = grid(rows, cols);
    let (cy, cx) = draw(&mut g, cols, 1, 1, "abc");
    let mut s = Screen::new(rows, cols);
    let _ = s.doupdate(&g, cy, cx);
    let out = s.doupdate(&g, cy, cx);
    assert_eq!(out, b"".to_vec());
}

#[test]
fn colored_background_first_paint_sets_color_before_clear() {
    let (rows, cols) = (24, 80);
    let mut palette = Palette::new();
    palette.init_pair(2, 2, 4);
    let bg = Cell::plain(' ', 2 << 8);
    let mut sp = Screen::new(rows, cols);
    let plain = sp.doupdate(&grid(rows, cols), 0, 0);
    assert!(
        plain.starts_with(b"\x1b[H\x1b[2J"),
        "plain should clear first: {plain:?}"
    );
    let mut sc = Screen::with_palette(rows, cols, palette);
    sc.start_color();
    let g: Vec<Cell> = vec![bg; (rows * cols) as usize];
    let colored = sc.doupdate(&g, 0, 0);
    assert!(
        !colored.starts_with(b"\x1b[H\x1b[2J"),
        "colored should set color first"
    );
    let clr_at = colored
        .windows(7)
        .position(|w| w == b"\x1b[H\x1b[2J")
        .expect("clear present");
    assert!(clr_at > 0, "color SGR precedes the clear");
    assert_eq!(colored[0], 0x1b);
}

#[test]
fn ovw_forward_move_overwrites_instead_of_motion() {
    let (rows, cols) = (24, 80);
    let mut g = grid(rows, cols);
    let (cy, cx) = draw(&mut g, cols, 8, 0, "short");
    let mut s = Screen::new(rows, cols);
    let _ = s.doupdate(&g, cy, cx);
    let mut g2 = grid(rows, cols);
    let (cy2, cx2) = draw(&mut g2, cols, 8, 0, "short and more");
    let out = s.doupdate(&g2, cy2, cx2);
    assert_eq!(out, b" and more".to_vec());
}

#[test]
fn widechar_single_width_utf8() {
    let (rows, cols) = (24, 80);
    let mut g = grid(rows, cols);
    for (k, ch) in "café αβγ →".chars().enumerate() {
        g[(cols + 2 + k as i32) as usize] = Cell::plain(ch, 0);
    }
    let mut s = Screen::new(rows, cols);
    let out = s.doupdate(&g, 1, 2 + "café αβγ →".chars().count() as i32);
    let expected =
        b"\x1b[H\x1b[2J\x1b[2d  caf\xc3\xa9 \xce\xb1\xce\xb2\xce\xb3 \xe2\x86\x92".to_vec();
    assert_eq!(out, expected);
}

#[test]
fn widechar_no_rep_for_multibyte() {
    let (rows, cols) = (24, 80);
    let mut g = grid(rows, cols);
    for k in 0..20 {
        g[(9 * cols + k) as usize] = Cell::plain('ω', 0);
    }
    let mut s = Screen::new(rows, cols);
    let out = s.doupdate(&g, 9, 20);
    let mut expected = b"\x1b[H\x1b[2J\x1b[10d".to_vec();
    for _ in 0..20 {
        expected.extend_from_slice("ω".as_bytes());
    }
    assert_eq!(out, expected);
}

#[test]
fn combining_marks_emit_after_base() {
    let (rows, cols) = (24, 80);
    let mut g = grid(rows, cols);
    let mut e = Cell::plain('e', 0);
    e.push_comb('\u{0301}');
    g[0] = e;
    let mut a = Cell::plain('a', 0);
    a.push_comb('\u{0301}');
    a.push_comb('\u{0308}');
    g[1] = a;
    let mut s = Screen::new(rows, cols);
    let out = s.doupdate(&g, 0, 2);
    let expected = b"\x1b[H\x1b[2Je\xcc\x81a\xcc\x81\xcc\x88".to_vec();
    assert_eq!(out, expected);
}

#[test]
fn widechar_double_width_cjk() {
    let (rows, cols) = (24, 80);
    let mut g = grid(rows, cols);
    let mut c = 0i32;
    for ch in "a世b界c".chars() {
        g[(12 * cols + c) as usize] = Cell::plain(ch, 0);
        if char_width(ch) == 2 {
            g[(12 * cols + c + 1) as usize] = Cell::plain(WIDE_PAD, 0);
            c += 2;
        } else {
            c += 1;
        }
    }
    let mut s = Screen::new(rows, cols);
    let out = s.doupdate(&g, 12, c);
    let expected = b"\x1b[H\x1b[2J\x1b[13da\xe4\xb8\x96b\xe7\x95\x8cc".to_vec();
    assert_eq!(out, expected);
}

#[test]
fn bottom_right_corner_disables_auto_margin() {
    let (rows, cols) = (24, 80);
    let mut g = grid(rows, cols);
    g[((rows - 1) * cols + (cols - 1)) as usize] = Cell::plain('Z', 0);
    let mut s = Screen::new(rows, cols);
    let out = s.doupdate(&g, rows - 1, cols - 1);
    let txt = String::from_utf8_lossy(&out);
    assert!(txt.contains("\x1b[?7lZ\x1b[?7h"), "got {txt:?}");
}

#[test]
fn rep_coalesces_long_identical_run() {
    let (rows, cols) = (24, 80);
    let mut g = grid(rows, cols);
    let (cy, cx) = draw(&mut g, cols, 10, 0, &"a".repeat(30));
    let mut s = Screen::new(rows, cols);
    let out = s.doupdate(&g, cy, cx);
    assert_eq!(out, b"\x1b[H\x1b[2J\x1b[11da\x1b[29b".to_vec());
}

#[test]
fn acsc_remaps_altcharset_glyph() {
    let (rows, cols) = (24, 80);
    let mut g = grid(rows, cols);
    g[0] = Cell::plain('q', attrs::ALTCHARSET);
    let mut s = Screen::new(rows, cols);
    let out = s.doupdate(&g, 0, 1);
    assert!(out.contains(&0x71) && !out.contains(&0xc4), "got {out:?}");
    let mut s2 = Screen::new(rows, cols);
    s2.set_acsc(b"q\xc4");
    let out2 = s2.doupdate(&g, 0, 1);
    assert!(
        out2.contains(&0xc4) && !out2.contains(&0x71),
        "got {out2:?}"
    );
}

#[test]
fn scroll_full_screen_up_by_one() {
    let (rows, cols) = (24, 80);
    let g = full_screen(rows, cols);
    let mut s = Screen::new(rows, cols);
    let _ = s.doupdate(&g, rows - 1, 0);
    let g2 = shift_up(&g, rows, cols, 1);
    let out = s.doupdate(&g2, rows - 1, 0);
    assert_eq!(out, b"\n".to_vec());
    assert_eq!(s.doupdate(&g2, rows - 1, 0), b"".to_vec());
}

#[test]
fn scroll_full_screen_up_by_three() {
    let (rows, cols) = (24, 80);
    let g = full_screen(rows, cols);
    let mut s = Screen::new(rows, cols);
    let _ = s.doupdate(&g, rows - 1, 0);
    let g2 = shift_up(&g, rows, cols, 3);
    let out = s.doupdate(&g2, rows - 1, 0);
    assert_eq!(out, b"\x1b[3S".to_vec());
    assert_eq!(s.doupdate(&g2, rows - 1, 0), b"".to_vec());
}

#[test]
fn scroll_full_screen_down_by_one() {
    let (rows, cols) = (24, 80);
    let g = full_screen(rows, cols);
    let mut s = Screen::new(rows, cols);
    let _ = s.doupdate(&g, 0, 0);
    let g2 = shift_down(&g, rows, cols, 1);
    let out = s.doupdate(&g2, 0, 0);
    assert_eq!(out, b"\x1bM".to_vec());
    assert_eq!(s.doupdate(&g2, 0, 0), b"".to_vec());
}

#[test]
fn scroll_region_mid_up_uses_csr() {
    let (rows, cols) = (24, 80);
    let g = full_screen(rows, cols);
    let mut s = Screen::new(rows, cols);
    let _ = s.doupdate(&g, 0, 0);
    let g2 = band_up(&g, cols, 5, 15, 1);
    let out = s.doupdate(&g2, 15, 0);
    assert_eq!(out, b"\x1b[6;16r\x1b[16;1H\n\x1b[1;24r\x1b[16;1H".to_vec());
    assert_eq!(s.doupdate(&g2, 15, 0), b"".to_vec());
}

#[test]
fn scroll_region_mid_down_uses_csr() {
    let (rows, cols) = (24, 80);
    let g = full_screen(rows, cols);
    let mut s = Screen::new(rows, cols);
    let _ = s.doupdate(&g, 0, 0);
    let g2 = band_down(&g, cols, 5, 15, 1);
    let out = s.doupdate(&g2, 15, 0);
    assert_eq!(
        out,
        b"\x1b[6;16r\x1b[6;1H\x1bM\x1b[1;24r\x1b[16;1H".to_vec()
    );
    assert_eq!(s.doupdate(&g2, 15, 0), b"".to_vec());
}

#[test]
fn scroll_region_bottom_anchored_uses_dl_il() {
    let (rows, cols) = (24, 80);
    let g = full_screen(rows, cols);
    let mut s = Screen::new(rows, cols);
    let _ = s.doupdate(&g, 13, 0);
    let up = band_up(&g, cols, 13, 23, 1);
    let out = s.doupdate(&up, 23, 0);
    assert!(out.starts_with(b"\x1b[M"), "expected dl1 first, got {out:?}");
    assert_eq!(s.doupdate(&up, 23, 0), b"".to_vec());
    let mut s2 = Screen::new(rows, cols);
    let _ = s2.doupdate(&g, 13, 0);
    let down = band_down(&g, cols, 13, 23, 1);
    let out2 = s2.doupdate(&down, 23, 0);
    assert!(out2.starts_with(b"\x1b[L"), "expected il1 first, got {out2:?}");
    assert_eq!(s2.doupdate(&down, 23, 0), b"".to_vec());
}

#[test]
fn scroll_two_independent_bands() {
    let (rows, cols) = (24, 80);
    let g = full_screen(rows, cols);
    let mut s = Screen::new(rows, cols);
    let _ = s.doupdate(&g, 0, 0);
    let g2 = band_up(&band_up(&g, cols, 2, 7, 1), cols, 14, 19, 1);
    let out = s.doupdate(&g2, 23, 0);
    assert_eq!(
        out,
        b"\x1b[3;8r\x1b[8;1H\n\x1b[1;24r\x1b[15;20r\x1b[20;1H\n\x1b[1;24r\x1b[24;1H".to_vec()
    );
    assert_eq!(s.doupdate(&g2, 23, 0), b"".to_vec());
}

#[test]
fn scroll_band_plus_unrelated_edit() {
    let (rows, cols) = (24, 80);
    let g = full_screen(rows, cols);
    let mut s = Screen::new(rows, cols);
    let _ = s.doupdate(&g, 0, 0);
    let mut g2 = band_up(&g, cols, 14, 19, 1);
    draw(&mut g2, cols, 2, 0, "EDITED ROW TWO");
    for c in g2[(2 * cols + 14) as usize..(2 * cols + 80) as usize].iter_mut() {
        *c = blank_cell();
    }
    let out = s.doupdate(&g2, 23, 0);
    assert!(
        out.starts_with(b"\x1b[15;20r\x1b[20;1H\n\x1b[1;24r"),
        "got {out:?}"
    );
    let scroll_end = b"\x1b[15;20r\x1b[20;1H\n\x1b[1;24r".len();
    assert!(
        out[scroll_end..].windows(14).any(|w| w == b"EDITED ROW TWO"),
        "edit should follow the scroll, got {out:?}"
    );
    assert_eq!(s.doupdate(&g2, 23, 0), b"".to_vec());
}

#[test]
fn leaveok_skips_park_and_repeat_is_silent() {
    let (rows, cols) = (24, 80);
    let mut g = grid(rows, cols);
    draw(&mut g, cols, 3, 0, "abc");
    let mut s = Screen::new(rows, cols);
    s.set_leaveok(true);
    let first = s.doupdate(&g, 0, 0);
    assert_eq!(first, b"\x1b[H\x1b[2J\x1b[4dabc".to_vec());
    assert_eq!(s.doupdate(&g, 0, 0), b"".to_vec());
}

#[test]
fn clearok_repaints_from_scratch() {
    let (rows, cols) = (24, 80);
    let mut g = grid(rows, cols);
    let (cy, cx) = draw(&mut g, cols, 0, 0, "xyz");
    let mut s = Screen::new(rows, cols);
    let first = s.doupdate(&g, cy, cx);
    assert_eq!(s.doupdate(&g, cy, cx), b"".to_vec());
    s.clearok();
    let again = s.doupdate(&g, cy, cx);
    assert_eq!(again, first);
}

#[test]
fn ech_erases_long_blank_run_inside_span() {
    let (rows, cols) = (24, 80);
    let mut g = grid(rows, cols);
    draw(&mut g, cols, 5, 0, &"x".repeat(40));
    let mut s = Screen::new(rows, cols);
    let _ = s.doupdate(&g, 5, 40);
    let mut g2 = grid(rows, cols);
    draw(&mut g2, cols, 5, 0, "x");
    draw(&mut g2, cols, 5, 39, "x");
    let out = s.doupdate(&g2, 5, 40);
    assert!(out.windows(5).any(|w| w == b"\x1b[38X"), "got {out:?}");
    assert_eq!(s.doupdate(&g2, 5, 40), b"".to_vec());
}
