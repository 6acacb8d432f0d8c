use ncurses_native::window::{attrs, char_width, color_pair, pair_number, Cell, Window, WIDE_PAD};

fn rows_to_strings(w: &Window) -> Vec<String> {
    w.grid().iter().map(|r| String::from_utf8_lossy(r).into_owned()).collect()
}

#[test]
fn plain_write() {
    let mut w = Window::new(4, 10);
    w.addstr(b"HELLO");
    assert_eq!(rows_to_strings(&w)[0], "HELLO     ");
    assert_eq!(w.getyx(), (0, 5));
}

#[test]
fn wraps_at_right_margin() {
    let mut w = Window::new(4, 10);
    w.addstr(b"ABCDEFGHIJKL");
    let g = rows_to_strings(&w);
    assert_eq!(g[0], "ABCDEFGHIJ");
    assert_eq!(g[1], "KL        ");
}

#[test]
fn newline_clears_to_eol() {
    let mut w = Window::new(3, 8);
    w.addstr(b"ABCDEF");
    w.move_to(0, 2);
    w.addch(b'\n');
    assert_eq!(rows_to_strings(&w)[0], "AB      ");
    assert_eq!(w.getyx(), (1, 0));
}

#[test]
fn bottom_right_clips_without_scroll() {
    let mut w = Window::new(4, 10);
    w.move_to(3, 7);
    w.addstr(b"PQRS");
    assert_eq!(rows_to_strings(&w)[3], "       PQR");
}

#[test]
fn mvaddstr_positions() {
    let mut w = Window::new(4, 10);
    w.mvaddstr(2, 3, b"XY");
    assert_eq!(rows_to_strings(&w)[2], "   XY     ");
}

#[test]
fn attributes_on_cells() {
    let mut w = Window::new(1, 4);
    w.attrset(attrs::BOLD);
    w.addstr(b"AB");
    w.attroff(attrs::BOLD);
    w.addstr(b"C");
    assert_eq!(w.cell(0, 0).attr, 0x20_0000);
    assert_eq!(w.cell(0, 1).attr, 0x20_0000);
    assert_eq!(w.cell(0, 2).attr, 0);
    assert_eq!(w.cell(0, 0).ch, 'A');
}

#[test]
fn addchstr_writes_chtype_array() {
    let mut w = Window::new(2, 6);
    w.move_to(0, 1);
    w.addchstr(&[(b'A', 0), (b'B', attrs::BOLD), (b'C', 0)]);
    assert_eq!(w.cell(0, 1).ch, 'A');
    assert_eq!(w.cell(0, 2), Cell::plain('B', attrs::BOLD));
    assert_eq!(w.cell(0, 3).ch, 'C');
    assert_eq!(w.getyx(), (0, 1));
    let mut w = Window::new(2, 6);
    w.move_to(0, 4);
    w.addchstr(&[(b'X', 0), (b'Y', 0), (b'Z', 0), (b'W', 0)]);
    assert_eq!(w.cell(0, 4).ch, 'X');
    assert_eq!(w.cell(0, 5).ch, 'Y');
}

#[test]
fn color_pairs() {
    assert_eq!(color_pair(1), 0x100);
    assert_eq!(color_pair(2), 0x200);
    assert_eq!(pair_number(0x200 | attrs::BOLD), 2);
    let mut w = Window::new(1, 4);
    w.color_set(1);
    w.addstr(b"AB");
    w.attron(color_pair(2));
    w.addstr(b"C");
    assert_eq!(w.cell(0, 0).attr, 0x100);
    assert_eq!(w.cell(0, 2).attr, 0x200);
}

#[test]
fn chgat_changes_attr_not_chars() {
    let mut w = Window::new(1, 4);
    w.addstr(b"WXYZ");
    w.move_to(0, 1);
    w.chgat(2, attrs::UNDERLINE);
    assert_eq!(rows_to_strings(&w)[0], "WXYZ");
    assert_eq!(w.cell(0, 1).attr, 0x2_0000);
    assert_eq!(w.cell(0, 2).attr, 0x2_0000);
    assert_eq!(w.cell(0, 3).attr, 0);
}

#[test]
fn borders_and_lines() {
    let mut w = Window::new(4, 8);
    w.draw_box(0, 0);
    let g = rows_to_strings(&w);
    assert_eq!(g[0], "lqqqqqqk");
    assert_eq!(g[1], "x      x");
    assert_eq!(g[3], "mqqqqqqj");

    let mut w = Window::new(4, 8);
    w.draw_box(b'|', b'-');
    assert_eq!(rows_to_strings(&w)[0], "l------k");

    let mut w = Window::new(4, 8);
    w.move_to(1, 1);
    w.hline(b'-', 4);
    assert_eq!(rows_to_strings(&w)[1], " ----   ");
    assert_eq!(w.getyx(), (1, 1));
}

#[test]
fn insert_delete_char() {
    let mut w = Window::new(3, 8);
    w.mvaddstr(0, 0, b"ABCDEF");
    w.move_to(0, 2);
    w.insch(b'X');
    assert_eq!(rows_to_strings(&w)[0], "ABXCDEF ");
    assert_eq!(w.getyx(), (0, 2));

    let mut w = Window::new(3, 8);
    w.mvaddstr(0, 0, b"ABCDEF");
    w.move_to(0, 2);
    w.delch();
    assert_eq!(rows_to_strings(&w)[0], "ABDEF   ");

    let mut w = Window::new(3, 8);
    w.mvaddstr(0, 0, b"ABCDEF");
    w.move_to(0, 2);
    w.insstr(b"XY");
    assert_eq!(rows_to_strings(&w)[0], "ABXYCDEF");
}

#[test]
fn insert_delete_line() {
    let mut w = Window::new(3, 8);
    w.mvaddstr(0, 0, b"r0");
    w.mvaddstr(1, 0, b"r1");
    w.mvaddstr(2, 0, b"r2");
    w.move_to(1, 0);
    w.insertln();
    let g = rows_to_strings(&w);
    assert_eq!((g[0].as_str(), g[1].as_str(), g[2].as_str()), ("r0      ", "        ", "r1      "));

    let mut w = Window::new(3, 8);
    w.mvaddstr(0, 0, b"r0");
    w.mvaddstr(1, 0, b"r1");
    w.mvaddstr(2, 0, b"r2");
    w.move_to(1, 0);
    w.deleteln();
    let g = rows_to_strings(&w);
    assert_eq!((g[0].as_str(), g[1].as_str(), g[2].as_str()), ("r0      ", "r2      ", "        "));
}

#[test]
fn double_width_cell_model() {
    assert_eq!(char_width('世'), 2);
    assert_eq!(char_width('Ａ'), 2);
    assert_eq!(char_width('a'), 1);
    assert_eq!(char_width('é'), 1);
    let mut w = Window::new(2, 10);
    w.addstr("a世b".as_bytes());
    assert_eq!(w.cell(0, 0).ch, 'a');
    assert_eq!(w.cell(0, 1).ch, '世');
    assert_eq!(w.cell(0, 2).ch, WIDE_PAD);
    assert_eq!(w.cell(0, 3).ch, 'b');
    assert_eq!(w.getyx(), (0, 4));
}

#[test]
fn wscrl_shifts_cells() {
    let mut w = Window::new(5, 8);
    for (y, s) in ["r0", "r1", "r2", "r3", "r4"].iter().enumerate() {
        w.mvaddstr(y as i32, 0, s.as_bytes());
    }
    assert!(!w.scroll(2));
    w.set_scrollok(true);
    assert!(w.scroll(2));
    let g = rows_to_strings(&w);
    assert_eq!(g[0], "r2      ");
    assert_eq!(g[2], "r4      ");
    assert_eq!(g[3], "        ");
    assert_eq!(g[4], "        ");
    w.scroll(-1);
    let g = rows_to_strings(&w);
    assert_eq!(g[0], "        ");
    assert_eq!(g[1], "r2      ");
    assert_eq!(g[3], "r4      ");
}

#[test]
fn wscrl_respects_scroll_region() {
    let mut w = Window::new(6, 4);
    for y in 0..6 {
        w.mvaddstr(y, 0, format!("r{y}").as_bytes());
    }
    w.set_scrollok(true);
    assert!(w.set_scrreg(1, 4));
    w.scroll(1);
    let g = rows_to_strings(&w);
    assert_eq!(g[0], "r0  ");
    assert_eq!(g[1], "r2  ");
    assert_eq!(g[3], "r4  ");
    assert_eq!(g[4], "    ");
    assert_eq!(g[5], "r5  ");
}

#[test]
fn mouse_geometry() {
    let w = Window::newwin(5, 10, 2, 3);
    assert!(w.wenclose(2, 3) && w.wenclose(6, 12));
    assert!(!w.wenclose(1, 3) && !w.wenclose(7, 7) && !w.wenclose(2, 13));
    assert_eq!(w.mouse_trafo(1, 2, true), Some((3, 5)));
    assert_eq!(w.mouse_trafo(4, 7, false), Some((2, 4)));
    assert_eq!(w.mouse_trafo(0, 0, false), None);
}

#[test]
fn geometry() {
    let mut w = Window::newwin(5, 20, 3, 7);
    assert_eq!(w.getbegyx(), (3, 7));
    assert_eq!(w.getmaxyx(), (5, 20));
    w.mvwin(1, 2);
    assert_eq!(w.getbegyx(), (1, 2));
    let c = w.derwin(2, 5, 1, 1);
    assert_eq!(c.getbegyx(), (2, 3));
    assert_eq!(c.getparyx(), (1, 1));
    assert!(c.is_subwin() && !w.is_subwin());
}

#[test]
fn combining_marks_attach_to_base() {
    let mut w = Window::newwin(2, 20, 0, 0);
    w.addstr("e\u{0301}llo".as_bytes());
    assert_eq!(w.getyx(), (0, 4));
    let e = w.cell(0, 0);
    assert_eq!(e.ch, 'e');
    assert_eq!(e.comb[0], '\u{0301}');
    assert_eq!(e.comb[1], '\0');
    assert_eq!(w.cell(0, 1).ch, 'l');
    let mut w2 = Window::newwin(2, 20, 0, 0);
    w2.addstr("a\u{0301}\u{0308}".as_bytes());
    let a = w2.cell(0, 0);
    assert_eq!((a.ch, a.comb[0], a.comb[1]), ('a', '\u{0301}', '\u{0308}'));
    assert_eq!(w2.getyx(), (0, 1));
}

#[test]
fn invalid_utf8_bytes_are_latin1_cells() {
    let mut w = Window::new(1, 6);
    w.addstr(&[0x41, 0xe9, 0x42, 0xc3]);
    assert_eq!(w.cell(0, 1).ch, '\u{e9}');
    assert_eq!(w.inch(0, 1), 0xe9);
    assert_eq!(w.cell(0, 3).ch, '\u{c3}');
    assert_eq!(w.getyx(), (0, 4));
}

#[test]
fn blits_copy_overlap_and_skip_background() {
    let mut src = Window::newwin(2, 3, 1, 1);
    src.mvaddstr(0, 0, b"ab");
    let mut dst = Window::new(4, 4);
    src.overwrite_into(&mut dst);
    assert_eq!(rows_to_strings(&dst)[1], " ab ");
    let mut dst2 = Window::new(4, 4);
    dst2.mvaddstr(1, 0, b"WXYZ");
    src.overlay(&mut dst2);
    assert_eq!(rows_to_strings(&dst2)[1], "WabZ");
    let mut dst3 = Window::new(4, 4);
    dst3.mvaddstr(1, 0, b"WXYZ");
    src.overwrite(&mut dst3);
    assert_eq!(rows_to_strings(&dst3)[1], "Wab ");
}

#[test]
fn resize_keeps_top_left() {
    let mut w = Window::new(3, 4);
    w.mvaddstr(0, 0, b"ABCD");
    w.move_to(2, 3);
    w.wresize(2, 2);
    assert_eq!(rows_to_strings(&w), vec!["AB".to_string(), "  ".to_string()]);
    assert_eq!(w.getyx(), (1, 1));
}

#[test]
fn erase_and_background() {
    let mut w = Window::new(2, 3);
    w.addstr(b"xy");
    w.bkgdset(b'.', attrs::BOLD);
    assert_eq!(w.cell(0, 2), Cell::plain('.', attrs::BOLD));
    assert_eq!(w.cell(0, 0).attr, attrs::BOLD);
    w.erase();
    assert_eq!(rows_to_strings(&w)[0], "...");
    assert_eq!(w.getyx(), (0, 0));
}

#[test]
fn delch_after_insch_restores_line_but_last_cell() {
    let mut w = Window::new(3, 5);
    w.mvaddstr(1, 0, b"ABCDE");
    w.move_to(1, 1);
    let w0 = w.clone();
    w.insch(b'x');
    w.delch();
    for y in 0..3 {
        for x in 0..5 {
            let want = if (y, x) == (1, 4) { Cell::plain(' ', 0) } else { w0.cell(y, x) };
            assert_eq!(w.cell(y, x), want);
        }
    }
    assert_eq!(w.getyx(), (1, 1));
}

#[test]
fn deleteln_after_insertln_blanks_only_bottom_row() {
    let mut w = Window::new(3, 2);
    w.mvaddstr(0, 0, b"AB");
    w.mvaddstr(1, 0, b"CD");
    w.mvaddstr(2, 0, b"EF");
    w.move_to(1, 0);
    let w0 = w.clone();
    w.insertln();
    w.deleteln();
    assert_eq!(rows_to_strings(&w), vec!["AB", "CD", "  "]);
    assert_eq!(w.getyx(), w0.getyx());
}
