use ncurses_native::tools::{
    extract_padding, fmt_num, match_skip, normalize_sgr, parse_char_const, remove_sgr_param, sgr0_has_param, sgr_param,
    sort_acsc,
    split_fields, strip_pad, tc_escape_at, tc_escape_byte, tc_field, tc_xlat, tic_expand, try_translate, unescape,
};

#[test]
fn unescape_letter_and_octal() {
    assert_eq!(unescape(b"\\E[H"), vec![0x1b, b'[', b'H']);
    assert_eq!(unescape(b"\\n\\r\\t"), vec![0x0a, 0x0d, 0x09]);
    assert_eq!(unescape(b"\\0"), vec![0x80]);
    assert_eq!(unescape(b"\\200"), vec![0x80]);
    assert_eq!(unescape(b"\\201"), vec![0x81]);
    assert_eq!(unescape(b"\\177"), vec![0x7f]);
    assert_eq!(unescape(b"\\s"), vec![b' ']);
}

#[test]
fn unescape_caret_and_specials() {
    assert_eq!(unescape(b"^A"), vec![0x01]);
    assert_eq!(unescape(b"^?"), vec![0x7f]);
    assert_eq!(unescape(b"\\^\\\\\\,"), vec![b'^', b'\\', b',']);
}

#[test]
fn unescape_percent_operator_keeps_caret_literal() {
    assert_eq!(unescape(b"%^"), vec![b'%', b'^']);
    assert_eq!(unescape(b"%^A"), vec![b'%', b'^', b'A']);
    assert_eq!(unescape(b"%\\,"), vec![b'%', b',']);
    assert_eq!(unescape(b"a%^b"), vec![b'a', b'%', b'^', b'b']);
}

#[test]
fn letter_and_special_escapes() {
    assert_eq!(tic_expand(b"\x1b[m"), "\\E[m");
    assert_eq!(tic_expand(b"\n"), "\\n");
    assert_eq!(tic_expand(b"\r"), "\\r");
    assert_eq!(tic_expand(b"\x80"), "\\0");
    assert_eq!(tic_expand(b"a,b"), "a\\,b");
    assert_eq!(tic_expand(b"a^b"), "a\\^b");
    assert_eq!(tic_expand(b"a\\b"), "a\\\\b");
    assert_eq!(tic_expand(b"^\\"), "\\^\\");
}

#[test]
fn space_rule_first_or_trailing_run() {
    assert_eq!(tic_expand(b" a"), "\\sa");
    assert_eq!(tic_expand(b"a b"), "a b");
    assert_eq!(tic_expand(b"a "), "a\\s");
    assert_eq!(tic_expand(b"a  "), "a\\s\\s");
    assert_eq!(tic_expand(b"a  b"), "a  b");
}

#[test]
fn control_caret_vs_octal_length_split() {
    assert_eq!(tic_expand(b"\x10AAA"), "^PAAA");
    assert_eq!(tic_expand(b"\x10AAAA"), "\\020AAAA");
    assert_eq!(tic_expand(b"\x12\x03\x1eP@1"), "^R^C^^P@1");
    assert_eq!(tic_expand(b"AAAA\x100"), "AAAA^P0");
    assert_eq!(tic_expand(&[0x10; 11]), "\\020".repeat(11));
}

#[test]
fn percent_operator_takes_next_byte_verbatim() {
    assert_eq!(tic_expand(b"\x1b[%gh%{4}%^%Ph"), "\\E[%gh%{4}%^%Ph");
    assert_eq!(tic_expand(b"%\\"), "%\\");
    assert_eq!(tic_expand(b"%,"), "%\\,");
}

#[test]
fn acsc_sorts_pairs_by_glyph() {
    assert_eq!(sort_acsc(b"b2a1"), b"a1b2");
}

#[test]
fn numbers_hex_near_powers_of_two() {
    assert_eq!(fmt_num(8), "8");
    assert_eq!(fmt_num(255), "255");
    assert_eq!(fmt_num(256), "0x100");
    assert_eq!(fmt_num(0x10000), "0x10000");
    assert_eq!(fmt_num(496), "0x1f0");
    assert_eq!(fmt_num(768), "768");
    assert_eq!(fmt_num(1000), "1000");
}

#[test]
fn sort_acsc_keeps_order_of_equal_glyphs_and_odd_tail() {
    assert_eq!(sort_acsc(b"q1a2q3b"), b"a2bq1q3");
}

#[test]
fn unescape_then_expand_round_trips_plain_escapes() {
    let src = b"\\E[%i%p1%d;%p2%dH";
    assert_eq!(tic_expand(&unescape(src)), "\\E[%i%p1%d;%p2%dH");
}

#[test]
fn strip_pad_removes_padding_regions() {
    assert_eq!(strip_pad(b"\x1b[H$<5>\x1b[2J$<50/>"), b"\x1b[H\x1b[2J".to_vec());
    assert_eq!(strip_pad(b"a$<2"), b"a$<2".to_vec());
    assert_eq!(strip_pad(b"$>x$<>y"), b"$>xy".to_vec());
    assert_eq!(strip_pad(b""), Vec::<u8>::new());
}

#[test]
fn normalize_sgr_makes_reset_explicit() {
    assert_eq!(normalize_sgr(b"\x1b[m\x1b(B"), b"\x1b[0m\x1b(B".to_vec());
    assert_eq!(normalize_sgr(b"\x1b[0m"), b"\x1b[0m".to_vec());
    assert_eq!(normalize_sgr(b"x\x1b[m\x1b[m"), b"x\x1b[0m\x1b[0m".to_vec());
    assert_eq!(normalize_sgr(b"\x1b["), b"\x1b[".to_vec());
}

#[test]
fn sgr_param_of_single_sequence() {
    assert_eq!(sgr_param(b"\x1b[10m"), Some(b"10".to_vec()));
    assert_eq!(sgr_param(b"\x1b[0;10m"), Some(b"0;10".to_vec()));
    assert_eq!(sgr_param(b"\x1b[m"), None);
    assert_eq!(sgr_param(b"\x1b(B"), None);
    assert_eq!(sgr_param(b"\x1b[1xm"), None);
}

#[test]
fn sgr0_has_param_finds_each_form() {
    assert!(sgr0_has_param(b"\x1b[0;10m", b"10"));
    assert!(sgr0_has_param(b"\x1b[10m", b"10"));
    assert!(sgr0_has_param(b"\x1b[10;1m", b"10"));
    assert!(!sgr0_has_param(b"\x1b[0m\x1b(B", b"10"));
    assert!(!sgr0_has_param(b"\x1b[110m", b"10"));
}

#[test]
fn extract_padding_keeps_only_trailing_delay() {
    assert_eq!(extract_padding(b"\x1b[H$<5.5*/>"), (b"\x1b[H".to_vec(), "55*".to_string()));
    assert_eq!(extract_padding(b"\x1b[K$<3.5*/>"), (b"\x1b[K".to_vec(), "35*".to_string()));
    assert_eq!(extract_padding(b"a$<3>b"), (b"ab".to_vec(), String::new()));
    assert_eq!(extract_padding(b"a$<3>b$<10>"), (b"ab".to_vec(), "10".to_string()));
    assert_eq!(extract_padding(b"a$<3"), (b"a$<3".to_vec(), String::new()));
}

#[test]
fn parse_char_const_forms() {
    assert_eq!(parse_char_const(b"%'A'", 0), Some((65, 4)));
    assert_eq!(parse_char_const(b"xx%{65}y", 2), Some((65, 7)));
    assert_eq!(parse_char_const(b"%{0255}", 0), Some((255, 7)));
    assert_eq!(parse_char_const(b"%{256}", 0), None);
    assert_eq!(parse_char_const(b"%{99999999999}", 0), None);
    assert_eq!(parse_char_const(b"%{}", 0), None);
    assert_eq!(parse_char_const(b"%'A", 0), None);
    assert_eq!(parse_char_const(b"x", 0), None);
}

#[test]
fn match_skip_recognizes_conditional_add() {
    let v = b"%p1%p1%?%'x'%>%t%{8}%+%;";
    assert_eq!(match_skip(v, 0), Some((b'x', 8, 24)));
    assert_eq!(match_skip(b"%p1%p2%?%'x'%>%t%{8}%+%;", 0), None);
    assert_eq!(match_skip(b"%p1%d", 0), None);
    assert_eq!(match_skip(v, 1), None);
}

fn esc_byte(b: u8, islong: bool, next: Option<u8>) -> String {
    let mut s = String::new();
    tc_escape_byte(&mut s, b, islong, next);
    s
}

#[test]
fn tc_escape_byte_forms() {
    assert_eq!(esc_byte(0x1b, false, None), "\\E");
    assert_eq!(esc_byte(b':', false, None), "\\072");
    assert_eq!(esc_byte(b'^', false, None), "\\136");
    assert_eq!(esc_byte(0x7f, false, None), "\\177");
    assert_eq!(esc_byte(0x80, false, None), "\\0");
    assert_eq!(esc_byte(0xff, false, None), "\\377");
    assert_eq!(esc_byte(b'\\', false, None), "\\\\");
    assert_eq!(esc_byte(0x01, false, None), "^A");
    assert_eq!(esc_byte(0x01, true, None), "\\001");
    assert_eq!(esc_byte(0x01, true, Some(b'5')), "^A");
    assert_eq!(esc_byte(b'a', true, None), "a");
}

#[test]
fn tc_escape_at_spaces() {
    let v = b" a b  ";
    let at = |i: usize| {
        let mut s = String::new();
        tc_escape_at(&mut s, v, i, false);
        s
    };
    assert_eq!(at(0), "\\s");
    assert_eq!(at(1), "a");
    assert_eq!(at(2), " ");
    assert_eq!(at(4), "\\s");
    assert_eq!(at(5), "\\s");
}

#[test]
fn split_fields_keeps_escaped_commas() {
    assert_eq!(
        split_fields("xterm|X, am, cols#80, kf1=\\EOP, sep=a\\,b, ^,x,"),
        vec!["xterm|X", " am", " cols#80", " kf1=\\EOP", " sep=a\\,b", " ^,x"]
    );
    assert_eq!(split_fields("a,,b"), vec!["a", "", "b"]);
    assert_eq!(split_fields(""), Vec::<String>::new());
    assert_eq!(split_fields("tail\\"), vec!["tail\\"]);
}

#[test]
fn unescape_reads_back_tic_expand() {
    for v in [
        b"\x1b[H\x1b[2J".to_vec(),
        b" lead, trail^x\\y  ".to_vec(),
        b"\x01\x7f\x0e5\xe9\xff\n\r\t".to_vec(),
        vec![0x1b; 40],
    ] {
        assert_eq!(unescape(tic_expand(&v).as_bytes()), v);
    }
}

fn tr(v: &[u8]) -> Option<String> {
    try_translate(v, false)
}

#[test]
fn try_translate_parameter_codes() {
    assert_eq!(tr(b"\x1b[%i%p1%d;%p2%dH"), Some("\\E[%i%d;%dH".to_string()));
    assert_eq!(tr(b"\x1b&a%p2%dc%p1%dY"), Some("\\E&a%r%dc%dY".to_string()));
    assert_eq!(tr(b"%p1%02d"), Some("%2".to_string()));
    assert_eq!(tr(b"%p1%c"), Some("%.".to_string()));
    assert_eq!(tr(b"%p1%'x'%+%c"), Some("%+x".to_string()));
    assert_eq!(tr(b"%p1%{24}%+%c"), Some("%+^X".to_string()));
    assert_eq!(tr(b"%p1%p1%?%'x'%>%t%{8}%+%;%p1%d"), Some("%>x^H%d".to_string()));
    assert_eq!(tr(b"%%%z"), Some("%%%z".to_string()));
}

#[test]
fn try_translate_refuses_untranslatable() {
    assert_eq!(tr(b"%p3%d"), None);
    assert_eq!(tr(b"%?%p1%t;%;"), None);
    assert_eq!(tr(b"%p1%10d"), None);
    assert_eq!(tr(b"%p1%{256}%+%c"), None);
    assert_eq!(tr(b"abc%"), None);
}

#[test]
fn tc_xlat_translates_or_keeps_verbatim() {
    assert_eq!(tc_xlat(b"\x1b[H$<5>"), ("5\\E[H".to_string(), false));
    assert_eq!(tc_xlat(b"\x1b[%i%p1%d;%p2%dH"), ("\\E[%i%d;%dH".to_string(), false));
    assert_eq!(tc_xlat(b"%?%p1%t;%;"), ("%?%p1%t;%;".to_string(), true));
    assert_eq!(tc_xlat(b"a%,b^"), ("a%\\,b\\^".to_string(), true));
}

#[test]
fn tc_field_marks_obsolete_verbatim_values() {
    assert_eq!(tc_field("cm", b"\x1b[%i%p1%d;%p2%dH"), "cm=\\E[%i%d;%dH");
    assert_eq!(tc_field("cs", b"%?%p1%t;%;%p1%d"), "..cs=%?%p1%t;%;%p1%d");
    assert_eq!(tc_field("xx", b"%?%t"), "xx=%?%t");
}

#[test]
fn remove_sgr_param_from_first_listing_sequence() {
    assert_eq!(remove_sgr_param(b"\x1b[0;10m", b"10"), b"\x1b[0m".to_vec());
    assert_eq!(remove_sgr_param(b"\x1b[10m", b"10"), b"\x1b[m".to_vec());
    assert_eq!(remove_sgr_param(b"\x1b(B\x1b[0;10m", b"10"), b"\x1b(B\x1b[0m".to_vec());
    assert_eq!(remove_sgr_param(b"\x1b[1m\x1b[0;10m", b"10"), b"\x1b[1m\x1b[0m".to_vec());
    assert_eq!(remove_sgr_param(b"\x1b[0m", b"10"), b"\x1b[0m".to_vec());
    assert_eq!(remove_sgr_param(b"\x1b[0;1x0m", b"10"), b"\x1b[0;1x0m".to_vec());
}
