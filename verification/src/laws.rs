//! Properties that relate several operations of the library, stated over the models the
//! operations' own contracts use.

use vstd::prelude::*;
use crate::color::pair_content_spec;
use crate::terminfo::tparm::{binop, printf_spec, tp_op, tp_step, tparm_spec, TpState, PV};
use crate::update::shift_v;
use crate::vid::{effective_mode, set_v, VidV};
use crate::tools::{
    caret_control, ch_of, esc_byte, expand_from, is_oct, nonzero, oct3, oct_len, oct_val, printable, spaces_from,
    unescape_from,
};
use crate::window::{blank, delch_v, deleteln_v, idx, insch_v, insertln_v, wf_v, Cell, WindowV};

verus! {

/// Defining colour pair `p >= 1` as `(fg, bg)` and then asking for its content gives back
/// `(fg, bg)` (`init_pair` then `pair_content`).
pub proof fn pair_read_after_write(m: Map<i16, (i16, i16)>, p: i16, fg: i16, bg: i16)
    requires
        p >= 1,
    ensures
        pair_content_spec(m.insert(p, (fg, bg)), p) == (fg, bg),
{
}

/// Once the SGR engine has moved to a mode, asking for the same mode again emits nothing
/// (`vidputs` is silent on an unchanged state).
pub proof fn repeated_attribute_change_is_silent(v: VidV, mode: u32)
    ensures
        set_v(VidV { prev: effective_mode(v, mode), ..v }, mode) == Seq::<u8>::empty(),
{
    assert(effective_mode(VidV { prev: effective_mode(v, mode), ..v }, mode) == effective_mode(v, mode));
}

/// `tgoto(cap, col, row)` expands `cap` exactly as `tparm(cap, row, col)` does: the termcap
/// call takes its coordinates column first.
pub proof fn tgoto_is_tparm_with_row_first(cap: Seq<u8>, col: i32, row: i32)
    ensures
        tparm_spec(cap, seq![PV::Int(row), PV::Int(col)]) == tparm_spec(
            cap,
            seq![row, col].map_values(|v: i32| PV::Int(v)),
        ),
{
    assert(seq![PV::Int(row), PV::Int(col)] =~= seq![row, col].map_values(|v: i32| PV::Int(v)));
}

/// A hardware scroll of rows `[top, bot]` leaves every other row of the physical screen as
/// it was, and a row inside the band shows the row `n` away from it or a blank row.
pub proof fn scroll_keeps_rows_outside_band(g: Seq<Seq<Cell>>, n: int, top: int, bot: int, cols: int, r: int)
    requires
        0 <= r < g.len(),
    ensures
        (r < top || r > bot) ==> shift_v(g, n, top, bot, cols)[r] == g[r],
        top <= r <= bot && top <= r + n <= bot ==> shift_v(g, n, top, bot, cols)[r] == g[r + n],
{
}

/// Inserting a character at the cursor and then deleting the character there gives the window
/// back, except that the last cell of the cursor's line (pushed off by the insert) is blank.
pub proof fn delch_undoes_insch(w: WindowV, ch: u8)
    requires
        wf_v(w),
    ensures
        delch_v(insch_v(w, ch)) == (WindowV {
            cells: w.cells.update(idx(w.cols, w.cury + 1, 0) - 1, blank()),
            ..w
        }),
{
    let lo = idx(w.cols, w.cury, w.curx);
    let hi = idx(w.cols, w.cury + 1, 0);
    assert((w.cury + 1) * w.cols == w.cury * w.cols + w.cols) by (nonlinear_arith);
    assert((w.cury + 1) * w.cols <= w.rows * w.cols) by (nonlinear_arith)
        requires
            w.cury + 1 <= w.rows,
            w.cols >= 1,
    ;
    assert(delch_v(insch_v(w, ch)).cells =~= w.cells.update(hi - 1, blank()));
    assert(delch_v(insch_v(w, ch)) =~= (WindowV { cells: w.cells.update(hi - 1, blank()), ..w }));
}

/// Inserting a line at the cursor and then deleting the line there gives the window back,
/// except that its bottom row (pushed off by the insert) is blank.
pub proof fn deleteln_undoes_insertln(w: WindowV)
    requires
        wf_v(w),
    ensures
        deleteln_v(insertln_v(w)) == (WindowV {
            cells: Seq::new(
                w.cells.len(),
                |i: int| if i >= idx(w.cols, w.rows - 1, 0) { blank() } else { w.cells[i] },
            ),
            ..w
        }),
{
    let top = idx(w.cols, w.cury, 0);
    let nxt = idx(w.cols, w.cury + 1, 0);
    let last = idx(w.cols, w.rows - 1, 0);
    assert((w.cury + 1) * w.cols == w.cury * w.cols + w.cols) by (nonlinear_arith);
    assert(w.cury * w.cols <= (w.rows - 1) * w.cols) by (nonlinear_arith)
        requires
            0 <= w.cury <= w.rows - 1,
            w.cols >= 1,
    ;
    assert((w.rows - 1) * w.cols + w.cols == w.rows * w.cols) by (nonlinear_arith);
    let want = Seq::new(w.cells.len(), |i: int| if i >= last { blank() } else { w.cells[i] });
    assert forall|i: int| 0 <= i < w.cells.len() implies #[trigger] deleteln_v(insertln_v(w)).cells[i] == want[i] by {
        if top <= i < last {
            assert(insertln_v(w).cells[i + w.cols] == w.cells[i]);
        }
    }
    assert(deleteln_v(insertln_v(w)).cells =~= want);
    assert(deleteln_v(insertln_v(w)) =~= (WindowV {
        cells: Seq::new(w.cells.len(), |i: int| if i >= last { blank() } else { w.cells[i] }),
        ..w
    }));
}

/// The bytes of ASCII text.
pub open spec fn bytes_of(c: Seq<char>) -> Seq<u8> {
    c.map_values(|x: char| x as u8)
}

/// The escaped source text `tic` can read back: no NUL, no `0x80` (both stored as `\0`), no `%`
/// (an operator keeps its byte verbatim), and no backslash right after a caret.
pub open spec fn round_trips(v: Seq<u8>) -> bool {
    forall|k: int| 0 <= k < v.len() ==> {
        &&& #[trigger] v[k] != 0
        &&& v[k] != 0x80
        &&& v[k] != 0x25
        &&& (k > 0 && v[k - 1] == 0x5e ==> v[k] != 0x5c)
    }
}

proof fn lemma_unescape_shift(p: Seq<u8>, s: Seq<u8>, i: int)
    requires
        0 <= i,
    ensures
        unescape_from(p + s, p.len() + i) == unescape_from(s, i),
    decreases s.len() - i,
{
    let t = p + s;
    let j = p.len() + i;
    if i >= s.len() {
    } else {
        assert(t[j] == s[i]);
        if i + 1 < s.len() {
            assert(t[j + 1] == s[i + 1]);
        }
        if i + 2 < s.len() {
            assert(t[j + 2] == s[i + 2]);
        }
        if i + 3 < s.len() {
            assert(t[j + 3] == s[i + 3]);
        }
        assert(oct_len(t, j + 1) == oct_len(s, i + 1));
        assert(oct_val(t, j + 1, oct_len(s, i + 1)) == oct_val(s, i + 1, oct_len(s, i + 1)));
        lemma_unescape_shift(p, s, i + 1);
        if i + 2 <= s.len() {
            lemma_unescape_shift(p, s, i + 2);
        }
        if i + 1 + oct_len(s, i + 1) <= s.len() {
            lemma_unescape_shift(p, s, i + 1 + oct_len(s, i + 1));
        }
    }
}

/// One escaped chunk `c` that reads back as byte `b`, followed by any text `r`.
proof fn lemma_chunk(c: Seq<u8>, r: Seq<u8>, b: u8)
    requires
        unescape_from(c + r, 0) == seq![b] + unescape_from(c + r, c.len() as int),
    ensures
        unescape_from(c + r, 0) == seq![b] + unescape_from(r, 0),
{
    lemma_unescape_shift(c, r, 0);
}

proof fn lemma_byte_char(b: u8)
    ensures
        ch_of(b) as u8 == b,
{
}

#[verifier::spinoff_prover]
#[verifier::rlimit(40)]
proof fn lemma_round_trip_from(v: Seq<u8>, i: int, islong: bool)
    requires
        round_trips(v),
        0 <= i <= v.len(),
    ensures
        unescape_from(bytes_of(expand_from(v, i, islong)), 0) == v.subrange(i, v.len() as int),
    decreases v.len() - i,
{
    if i >= v.len() {
        assert(bytes_of(expand_from(v, i, islong)) =~= Seq::<u8>::empty());
        assert(v.subrange(i, v.len() as int) =~= Seq::<u8>::empty());
    } else {
        lemma_round_trip_from(v, i + 1, islong);
        let ch = v[i];
        assert(ch != 0 && ch != 0x80 && ch != 0x25);
        let rest = expand_from(v, i + 1, islong);
        let e = expand_from(v, i, islong);
        let c = e.subrange(0, e.len() - rest.len());
        assert(e =~= c + rest);
        let r = bytes_of(rest);
        let bc = bytes_of(c);
        assert(bytes_of(e) =~= bc + r);
        let t = bc + r;
        if ch == 0x20 && (i == 0 || spaces_from(v, i)) {
            assert(bc =~= seq![0x5cu8, 0x73u8]);
        } else if ch == 0x5c {
            assert(!(i > 0 && v[i - 1] == 0x5e));
            assert(bc =~= seq![0x5cu8, 0x5cu8]);
        } else if ch == 0x1b || ch == 0x0a || ch == 0x0d || ch == 0x2c || ch == 0x5e {
            assert(bc.len() == 2 && bc[0] == 0x5c && !is_oct(bc[1]) && esc_byte(bc[1]) == ch);
        } else if printable(ch) {
            lemma_byte_char(ch);
            assert(bc =~= seq![ch]);
        } else if caret_control(ch) && (bc.len() == 2) {
            let x = ch ^ 0x40;
            lemma_byte_char(x);
            assert(x ^ 0x40 == ch) by (bit_vector)
                requires
                    x == ch ^ 0x40,
            ;
            assert(bc =~= seq![0x5eu8, x]);
            assert(nonzero(bc[1] ^ 0x40) == ch);
        } else {
            assert(c == oct3(ch));
            let d0 = (0x30 + ch / 64) as u8;
            let d1 = (0x30 + (ch / 8) % 8) as u8;
            let d2 = (0x30 + ch % 8) as u8;
            lemma_byte_char(d0);
            lemma_byte_char(d1);
            lemma_byte_char(d2);
            assert(bc =~= seq![0x5cu8, d0, d1, d2]);
            assert(t[1] == d0 && t[2] == d1 && t[3] == d2);
            assert(oct_len(t, 1) == 3);
            assert(oct_val(t, 1, 3) == ch);
            assert(nonzero((oct_val(t, 1, 3) % 256) as u8) == ch);
        }
        lemma_chunk(bc, r, ch);
        assert(v.subrange(i, v.len() as int) =~= seq![ch] + v.subrange(i + 1, v.len() as int));
    }
}

/// Every character `_nc_tic_expand` writes is ASCII.
proof fn lemma_expand_ascii(v: Seq<u8>, i: int, islong: bool)
    requires
        0 <= i <= v.len(),
    ensures
        forall|k: int| 0 <= k < expand_from(v, i, islong).len() ==> ((#[trigger] expand_from(v, i, islong)[k]) as u32) < 0x80,
    decreases v.len() - i,
{
    if i < v.len() {
        let ch = v[i];
        let e = expand_from(v, i, islong);
        if ch == 0x25 && i + 1 < v.len() && printable(v[i + 1]) {
            lemma_expand_ascii(v, i + 2, islong);
            let rest = expand_from(v, i + 2, islong);
            let c = e.subrange(0, e.len() - rest.len());
            assert(e =~= c + rest);
            lemma_char_u32(v[i + 1]);
            assert forall|k: int| 0 <= k < e.len() implies ((#[trigger] e[k]) as u32) < 0x80 by {
                if k >= c.len() {
                    assert(e[k] == rest[k - c.len()]);
                } else {
                    assert(e[k] == c[k]);
                }
            }
        } else {
            lemma_expand_ascii(v, i + 1, islong);
            let rest = expand_from(v, i + 1, islong);
            let c = e.subrange(0, e.len() - rest.len());
            assert(e =~= c + rest);
            let x = ch ^ 0x40;
            assert(ch <= 0x1f ==> x <= 0x5f) by (bit_vector)
                requires
                    x == ch ^ 0x40,
            ;
            assert(ch == 0x7f ==> x == 0x3f) by (bit_vector)
                requires
                    x == ch ^ 0x40,
            ;
            lemma_char_u32(ch);
            lemma_char_u32(x);
            lemma_char_u32((0x30 + ch / 64) as u8);
            lemma_char_u32((0x30 + (ch / 8) % 8) as u8);
            lemma_char_u32((0x30 + ch % 8) as u8);
            assert forall|k: int| 0 <= k < c.len() implies ((#[trigger] c[k]) as u32) < 0x80 by {
                assert(c[k] == e[k]);
            }
            assert forall|k: int| 0 <= k < e.len() implies ((#[trigger] e[k]) as u32) < 0x80 by {
                if k >= c.len() {
                    assert(e[k] == rest[k - c.len()]);
                } else {
                    assert(e[k] == c[k]);
                }
            }
        }
    }
}

proof fn lemma_char_u32(b: u8)
    ensures
        (ch_of(b) as u32) == b as u32,
{
}

/// `tic` reads back what `infocmp` writes: expanding a capability value with `_nc_tic_expand`
/// and unescaping the result gives the value again, for any value without NUL, `0x80` or `%`
/// and with no backslash right after a caret. The expansion is ASCII, so its bytes are its
/// characters.
pub proof fn unescape_inverts_tic_expand(v: Seq<u8>, islong: bool)
    requires
        round_trips(v),
    ensures
        unescape_from(bytes_of(expand_from(v, 0, islong)), 0) == v,
        forall|k: int| 0 <= k < expand_from(v, 0, islong).len() ==> ((#[trigger] expand_from(v, 0, islong)[k]) as u32) < 0x80,
{
    lemma_round_trip_from(v, 0, islong);
    lemma_expand_ascii(v, 0, islong);
    assert(v.subrange(0, v.len() as int) =~= v);
}

proof fn lemma_ascii_encode(cs: Seq<char>)
    requires
        forall|k: int| 0 <= k < cs.len() ==> ((#[trigger] cs[k]) as u32) < 0x80,
    ensures
        crate::terminfo::entry::name_bytes(cs) == bytes_of(cs),
    decreases cs.len(),
{
    if cs.len() > 0 {
        let c = cs[0] as u32;
        lemma_ascii_encode(cs.drop_first());
        assert((c & 0x7F) as u8 == c as u8) by (bit_vector)
            requires
                c < 0x80,
        ;
        let b = c as u8;
        vstd::utf8::char_u32_cast(cs[0], c);
        assert((b as char) == cs[0]);
        assert(ch_of(b) as u8 == b);
        assert((cs[0] as u32) as u8 == cs[0] as u8);
        assert(bytes_of(cs) =~= seq![cs[0] as u8] + bytes_of(cs.drop_first()));
    }
}

/// The round trip over the bytes of the `String` that `tic_expand` returns (its UTF-8
/// encoding): unescaping them gives the value back, for any value without NUL, `0x80` or `%`
/// and with no backslash right after a caret.
pub proof fn unescape_inverts_tic_expand_bytes(v: Seq<u8>, islong: bool)
    requires
        round_trips(v),
    ensures
        unescape_from(crate::terminfo::entry::name_bytes(expand_from(v, 0, islong)), 0) == v,
{
    unescape_inverts_tic_expand(v, islong);
    lemma_ascii_encode(expand_from(v, 0, islong));
}

/// The value `%<op>` leaves for integer operands `x` (pushed first) and `y`, as terminfo(5)
/// documents the operators: `+ - *` wrap, `& | ^` are bitwise, `= > <` compare, `A` and `O` are
/// logical and/or (1 or 0).
pub open spec fn op_value(op: u8, x: i32, y: i32) -> Option<i32> {
    if op == 0x2bu8 {
        Some(x.wrapping_add(y))
    } else if op == 0x2du8 {
        Some(x.wrapping_sub(y))
    } else if op == 0x2au8 {
        Some(x.wrapping_mul(y))
    } else if op == 0x26u8 {
        Some(x & y)
    } else if op == 0x7cu8 {
        Some(x | y)
    } else if op == 0x5eu8 {
        Some(x ^ y)
    } else if op == 0x3du8 {
        Some(if x == y { 1i32 } else { 0i32 })
    } else if op == 0x3eu8 {
        Some(if x > y { 1i32 } else { 0i32 })
    } else if op == 0x3cu8 {
        Some(if x < y { 1i32 } else { 0i32 })
    } else if op == 0x41u8 {
        Some(if x != 0 && y != 0 { 1i32 } else { 0i32 })
    } else if op == 0x4fu8 {
        Some(if x != 0 || y != 0 { 1i32 } else { 0i32 })
    } else {
        None
    }
}

/// A binary operator of `tparm` pops its two integer operands (`y` on top) and pushes their
/// result (see [`op_value`]), leaving the output alone.
pub proof fn tparm_binary_operator(b: Seq<u8>, s: TpState, op: u8, st: Seq<PV>, x: i32, y: i32)
    requires
        op_value(op, x, y) is Some,
        s.stack == st.push(PV::Int(x)).push(PV::Int(y)),
    ensures
        tp_op(b, s, op) == (TpState { stack: st.push(PV::Int(op_value(op, x, y)->Some_0)), ..s }),
{
    assert(s.stack.drop_last() =~= st.push(PV::Int(x)));
    assert(st.push(PV::Int(x)).drop_last() =~= st);
}

/// `%/` and `%m` divide with truncation toward zero: for a divisor other than 0 (and other than
/// the overflowing `i32::MIN / -1`), quotient times divisor plus remainder is the dividend, the
/// remainder is smaller than the divisor in magnitude and takes the dividend's sign.
pub proof fn tparm_division(x: i32, y: i32)
    requires
        y != 0,
        !(x == i32::MIN && y == -1),
    ensures
        binop(0x2fu8, x, y) as int * y as int + binop(0x6du8, x, y) as int == x as int,
        (if binop(0x6du8, x, y) < 0 { -(binop(0x6du8, x, y) as int) } else { binop(0x6du8, x, y) as int })
            < (if y < 0 { -(y as int) } else { y as int }),
        binop(0x6du8, x, y) == 0 || (binop(0x6du8, x, y) < 0) == (x < 0),
{
    let ax: int = if x < 0 { -x } else { x as int };
    let ay: int = if y < 0 { -y } else { y as int };
    let q = ax / ay;
    let r = ax % ay;
    assert(q * ay + r == ax && 0 <= r < ay) by (nonlinear_arith)
        requires
            ay > 0,
            ax >= 0,
            q == ax / ay,
            r == ax % ay,
    ;
    assert(0 <= q <= ax) by (nonlinear_arith)
        requires
            ay > 0,
            ax >= 0,
            q == ax / ay,
    ;
    let sq: int = if (x < 0) != (y < 0) { -q } else { q };
    let sr: int = if x < 0 { -r } else { r };
    assert(sq * (y as int) + sr == x as int) by (nonlinear_arith)
        requires
            q * ay + r == ax,
            ax == (if x < 0 { -(x as int) } else { x as int }),
            ay == (if y < 0 { -(y as int) } else { y as int }),
            sq == (if (x < 0) != (y < 0) { -q } else { q }),
            sr == (if x < 0 { -r } else { r }),
    ;
    assert(ay >= 2 ==> 2 * q <= ax) by (nonlinear_arith)
        requires
            q * ay + r == ax,
            0 <= r,
            0 <= q,
    ;
    if ay == 1 {
        assert(q == ax) by (nonlinear_arith)
            requires
                q * ay + r == ax,
                0 <= r < ay,
                ay == 1,
        ;
    }
    assert(i32::MIN <= sq <= i32::MAX);
    assert(i32::MIN <= sr <= i32::MAX);
}

/// `%*` in a capability multiplies: at a `%*` in the text, `tparm` pops its two integer operands
/// and pushes their (wrapping) product, moving past the operator and writing nothing. Likewise
/// for the other operators whose byte is not a `printf` flag (see [`op_value`]).
pub proof fn tparm_operator_step(b: Seq<u8>, s: TpState, op: u8, st: Seq<PV>, x: i32, y: i32)
    requires
        0 <= s.i,
        s.i + 1 < b.len(),
        b[s.i] == 0x25u8,
        b[s.i + 1] == op,
        op_value(op, x, y) is Some,
        op != 0x2bu8 && op != 0x2du8,
        s.stack == st.push(PV::Int(x)).push(PV::Int(y)),
    ensures
        tp_step(b, s) == (TpState { i: s.i + 2, stack: st.push(PV::Int(op_value(op, x, y)->Some_0)), ..s }),
{
    assert(printf_spec(b, s.i + 1, s.stack) is None);
    tparm_binary_operator(b, TpState { i: s.i + 2, ..s }, op, st, x, y);
}

/// The byte a terminfo(5) letter escape stands for: `\E`/`\e` escape, `\n`/`\l` newline, `\r`
/// return, `\t` tab, `\b` backspace, `\f` form feed, `\a` bell, `\s` space.
pub open spec fn letter_escape(c: u8) -> Option<u8> {
    if c == 0x45u8 || c == 0x65u8 {
        Some(0x1bu8)
    } else if c == 0x6eu8 || c == 0x6cu8 {
        Some(0x0au8)
    } else if c == 0x72u8 {
        Some(0x0du8)
    } else if c == 0x74u8 {
        Some(0x09u8)
    } else if c == 0x62u8 {
        Some(0x08u8)
    } else if c == 0x66u8 {
        Some(0x0cu8)
    } else if c == 0x61u8 {
        Some(0x07u8)
    } else if c == 0x73u8 {
        Some(0x20u8)
    } else {
        None
    }
}

/// `tic` reads a backslash and a terminfo(5) escape letter as that letter's byte (`\b` is a
/// backspace, `\E` an escape, ...), then goes on after the pair; a backslash and a character
/// that is neither a letter escape nor an octal digit stands for that character; a caret and
/// a character stand for the control character it names (`^?` being DEL, `^@` stored as 0x80);
/// a backslash and three octal digits stand for that byte (NUL stored as 0x80).
pub proof fn unescape_escapes(s: Seq<u8>, i: int)
    requires
        0 <= i,
        i + 1 < s.len(),
    ensures
        s[i] == 0x5cu8 && letter_escape(s[i + 1]) is Some ==> unescape_from(s, i) == seq![letter_escape(s[i + 1])->Some_0] + unescape_from(s, i + 2),
        s[i] == 0x5cu8 && letter_escape(s[i + 1]) is None && !(0x30 <= s[i + 1] <= 0x37) && s[i + 1] != 0x30u8
            ==> unescape_from(s, i) == seq![s[i + 1]] + unescape_from(s, i + 2),
        s[i] == 0x5eu8 && s[i + 1] == 0x3fu8 ==> unescape_from(s, i) == seq![0x7fu8] + unescape_from(s, i + 2),
        s[i] == 0x5eu8 && 0x41 <= s[i + 1] <= 0x5f ==> unescape_from(s, i) == seq![(s[i + 1] - 0x40) as u8] + unescape_from(s, i + 2),
        s[i] == 0x5eu8 && s[i + 1] == 0x40u8 ==> unescape_from(s, i) == seq![0x80u8] + unescape_from(s, i + 2),
        s[i] == 0x5cu8 && i + 3 < s.len() && 0x30 <= s[i + 1] <= 0x37 && 0x30 <= s[i + 2] <= 0x37 && 0x30 <= s[i + 3] <= 0x37
            ==> unescape_from(s, i) == seq![({
                let v = ((s[i + 1] - 0x30) * 64 + (s[i + 2] - 0x30) * 8 + (s[i + 3] - 0x30)) % 256;
                if v == 0 { 0x80u8 } else { v as u8 }
            })] + unescape_from(s, i + 4),
{
    let c = s[i + 1];
    assert(0x41 <= c <= 0x5f ==> (c ^ 0x40u8) == (c - 0x40) as u8) by (bit_vector);
    assert((0x3fu8 ^ 0x40u8) == 0x7fu8) by (bit_vector);
    assert((0x40u8 ^ 0x40u8) == 0u8) by (bit_vector);
}

/// The nine terminfo attribute bits of `ncv` (standout, underline, reverse, blink, dim, bold,
/// invisible, protect, alternate charset as bits 0 to 8), one at a time.
proof fn lemma_ncv_single()
    ensures
        crate::update::ncv_attr_v(1u32) == crate::window::attrs::STANDOUT,
        crate::update::ncv_attr_v(2u32) == crate::window::attrs::UNDERLINE,
        crate::update::ncv_attr_v(4u32) == crate::window::attrs::REVERSE,
        crate::update::ncv_attr_v(8u32) == crate::window::attrs::BLINK,
        crate::update::ncv_attr_v(16u32) == crate::window::attrs::DIM,
        crate::update::ncv_attr_v(32u32) == crate::window::attrs::BOLD,
        crate::update::ncv_attr_v(64u32) == crate::window::attrs::INVIS,
        crate::update::ncv_attr_v(128u32) == crate::window::attrs::PROTECT,
        crate::update::ncv_attr_v(256u32) == crate::window::attrs::ALTCHARSET,
{
    lemma_ncv_bit(1u32, 0x10000u32);
    lemma_ncv_bit(2u32, 0x20000u32);
    lemma_ncv_bit(4u32, 0x40000u32);
    lemma_ncv_bit(8u32, 0x80000u32);
    lemma_ncv_bit(16u32, 0x100000u32);
    lemma_ncv_bit(32u32, 0x200000u32);
    lemma_ncv_bit(64u32, 0x800000u32);
    lemma_ncv_bit(128u32, 0x1000000u32);
    lemma_ncv_bit(256u32, 0x400000u32);
}

proof fn lemma_ncv_bit(n: u32, v: u32)
    requires
        n == 1u32 ==> v == 0x10000u32,
        n == 2u32 ==> v == 0x20000u32,
        n == 4u32 ==> v == 0x40000u32,
        n == 8u32 ==> v == 0x80000u32,
        n == 16u32 ==> v == 0x100000u32,
        n == 32u32 ==> v == 0x200000u32,
        n == 64u32 ==> v == 0x800000u32,
        n == 128u32 ==> v == 0x1000000u32,
        n == 256u32 ==> v == 0x400000u32,
        n == 1u32 || n == 2u32 || n == 4u32 || n == 8u32 || n == 16u32 || n == 32u32 || n == 64u32 || n == 128u32 || n == 256u32,
    ensures
        crate::update::ncv_attr_v(n) == v,
{
    assert(((if n & 1u32 != 0 { 0x10000u32 } else { 0u32 }) | (if n & 2u32 != 0 { 0x20000u32 } else { 0u32 }) | (if n & 4u32 != 0 { 0x40000u32 } else { 0u32 }) | (if n & 8u32 != 0 { 0x80000u32 } else { 0u32 }) | (if n & 16u32 != 0 { 0x100000u32 } else { 0u32 }) | (if n & 32u32 != 0 { 0x200000u32 } else { 0u32 }) | (if n & 64u32 != 0 { 0x800000u32 } else { 0u32 }) | (if n & 128u32 != 0 { 0x1000000u32 } else { 0u32 }) | (if n & 256u32 != 0 { 0x400000u32 } else { 0u32 })) == v) by (bit_vector)
        requires
            n == 1u32 ==> v == 0x10000u32,
            n == 2u32 ==> v == 0x20000u32,
            n == 4u32 ==> v == 0x40000u32,
            n == 8u32 ==> v == 0x80000u32,
            n == 16u32 ==> v == 0x100000u32,
            n == 32u32 ==> v == 0x200000u32,
            n == 64u32 ==> v == 0x800000u32,
            n == 128u32 ==> v == 0x1000000u32,
            n == 256u32 ==> v == 0x400000u32,
            n == 1u32 || n == 2u32 || n == 4u32 || n == 8u32 || n == 16u32 || n == 32u32 || n == 64u32 || n == 128u32 || n == 256u32,
    ;
}

/// The `sgr` capability's nine parameters follow terminfo's attribute numbering, the same one
/// `ncv` uses: parameter `k` is 1 exactly when the mode holds the attribute that bit `k` of an
/// `ncv` mask names (1 standout, 2 underline, 3 reverse, 4 blink, 5 dim, 6 bold, 7 invisible,
/// 8 protect, 9 alternate charset).
pub proof fn sgr_parameters_follow_terminfo_order(mode: u32, k: int)
    requires
        0 <= k < 9,
    ensures
        crate::vid::sgr_params_v(mode).len() == 9,
        crate::vid::sgr_params_v(mode)[k] == PV::Int(
            if mode & crate::update::ncv_attr_v(if k == 0 { 1u32 } else if k == 1 { 2u32 } else if k == 2 { 4u32 } else if k == 3 { 8u32 } else if k == 4 { 16u32 } else if k == 5 { 32u32 } else if k == 6 { 64u32 } else if k == 7 { 128u32 } else { 256u32 }) != 0 { 1i32 } else { 0i32 },
        ),
{
    lemma_ncv_single();
}

proof fn lemma_row_order(a: int, b: int, x: int, cols: int)
    requires
        cols >= 1,
        0 <= x < cols,
    ensures
        (a * cols + x < b * cols) == (a < b),
        (a * cols + x >= b * cols) == (a >= b),
{
    if a < b {
        assert(a * cols + x < b * cols) by (nonlinear_arith)
            requires
                a < b,
                cols >= 1,
                x < cols,
        ;
    } else {
        assert(a * cols + x >= b * cols) by (nonlinear_arith)
            requires
                a >= b,
                cols >= 1,
                0 <= x,
        ;
    }
}

/// `wscrl(n)` moves whole rows inside the scroll region `[top, bot]` only: after it, a row `y`
/// of the region shows the old row `y + n` when that row lies in the region, and the
/// background otherwise (the vacated rows); no row outside the region is read or changed.
pub proof fn scroll_moves_rows_within_region(w: WindowV, n: int, y: int, x: int)
    requires
        wf_v(w),
        w.scrreg_bot < w.rows,
        n != 0,
        0 <= y < w.rows,
        0 <= x < w.cols,
    ensures
        crate::window::cell_v(WindowV { cells: crate::window::scroll_cells(w, n), ..w }, y, x) == if w.scrreg_top <= y
            <= w.scrreg_bot {
            if w.scrreg_top <= y + n <= w.scrreg_bot { crate::window::cell_v(w, y + n, x) } else { w.bkgd }
        } else {
            crate::window::cell_v(w, y, x)
        },
{
    let c = w.cols;
    let i = y * c + x;
    lemma_row_order(y, w.scrreg_top, x, c);
    lemma_row_order(y, w.scrreg_bot + 1, x, c);
    lemma_row_order(y + n, w.scrreg_top, x, c);
    lemma_row_order(y + n, w.scrreg_bot + 1, x, c);
    assert(i + n * c == (y + n) * c + x) by (nonlinear_arith)
        requires
            i == y * c + x,
    ;
    assert(0 <= i < w.rows * c) by (nonlinear_arith)
        requires
            0 <= y < w.rows,
            0 <= x < c,
            i == y * c + x,
    ;
    if w.scrreg_top <= y + n <= w.scrreg_bot {
        assert(0 <= (y + n) * c + x < w.rows * c) by (nonlinear_arith)
            requires
                0 <= y + n < w.rows,
                0 <= x < c,
        ;
    }
}

} // verus!
