//! Screen erase operations and the single-field repaint: the bytes emitted to clear regions of
//! the screen and to paint one static field on an otherwise blank screen.

use vstd::prelude::*;
use crate::attr::{reset_defaults_bytes, sgr_off};
use crate::cursor::caps::xterm_v;
use crate::cursor::motion::{mvcur_v, no_want};
use crate::cursor::mvcur;
use crate::fmt::{dec, push_bytes, push_dec, push_repeat};

verus! {

/// `clear`: home, then erase the whole screen: `\e[H\e[2J`.
pub fn clear() -> (r: &'static [u8])
    ensures
        r@ == seq![0x1bu8, 0x5bu8, 0x48u8, 0x1bu8, 0x5bu8, 0x32u8, 0x4au8],
{
    let r: &'static [u8] = &[0x1bu8, 0x5bu8, 0x48u8, 0x1bu8, 0x5bu8, 0x32u8, 0x4au8];
    r
}

/// `clr_eos` (erase to the end of the screen, `ed`): `\e[J`.
pub fn clr_eos() -> (r: &'static [u8])
    ensures
        r@ == ed_bytes(),
{
    let r: &'static [u8] = &[0x1bu8, 0x5bu8, 0x4au8];
    r
}

/// `clr_eol` (erase to the end of the line, `el`): `\e[K`.
pub fn clr_eol() -> (r: &'static [u8])
    ensures
        r@ == el_bytes(),
{
    let r: &'static [u8] = &[0x1bu8, 0x5bu8, 0x4bu8];
    r
}

/// `clr_bol` (erase to the beginning of the line, `el1`): `\e[1K`.
pub fn clr_bol() -> (r: &'static [u8])
    ensures
        r@ == el1_bytes(),
{
    let r: &'static [u8] = &[0x1bu8, 0x5bu8, 0x31u8, 0x4bu8];
    r
}

/// `\e[J`.
pub open spec fn ed_bytes() -> Seq<u8> {
    seq![0x1bu8, 0x5bu8, 0x4au8]
}

/// `\e[K`.
pub open spec fn el_bytes() -> Seq<u8> {
    seq![0x1bu8, 0x5bu8, 0x4bu8]
}

/// `\e[1K`.
pub open spec fn el1_bytes() -> Seq<u8> {
    seq![0x1bu8, 0x5bu8, 0x31u8, 0x4bu8]
}

/// The SGR sequence that restores the default attributes and colours: ASCII charset
/// designation, `sgr0`, default foreground/background, then the default white-on-black pair.
pub const RESET_DEFAULTS: [u8; 24] = [
    0x1bu8, 0x28u8, 0x42u8, 0x1bu8, 0x5bu8, 0x6du8, 0x1bu8, 0x5bu8, 0x33u8, 0x39u8, 0x3bu8,
    0x34u8, 0x39u8, 0x6du8, 0x1bu8, 0x5bu8, 0x33u8, 0x37u8, 0x6du8, 0x1bu8, 0x5bu8, 0x34u8,
    0x30u8, 0x6du8,
];

/// `\e[<n><fin>`, a one-parameter CSI command.
pub open spec fn csi1_v(n: int, fin: u8) -> Seq<u8> {
    seq![0x1bu8, 0x5bu8] + dec(n) + seq![fin]
}

fn csi1(out: &mut Vec<u8>, n: i32, fin: u8)
    ensures
        final(out)@ == old(out)@ + csi1_v(n as int, fin),
{
    out.push(0x1bu8);
    out.push(0x5bu8);
    push_dec(out, n as i64);
    out.push(fin);
    assert(final(out)@ =~= old(out)@ + csi1_v(n as int, fin));
}

/// `\e[<row>;<col>H`, direct cursor addressing (1-based).
pub open spec fn cup_v(row: int, col: int) -> Seq<u8> {
    seq![0x1bu8, 0x5bu8] + dec(row) + seq![0x3bu8] + dec(col) + seq![0x48u8]
}

fn cup(out: &mut Vec<u8>, row: i32, col: i32)
    ensures
        final(out)@ == old(out)@ + cup_v(row as int, col as int),
{
    out.push(0x1bu8);
    out.push(0x5bu8);
    push_dec(out, row as i64);
    out.push(0x3bu8);
    push_dec(out, col as i64);
    out.push(0x48u8);
    assert(final(out)@ =~= old(out)@ + cup_v(row as int, col as int));
}

/// The top-down clear of rows `r` up to `line - 1`: `\e[<r>d\e[K` for each.
pub open spec fn clear_rows_v(r: int, line: int) -> Seq<u8>
    decreases line - r,
{
    if r >= line {
        seq![]
    } else {
        csi1_v(r, 0x64) + el_bytes() + clear_rows_v(r + 1, line)
    }
}

/// The positioning onto the field row: space-fill from column 1 when the field starts within
/// five columns, else address the column before the field, erase to the line start, and write
/// one space.
pub open spec fn position_v(line: int, col: int) -> Seq<u8> {
    if col - 1 <= 4 {
        csi1_v(line, 0x64) + (if col > 1 { Seq::new((col - 1) as nat, |_i: int| 0x20u8) } else { seq![] })
    } else {
        cup_v(line, col - 1) + el1_bytes() + seq![0x20u8]
    }
}

/// The colour SGRs of an ANSI pair: `\e[<30+fg>m\e[<40+bg>m`, each masked to three bits.
pub open spec fn color_sgr_v(fg: u8, bg: u8) -> Seq<u8> {
    csi1_v(30 + (fg & 7) as int, 0x6d) + csi1_v(40 + (bg & 7) as int, 0x6d)
}

/// Park on the row below the field, restore defaults, erase to the bottom, and clear the rows
/// above the field top-down.
pub open spec fn prelude_v(line: int) -> Seq<u8> {
    csi1_v(line + 1, 0x64) + reset_defaults_bytes() + ed_bytes() + seq![0x1bu8, 0x5bu8, 0x48u8]
        + el_bytes() + clear_rows_v(2, line)
}

/// The coloured field followed by the default restore and an erase to the end of the line.
pub open spec fn field_v(data: Seq<u8>, fg: u8, bg: u8) -> Seq<u8> {
    color_sgr_v(fg, bg) + data + reset_defaults_bytes() + el_bytes()
}

/// The bytes painting one static field (see [`single_field_repaint`]).
pub open spec fn single_field_v(line: int, col: int, data: Seq<u8>, fg: u8, bg: u8) -> Seq<u8> {
    prelude_v(line) + position_v(line, col) + field_v(data, fg, bg) + mvcur_v(
        xterm_v(),
        no_want(),
        line - 1,
        col + data.len() - 1,
        line,
        0,
    )
}

fn prelude(line: i32) -> (out: Vec<u8>)
    requires
        line < i32::MAX,
    ensures
        out@ == prelude_v(line as int),
{
    let mut out: Vec<u8> = Vec::new();
    csi1(&mut out, line + 1, 0x64);
    let rd = sgr_off();
    push_bytes(&mut out, rd.as_slice());
    push_bytes(&mut out, clr_eos());
    let home_el: &[u8] = &[0x1bu8, 0x5bu8, 0x48u8, 0x1bu8, 0x5bu8, 0x4bu8];
    push_bytes(&mut out, home_el);
    let ghost head = out@;
    let mut r: i32 = 2;
    while r < line
        invariant
            2 <= r,
            line < i32::MAX,
            r <= line || r == 2,
            out@ + clear_rows_v(r as int, line as int) == head + clear_rows_v(2, line as int),
        decreases line - r,
    {
        let ghost before = out@;
        csi1(&mut out, r, 0x64);
        push_bytes(&mut out, clr_eol());
        r = r + 1;
        assert(out@ + clear_rows_v(r as int, line as int) =~= before + clear_rows_v(
            (r - 1) as int,
            line as int,
        ));
    }
    assert(out@ =~= head + clear_rows_v(2, line as int));
    assert(out@ =~= prelude_v(line as int));
    out
}

fn position(line: i32, col: i32) -> (out: Vec<u8>)
    requires
        col > i32::MIN,
    ensures
        out@ == position_v(line as int, col as int),
{
    let mut out: Vec<u8> = Vec::new();
    if col - 1 <= 4 {
        csi1(&mut out, line, 0x64);
        if col > 1 {
            push_repeat(&mut out, 0x20u8, (col - 1) as usize);
        }
    } else {
        cup(&mut out, line, col - 1);
        push_bytes(&mut out, clr_bol());
        out.push(0x20u8);
    }
    assert(out@ =~= position_v(line as int, col as int));
    out
}

fn field(data: &[u8], fg: u8, bg: u8) -> (out: Vec<u8>)
    ensures
        out@ == field_v(data@, fg, bg),
{
    let mut out: Vec<u8> = Vec::new();
    csi1(&mut out, 30 + (fg & 7) as i32, 0x6d);
    csi1(&mut out, 40 + (bg & 7) as i32, 0x6d);
    push_bytes(&mut out, data);
    let rd = sgr_off();
    push_bytes(&mut out, rd.as_slice());
    push_bytes(&mut out, clr_eol());
    assert(out@ =~= field_v(data@, fg, bg));
    out
}

/// The bytes that paint one static field with ANSI colours `(fg, bg)` onto a freshly cleared
/// screen: park on the row below the field, restore defaults, erase to the bottom, clear the rows
/// above top-down, position onto the field row, write the coloured field, restore defaults and
/// erase to the end of the line, then move to column 1 of the row below with [`mvcur`]. `line`
/// and `col` are 1-based.
pub fn single_field_repaint(line: i32, col: i32, data: &[u8], fg: u8, bg: u8) -> (out: Vec<u8>)
    requires
        i32::MIN < line < i32::MAX,
        col > i32::MIN,
        data@.len() <= i32::MAX,
        col + data@.len() <= i32::MAX,
        col + data@.len() > i32::MIN + 1,
    ensures
        out@ == single_field_v(line as int, col as int, data@, fg, bg),
{
    let mut out = prelude(line);
    let p = position(line, col);
    push_bytes(&mut out, p.as_slice());
    let f = field(data, fg, bg);
    push_bytes(&mut out, f.as_slice());
    let end_col = col + data.len() as i32;
    let mv = mvcur((line, end_col), (line + 1, 1));
    push_bytes(&mut out, mv.as_slice());
    out
}

} // verus!
