//! Small byte-level helpers of the optimizer: the erasable-blank test, the `ncv` bit map, the
//! identity glyph map, UTF-8 output, and the `CSI` sequences it writes itself.

use vstd::prelude::*;
use super::{clearable, csi1_v, csr_v, identity_acsc_v, ncv_attr_v, utf8_of};
use crate::fmt::push_dec;
use crate::window::{attrs, Cell};

verus! {

/// `can_clear_with` on a back-colour-erase terminal.
pub fn can_clear_with(c: Cell) -> (r: bool)
    ensures
        r == clearable(c),
{
    c.ch == ' ' && (c.attr & !attrs::COLOR) == 0
}

/// Map a terminfo `ncv` mask to this crate's attribute bits.
pub fn ncv_to_attr(ncv: u32) -> (r: u32)
    ensures
        r == ncv_attr_v(ncv),
{
    let a: u32 = if ncv & 1 != 0 { attrs::STANDOUT } else { 0 };
    let b: u32 = if ncv & 2 != 0 { attrs::UNDERLINE } else { 0 };
    let c: u32 = if ncv & 4 != 0 { attrs::REVERSE } else { 0 };
    let d: u32 = if ncv & 8 != 0 { attrs::BLINK } else { 0 };
    let e: u32 = if ncv & 16 != 0 { attrs::DIM } else { 0 };
    let f: u32 = if ncv & 32 != 0 { attrs::BOLD } else { 0 };
    let g: u32 = if ncv & 64 != 0 { attrs::INVIS } else { 0 };
    let h: u32 = if ncv & 128 != 0 { attrs::PROTECT } else { 0 };
    let i: u32 = if ncv & 256 != 0 { attrs::ALTCHARSET } else { 0 };
    a | b | c | d | e | f | g | h | i
}

/// The identity `acsc` map.
pub fn identity_acsc() -> (m: Vec<u8>)
    ensures
        m@ == identity_acsc_v(),
{
    let mut m: Vec<u8> = Vec::new();
    let mut i: u32 = 0;
    while i < 128
        invariant
            i <= 128,
            m@ == Seq::new(i as nat, |k: int| k as u8),
        decreases 128 - i,
    {
        m.push(i as u8);
        i = i + 1;
        assert(m@ =~= Seq::new(i as nat, |k: int| k as u8));
    }
    m
}

/// Append a character's UTF-8 encoding.
pub fn push_ch(out: &mut Vec<u8>, ch: char)
    ensures
        final(out)@ == old(out)@ + utf8_of(ch),
{
    let v = ch as u32;
    let ghost start = out@;
    if v <= 0x7f {
        out.push((v & 0x7f) as u8);
    } else if v <= 0x7ff {
        out.push(0xc0u8 | ((v >> 6) & 0x1f) as u8);
        out.push(0x80u8 | (v & 0x3f) as u8);
    } else if v <= 0xffff {
        out.push(0xe0u8 | ((v >> 12) & 0x0f) as u8);
        out.push(0x80u8 | ((v >> 6) & 0x3f) as u8);
        out.push(0x80u8 | (v & 0x3f) as u8);
    } else {
        out.push(0xf0u8 | ((v >> 18) & 0x07) as u8);
        out.push(0x80u8 | ((v >> 12) & 0x3f) as u8);
        out.push(0x80u8 | ((v >> 6) & 0x3f) as u8);
        out.push(0x80u8 | (v & 0x3f) as u8);
    }
    assert(out@ =~= start + utf8_of(ch));
}

/// Append `CSI n final` (`erase_chars`, `parm_ich`, `parm_dch`, `parm_index`, ...).
pub fn csi1(out: &mut Vec<u8>, n: i32, fin: u8)
    ensures
        final(out)@ == old(out)@ + csi1_v(n as int, fin),
{
    let ghost start = out@;
    out.push(0x1bu8);
    out.push(0x5bu8);
    push_dec(out, n as i64);
    out.push(fin);
    assert(out@ =~= start + csi1_v(n as int, fin));
}

/// Append `change_scroll_region`.
pub fn set_scroll_region(out: &mut Vec<u8>, top: i32, bot: i32)
    ensures
        final(out)@ == old(out)@ + csr_v(top as int, bot as int),
{
    let ghost start = out@;
    out.push(0x1bu8);
    out.push(0x5bu8);
    push_dec(out, top as i64 + 1);
    out.push(0x3bu8);
    push_dec(out, bot as i64 + 1);
    out.push(0x72u8);
    assert(out@ =~= start + csr_v(top as int, bot as int));
}

} // verus!
