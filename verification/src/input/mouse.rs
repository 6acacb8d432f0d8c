//! SGR mouse reports (`\e[<b;x;yM` for a press, `m` for a release) and the wide input events a
//! `wget_wch` reader assembles from key codes.

use vstd::prelude::*;
use crate::tools::{digits_end, digits_val};

verus! {

/// A wide input event: a function/special key code, or a character code point.
#[derive(Debug, Clone, Copy, PartialEq, Eq)]
pub enum WideKey {
    /// A function/special key (a `KEY_*` code).
    Code(i32),
    /// A character code point.
    Char(u32),
}

/// Past the `;` that may follow a number ending at `e`.
pub open spec fn skip_semi(buf: Seq<u8>, e: int) -> int {
    if 0 <= e < buf.len() && buf[e] == 0x3b { e + 1 } else { e }
}

/// Where the three numbers of a report start and end: `(s0, e0, s1, e1, s2, e2, s3)`.
pub open spec fn mouse_pos(buf: Seq<u8>) -> (int, int, int, int, int, int, int) {
    let e0 = digits_end(buf, 3);
    let s1 = skip_semi(buf, e0);
    let e1 = digits_end(buf, s1);
    let s2 = skip_semi(buf, e1);
    let e2 = digits_end(buf, s2);
    (3, e0, s1, e1, s2, e2, skip_semi(buf, e2))
}

/// The report's shape holds: three non-empty numbers and a final `M` or `m`.
pub open spec fn mouse_shape(buf: Seq<u8>) -> bool {
    let p = mouse_pos(buf);
    p.1 > p.0 && p.3 > p.2 && p.5 > p.4 && p.6 < buf.len() && (buf[p.6] == 0x4d || buf[p.6] == 0x6d)
}

/// The numbers read fit the 64-bit accumulator, and the coordinates, cut to 32 bits, can be
/// made 0-based: the inputs on which the reader does not overflow.
pub open spec fn mouse_fits(buf: Seq<u8>) -> bool {
    let p = mouse_pos(buf);
    &&& digits_val(buf, p.0, p.1) <= i64::MAX
    &&& (p.1 > p.0 ==> digits_val(buf, p.2, p.3) <= i64::MAX)
    &&& (p.1 > p.0 && p.3 > p.2 ==> digits_val(buf, p.4, p.5) <= i64::MAX)
    &&& (mouse_shape(buf) ==> (digits_val(buf, p.2, p.3) as i64) as i32 != i32::MIN && (digits_val(
        buf,
        p.4,
        p.5,
    ) as i64) as i32 != i32::MIN)
}

/// The decoded report: `(button, x, y, press)` with 0-based `x`, `y`, and the bytes it took;
/// `None` unless the buffer holds a complete report.
pub open spec fn mouse_v(buf: Seq<u8>) -> Option<((u32, i32, i32, bool), int)> {
    let p = mouse_pos(buf);
    if mouse_shape(buf) {
        Some((
            (
                (digits_val(buf, p.0, p.1) as i64) as u32,
                (((digits_val(buf, p.2, p.3) as i64) as i32) - 1) as i32,
                (((digits_val(buf, p.4, p.5) as i64) as i32) - 1) as i32,
                buf[p.6] == 0x4d,
            ),
            p.6 + 1,
        ))
    } else {
        None
    }
}

proof fn lemma_digits_mono(v: Seq<u8>, a: int, j: int, e: int)
    requires
        0 <= a <= j <= e,
        forall|k: int| a <= k < e ==> 0x30 <= #[trigger] v[k] <= 0x39,
    ensures
        digits_val(v, a, j) <= digits_val(v, a, e),
        0 <= digits_val(v, a, j),
    decreases e - j,
{
    lemma_digits_nonneg(v, a, j);
    if j < e {
        lemma_digits_mono(v, a, j + 1, e);
    }
}

proof fn lemma_digits_nonneg(v: Seq<u8>, a: int, j: int)
    requires
        0 <= a <= j,
        forall|k: int| a <= k < j ==> 0x30 <= #[trigger] v[k] <= 0x39,
    ensures
        0 <= digits_val(v, a, j),
    decreases j - a,
{
    if j > a {
        lemma_digits_nonneg(v, a, j - 1);
    }
}

proof fn lemma_end_digits(v: Seq<u8>, j: int)
    requires
        0 <= j,
    ensures
        j <= digits_end(v, j),
        digits_end(v, j) <= j || digits_end(v, j) <= v.len(),
        forall|k: int| j <= k < digits_end(v, j) ==> 0x30 <= #[trigger] v[k] <= 0x39,
    decreases v.len() - j,
{
    if j < v.len() && 0x30 <= v[j] <= 0x39 {
        lemma_end_digits(v, j + 1);
    }
}

/// Read the number starting at `j`: its end and its value.
fn read_num(buf: &[u8], j: usize, Ghost(e): Ghost<int>) -> (r: (usize, i64))
    requires
        j <= buf@.len(),
        e == digits_end(buf@, j as int),
        digits_val(buf@, j as int, e) <= i64::MAX,
    ensures
        r.0 == e,
        j <= r.0 <= buf@.len(),
        r.1 == digits_val(buf@, j as int, e),
{
    proof {
        lemma_end_digits(buf@, j as int);
    }
    let mut i = j;
    let mut v: i64 = 0;
    while i < buf.len() && 0x30 <= buf[i] && buf[i] <= 0x39
        invariant
            j <= i <= buf@.len(),
            i <= e,
            forall|k: int| j <= k < e ==> 0x30 <= #[trigger] buf@[k] <= 0x39,
            digits_end(buf@, i as int) == e,
            digits_val(buf@, j as int, e) <= i64::MAX,
            forall|k: int| j <= k < i ==> 0x30 <= #[trigger] buf@[k] <= 0x39,
            v == digits_val(buf@, j as int, i as int),
        decreases buf@.len() - i,
    {
        proof {
            assert(digits_end(buf@, i as int) == digits_end(buf@, i + 1));
            lemma_end_digits(buf@, i + 1);
            lemma_digits_mono(buf@, j as int, i + 1, e);
            lemma_digits_nonneg(buf@, j as int, i as int);
        }
        v = v * 10 + (buf[i] - 0x30) as i64;
        i = i + 1;
    }
    (i, v)
}

/// Decode a leading SGR mouse report (the buffer starts with `\e[<`): `(button, x, y, press)`
/// with 0-based coordinates and the bytes it took, or `None` when no complete report is there.
pub fn parse_sgr_mouse(buf: &[u8]) -> (r: Option<((u32, i32, i32, bool), usize)>)
    requires
        mouse_fits(buf@),
    ensures
        match r {
            Some(x) => mouse_v(buf@) == Some((x.0, x.1 as int)),
            None => mouse_v(buf@) is None,
        },
{
    let ghost p = mouse_pos(buf@);
    if buf.len() < 3 {
        return None;
    }
    let (e0, n0) = read_num(buf, 3, Ghost(p.1));
    if e0 == 3 {
        return None;
    }
    let s1 = if e0 < buf.len() && buf[e0] == 0x3b { e0 + 1 } else { e0 };
    assert(s1 == p.2 && p.1 > p.0);
    let (e1, n1) = read_num(buf, s1, Ghost(p.3));
    if e1 == s1 {
        return None;
    }
    let s2 = if e1 < buf.len() && buf[e1] == 0x3b { e1 + 1 } else { e1 };
    assert(s2 == p.4 && p.3 > p.2);
    let (e2, n2) = read_num(buf, s2, Ghost(p.5));
    if e2 == s2 {
        return None;
    }
    let s3 = if e2 < buf.len() && buf[e2] == 0x3b { e2 + 1 } else { e2 };
    if s3 >= buf.len() {
        return None;
    }
    let press = if buf[s3] == 0x4d {
        true
    } else if buf[s3] == 0x6d {
        false
    } else {
        return None;
    };
    assert(s3 == p.6 && mouse_shape(buf@));
    let x = n1 as i32;
    let y = n2 as i32;
    Some(((n0 as u32, x - 1, y - 1, press), s3 + 1))
}

/// The code point of a UTF-8 sequence lead byte `lead` and its continuation bytes `cont`: the
/// lead's payload bits, then six bits from each continuation byte.
pub open spec fn assemble(init: u32, cont: Seq<i32>) -> u32
    decreases cont.len(),
{
    if cont.len() == 0 {
        init
    } else {
        ((assemble(init, cont.drop_last()) << 6u32) | ((cont.last() as u32) & 0x3fu32)) as u32
    }
}

/// A UTF-8 lead byte's sequence length and payload bits; length 0 for a byte that leads no
/// sequence.
pub open spec fn lead_info(lead: u8) -> (int, u32) {
    if lead >> 5u8 == 6u8 {
        (2, (lead & 0x1fu8) as u32)
    } else if lead >> 4u8 == 14u8 {
        (3, (lead & 0x0fu8) as u32)
    } else if lead >> 3u8 == 30u8 {
        (4, (lead & 0x07u8) as u32)
    } else {
        (0, 0)
    }
}

/// A continuation byte's code.
pub open spec fn is_cont(c: i32) -> bool {
    0x80 <= c < 0xc0
}

/// The first index from `j` (below `len`) where no continuation byte follows: past the end of
/// `codes`, or a code that is not a continuation byte; `len` when every one is.
pub open spec fn cont_stop(codes: Seq<i32>, j: int, len: int) -> int
    decreases len - j,
{
    if j >= len {
        len
    } else if j >= codes.len() || !is_cont(codes[j]) {
        j
    } else {
        cont_stop(codes, j + 1, len)
    }
}

/// The wide event `wget_wch` makes of the key codes `codes` (the first is read, then as many
/// continuation bytes as its UTF-8 lead asks for), and how many codes it takes. A key code is a
/// [`WideKey::Code`]; an ASCII code, a stray byte, or a lead whose sequence breaks off is a
/// [`WideKey::Char`] of itself (a breaking code is left for the next read, the continuation
/// bytes before it are consumed); a complete sequence is its code point.
pub open spec fn wide_v(codes: Seq<i32>) -> (WideKey, int) {
    let f = codes[0];
    if f >= 256 {
        (WideKey::Code(f), 1)
    } else if f < 0x80 {
        (WideKey::Char(f as u32), 1)
    } else {
        let lead = f as u8;
        let info = lead_info(lead);
        if info.0 == 0 {
            (WideKey::Char(lead as u32), 1)
        } else {
            let stop = cont_stop(codes, 1, info.0);
            if stop == info.0 {
                (WideKey::Char(assemble(info.1, codes.subrange(1, info.0))), info.0)
            } else {
                (WideKey::Char(lead as u32), stop)
            }
        }
    }
}

/// Assemble a wide event from the available key codes (see [`wide_v`]): the event and how many
/// codes it takes.
pub fn wide_key(codes: &[i32]) -> (r: (WideKey, usize))
    requires
        codes@.len() >= 1,
    ensures
        (r.0, r.1 as int) == wide_v(codes@),
{
    let f = codes[0];
    if f >= 256 {
        return (WideKey::Code(f), 1);
    }
    if f < 0x80 {
        return (WideKey::Char(f as u32), 1);
    }
    let lead = f as u8;
    let (len, init): (usize, u32) = if lead >> 5u8 == 6u8 {
        (2, (lead & 0x1fu8) as u32)
    } else if lead >> 4u8 == 14u8 {
        (3, (lead & 0x0fu8) as u32)
    } else if lead >> 3u8 == 30u8 {
        (4, (lead & 0x07u8) as u32)
    } else {
        return (WideKey::Char(lead as u32), 1);
    };
    let mut cp = init;
    let mut j: usize = 1;
    while j < len
        invariant
            1 <= j <= len,
            codes@[0] == f,
            0x80 <= f < 256,
            lead == f as u8,
            (len as int, init) == lead_info(lead),
            len >= 2,
            j <= codes@.len(),
            cont_stop(codes@, j as int, len as int) == cont_stop(codes@, 1, len as int),
            forall|k: int| 1 <= k < j ==> is_cont(#[trigger] codes@[k]),
            cp == assemble(init, codes@.subrange(1, j as int)),
        decreases len - j,
    {
        if j >= codes.len() || !(0x80 <= codes[j] && codes[j] < 0xc0) {
            proof {
                assert(cont_stop(codes@, j as int, len as int) == j);
                assert(lead_info(lead).0 == len);
                assert(wide_v(codes@).1 == j);
            }
            return (WideKey::Char(lead as u32), j);
        }
        let b = codes[j];
        proof {
            assert(codes@.subrange(1, j + 1).drop_last() =~= codes@.subrange(1, j as int));
        }
        cp = (cp << 6u32) | ((b as u32) & 0x3fu32);
        j = j + 1;
    }
    (WideKey::Char(cp), len)
}

} // verus!
