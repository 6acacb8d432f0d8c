//! `tparm`: the parameterized terminfo string evaluator.
//!
//! A terminfo string is a small stack-machine program. Plain bytes are copied to the output;
//! `%`-operations push parameters and constants, do arithmetic and logic, bias the first two
//! parameters (`%i`), branch (`%? %t %e %;`), keep variables (`%P`/`%g`), and print the top of
//! the stack printf-style (`%d %o %x %X %s %c` with flags, width and precision).
//!
//! The semantics is given by [`tparm_spec`], a step-by-step interpreter over [`TpState`]; the
//! executable evaluator is proved to compute exactly what it computes. Integer arithmetic wraps
//! on overflow (two's complement), and division and remainder by zero give 0.

use vstd::prelude::*;
use crate::bytes::is_digit;
use crate::fmt::{dec, digits, push_bytes, push_dec, push_digits, push_repeat, lemma_digits_nonempty};

verus! {

/// A tparm parameter: terminfo caps take up to nine, each an integer or a string.
#[derive(Debug, Clone, PartialEq, Eq)]
pub enum Param {
    Int(i32),
    Str(Vec<u8>),
}

/// The value of a parameter or of a stack cell: an integer or a byte string.
pub enum PV {
    Int(i32),
    Str(Seq<u8>),
}

impl View for Param {
    type V = PV;

    open spec fn view(&self) -> PV {
        match self {
            Param::Int(v) => PV::Int(*v),
            Param::Str(s) => PV::Str(s@),
        }
    }
}

impl From<i32> for Param {
    fn from(v: i32) -> (p: Param)
        ensures
            p == Param::Int(v),
    {
        Param::Int(v)
    }
}

impl vstd::std_specs::convert::FromSpecImpl<i32> for Param {
    open spec fn obeys_from_spec() -> bool {
        true
    }

    open spec fn from_spec(v: i32) -> Param {
        Param::Int(v)
    }
}

/// A stack cell or variable of the evaluator.
enum Val {
    Int(i32),
    Str(Vec<u8>),
}

impl View for Val {
    type V = PV;

    closed spec fn view(&self) -> PV {
        match self {
            Val::Int(v) => PV::Int(*v),
            Val::Str(s) => PV::Str(s@),
        }
    }
}

/// The views of a sequence of values.
pub open spec fn pvs<T: View<V = PV>>(s: Seq<T>) -> Seq<PV> {
    s.map_values(|v: T| v@)
}

/// printf flags: `-` left-justify, `+` sign, ` ` space, `#` alternate form, `0` zero pad.
#[derive(Clone, Copy)]
pub struct Flags {
    pub left: bool,
    pub plus: bool,
    pub space: bool,
    pub alt: bool,
    pub zero: bool,
}

/// The evaluator state: the read position, the stack, the output so far, the (at least nine)
/// parameters, and the 26 dynamic and 26 static variables.
pub struct TpState {
    pub i: int,
    pub stack: Seq<PV>,
    pub out: Seq<u8>,
    pub params: Seq<PV>,
    pub dvars: Seq<PV>,
    pub svars: Seq<PV>,
}

/// The integer value of a cell (strings count as 0).
pub open spec fn as_int(v: PV) -> i32 {
    match v {
        PV::Int(n) => n,
        PV::Str(_) => 0,
    }
}

/// Pop a cell; an empty stack yields the integer 0.
pub open spec fn pop_spec(st: Seq<PV>) -> (PV, Seq<PV>) {
    if st.len() == 0 {
        (PV::Int(0), st)
    } else {
        (st.last(), st.drop_last())
    }
}

/// The parameters padded with integer zeros to at least nine.
pub open spec fn padded_params(p: Seq<PV>) -> Seq<PV> {
    if p.len() >= 9 {
        p
    } else {
        p + Seq::new((9 - p.len()) as nat, |_k: int| PV::Int(0))
    }
}

/// The starting state for a parameter list.
pub open spec fn tp_init(params: Seq<PV>) -> TpState {
    TpState {
        i: 0,
        stack: Seq::empty(),
        out: Seq::empty(),
        params: padded_params(params),
        dvars: Seq::new(26, |_k: int| PV::Int(0)),
        svars: Seq::new(26, |_k: int| PV::Int(0)),
    }
}

/// The byte at `i`, or `dflt` when `i` is out of range.
pub open spec fn byte_or(b: Seq<u8>, i: int, dflt: u8) -> u8 {
    if 0 <= i < b.len() {
        b[i]
    } else {
        dflt
    }
}

/// Whether `c` is a printf flag character.
pub open spec fn is_flag(c: u8) -> bool {
    c == 0x2du8 || c == 0x2bu8 || c == 0x20u8 || c == 0x23u8 || c == 0x30u8
}

/// Record flag `c`.
pub open spec fn set_flag(f: Flags, c: u8) -> Flags {
    if c == 0x2du8 {
        Flags { left: true, ..f }
    } else if c == 0x2bu8 {
        Flags { plus: true, ..f }
    } else if c == 0x20u8 {
        Flags { space: true, ..f }
    } else if c == 0x23u8 {
        Flags { alt: true, ..f }
    } else {
        Flags { zero: true, ..f }
    }
}

/// No flags.
pub open spec fn no_flags() -> Flags {
    Flags { left: false, plus: false, space: false, alt: false, zero: false }
}

/// Read printf flags from `i`.
pub open spec fn pf_flags(b: Seq<u8>, i: int, f: Flags) -> (int, Flags)
    decreases b.len() - i,
{
    if 0 <= i < b.len() && is_flag(b[i]) {
        pf_flags(b, i + 1, set_flag(f, b[i]))
    } else {
        (i, f)
    }
}

/// Read a decimal number from `i` (wrapping on overflow); also whether any digit was read.
pub open spec fn pf_num(b: Seq<u8>, i: int, acc: usize, seen: bool) -> (int, usize, bool)
    decreases b.len() - i,
{
    if 0 <= i < b.len() && is_digit(b[i]) {
        pf_num(b, i + 1, acc.wrapping_mul(10).wrapping_add((b[i] - 48) as usize), true)
    } else {
        (i, acc, seen)
    }
}

/// Whether `c` is a printf conversion: `d o x X s c`.
pub open spec fn is_conv(c: u8) -> bool {
    c == 0x64u8 || c == 0x6fu8 || c == 0x78u8 || c == 0x58u8 || c == 0x73u8 || c == 0x63u8
}

/// `n` copies of byte `b`.
pub open spec fn rep(b: u8, n: int) -> Seq<u8> {
    Seq::new(if n < 0 { 0 } else { n as nat }, |_k: int| b)
}

/// The unsigned 32-bit reading of `v` (two's complement).
pub open spec fn u32_of(v: i32) -> nat {
    if v < 0 {
        (v + 4294967296) as nat
    } else {
        v as nat
    }
}

/// `%s`: precision truncates, width pads with spaces (on the right when left-justified).
pub open spec fn fmt_str(s: Seq<u8>, f: Flags, width: Option<usize>, prec: Option<usize>) -> Seq<u8> {
    let body = match prec {
        Some(p) => if p < s.len() {
            s.take(p as int)
        } else {
            s
        },
        None => s,
    };
    match width {
        Some(w) => if body.len() < w {
            if f.left {
                body + rep(0x20u8, w - body.len())
            } else {
                rep(0x20u8, w - body.len()) + body
            }
        } else {
            body
        },
        None => body,
    }
}

/// The digits and the sign/radix prefix of an integer conversion.
pub open spec fn int_parts(v: i32, conv: u8, f: Flags) -> (Seq<u8>, Seq<u8>) {
    if conv == 0x64u8 {
        let mag = digits((if v < 0 { -v } else { v as int }) as nat, 10, false);
        let sign = if v < 0 {
            seq![0x2du8]
        } else if f.plus {
            seq![0x2bu8]
        } else if f.space {
            seq![0x20u8]
        } else {
            seq![]
        };
        (mag, sign)
    } else if conv == 0x6fu8 {
        let s = digits(u32_of(v), 8, false);
        (s, if f.alt && s[0] != 0x30u8 { seq![0x30u8] } else { seq![] })
    } else if conv == 0x78u8 {
        (digits(u32_of(v), 16, false), if f.alt && v != 0 { seq![0x30u8, 0x78u8] } else { seq![] })
    } else if conv == 0x58u8 {
        (digits(u32_of(v), 16, true), if f.alt && v != 0 { seq![0x30u8, 0x58u8] } else { seq![] })
    } else {
        (dec(v as int), seq![])
    }
}

/// `%d %o %x %X`: the digits zero-extended to the precision, the prefix, and the width padding
/// (spaces, or zeros after the prefix with `0` and no precision).
pub open spec fn fmt_int(v: i32, conv: u8, f: Flags, width: Option<usize>, prec: Option<usize>) -> Seq<u8> {
    let (ds, prefix) = int_parts(v, conv, f);
    let num = match prec {
        Some(p) => if ds.len() < p {
            rep(0x30u8, p - ds.len()) + ds
        } else {
            ds
        },
        None => ds,
    };
    let s = prefix + num;
    match width {
        Some(w) => if s.len() < w {
            let pad = w - s.len();
            if f.left {
                s + rep(0x20u8, pad)
            } else if f.zero && prec is None {
                prefix + rep(0x30u8, pad) + num
            } else {
                rep(0x20u8, pad) + s
            }
        } else {
            s
        },
        None => s,
    }
}

/// `%c`: the low byte of the value; 0 is emitted as `0x80`, never as a NUL.
pub open spec fn char_byte(v: i32) -> u8 {
    let c = (u32_of(v) % 256) as u8;
    if c == 0 {
        0x80u8
    } else {
        c
    }
}

/// Try a printf conversion `%[:][flags][width][.prec]conv` whose text starts at `start` (just
/// past the `%`): the rendered bytes, the position after it, and the stack after popping its
/// argument; `None` when the text is not a printf conversion.
pub open spec fn printf_spec(b: Seq<u8>, start: int, stack: Seq<PV>) -> Option<(Seq<u8>, int, Seq<PV>)> {
    let i0 = if byte_or(b, start, 0) == 0x3au8 && 0 <= start < b.len() {
        start + 1
    } else {
        start
    };
    let (i1, f) = pf_flags(b, i0, no_flags());
    let (i2, w, has_w) = pf_num(b, i1, 0, false);
    let (i3, prec) = if 0 <= i2 < b.len() && b[i2] == 0x2eu8 {
        let (j, p, _s) = pf_num(b, i2 + 1, 0, false);
        (j, Some(p))
    } else {
        (i2, None::<usize>)
    };
    if !(0 <= i3 < b.len()) || !is_conv(b[i3]) {
        None
    } else {
        let conv = b[i3];
        let width = if has_w {
            Some(w)
        } else {
            None
        };
        let (top, rest) = pop_spec(stack);
        if conv == 0x63u8 {
            Some((seq![char_byte(as_int(top))], i3 + 1, rest))
        } else if conv == 0x73u8 {
            let s = match top {
                PV::Str(s) => s,
                PV::Int(_) => Seq::empty(),
            };
            Some((fmt_str(s, f, width, prec), i3 + 1, rest))
        } else {
            Some((fmt_int(as_int(top), conv, f, width, prec), i3 + 1, rest))
        }
    }
}

/// Skip conditional-branch text from `i`, honouring nested `%?..%;`: stop just past the
/// top-level `%;` (or, when `stop_at_else`, just past a top-level `%e`), or at the end.
pub open spec fn skip_spec(b: Seq<u8>, i: int, depth: nat, stop_at_else: bool) -> int
    decreases b.len() - i,
{
    if i < 0 || i >= b.len() {
        i
    } else if b[i] == 0x25u8 && i + 1 < b.len() {
        let c = b[i + 1];
        if c == 0x3fu8 {
            skip_spec(b, i + 2, depth + 1, stop_at_else)
        } else if c == 0x3bu8 {
            if depth == 0 {
                i + 2
            } else {
                skip_spec(b, i + 2, (depth - 1) as nat, stop_at_else)
            }
        } else if c == 0x65u8 {
            if depth == 0 && stop_at_else {
                i + 2
            } else {
                skip_spec(b, i + 2, depth, stop_at_else)
            }
        } else {
            skip_spec(b, i + 2, depth, stop_at_else)
        }
    } else {
        skip_spec(b, i + 1, depth, stop_at_else)
    }
}

/// Rust's truncating division on `i32`, wrapping for `i32::MIN / -1`; division by zero gives 0.
pub open spec fn tdiv(x: i32, y: i32) -> i32 {
    if y == 0 {
        0
    } else if x == i32::MIN && y == -1 {
        i32::MIN
    } else {
        let ax: int = if x < 0 { -x } else { x as int };
        let ay: int = if y < 0 { -y } else { y as int };
        let q = ax / ay;
        (if (x < 0) != (y < 0) { -q } else { q }) as i32
    }
}

/// Rust's truncating remainder on `i32` (sign of the dividend); remainder by zero gives 0.
pub open spec fn trem(x: i32, y: i32) -> i32 {
    if y == 0 {
        0
    } else {
        let ax: int = if x < 0 { -x } else { x as int };
        let ay: int = if y < 0 { -y } else { y as int };
        let r = ax % ay;
        (if x < 0 { -r } else { r }) as i32
    }
}

/// A binary operator's result.
pub open spec fn binop(op: u8, x: i32, y: i32) -> i32 {
    if op == 0x2bu8 {
        x.wrapping_add(y)
    } else if op == 0x2du8 {
        x.wrapping_sub(y)
    } else if op == 0x2au8 {
        x.wrapping_mul(y)
    } else if op == 0x2fu8 {
        tdiv(x, y)
    } else if op == 0x6du8 {
        trem(x, y)
    } else if op == 0x26u8 {
        x & y
    } else if op == 0x7cu8 {
        x | y
    } else if op == 0x5eu8 {
        x ^ y
    } else if op == 0x3du8 {
        if x == y { 1 } else { 0 }
    } else if op == 0x3eu8 {
        if x > y { 1 } else { 0 }
    } else if op == 0x3cu8 {
        if x < y { 1 } else { 0 }
    } else if op == 0x41u8 {
        if x != 0 && y != 0 { 1 } else { 0 }
    } else {
        if x != 0 || y != 0 { 1 } else { 0 }
    }
}

/// Whether `op` is a binary operator: `+ - * / m & | ^ = > < A O`.
pub open spec fn is_binop(op: u8) -> bool {
    op == 0x2bu8 || op == 0x2du8 || op == 0x2au8 || op == 0x2fu8 || op == 0x6du8 || op == 0x26u8
        || op == 0x7cu8 || op == 0x5eu8 || op == 0x3du8 || op == 0x3eu8 || op == 0x3cu8 || op
        == 0x41u8 || op == 0x4fu8
}

/// Read the digits of a `%{nn}` constant from `i` (wrapping on overflow).
pub open spec fn const_num(b: Seq<u8>, i: int, acc: i32) -> (int, i32)
    decreases b.len() - i,
{
    if 0 <= i < b.len() && is_digit(b[i]) {
        const_num(b, i + 1, acc.wrapping_mul(10).wrapping_add((b[i] - 48) as i32))
    } else {
        (i, acc)
    }
}

/// `%i`: add one to the first two parameters when they are integers.
pub open spec fn bump(p: PV) -> PV {
    match p {
        PV::Int(v) => PV::Int(v.wrapping_add(1)),
        PV::Str(s) => PV::Str(s),
    }
}

/// The position after an operand byte at `i` (the end when there is none).
pub open spec fn next_pos(b: Seq<u8>, i: int) -> int {
    if i < b.len() {
        i + 1
    } else {
        i
    }
}

/// The effect of the operator `op` read at `b[i-1]`, with `s.i` already past it.
pub open spec fn tp_op(b: Seq<u8>, s: TpState, op: u8) -> TpState {
    let i = s.i;
    if op == 0x25u8 {
        TpState { out: s.out.push(0x25u8), ..s }
    } else if op == 0x69u8 {
        TpState { params: s.params.update(0, bump(s.params[0])).update(1, bump(s.params[1])), ..s }
    } else if op == 0x70u8 {
        let n = byte_or(b, i, 0x30u8);
        let idx: int = if n >= 49 { n - 49 } else { n + 256 - 49 };
        let v = if idx < s.params.len() { s.params[idx] } else { PV::Int(0) };
        TpState { i: next_pos(b, i), stack: s.stack.push(v), ..s }
    } else if op == 0x50u8 {
        let n = byte_or(b, i, 0x61u8);
        let (v, st) = pop_spec(s.stack);
        if 97 <= n <= 122 {
            TpState { i: next_pos(b, i), stack: st, dvars: s.dvars.update(n - 97, v), ..s }
        } else if 65 <= n <= 90 {
            TpState { i: next_pos(b, i), stack: st, svars: s.svars.update(n - 65, v), ..s }
        } else {
            TpState { i: next_pos(b, i), stack: st, ..s }
        }
    } else if op == 0x67u8 {
        let n = byte_or(b, i, 0x61u8);
        let v = if 97 <= n <= 122 {
            s.dvars[n - 97]
        } else if 65 <= n <= 90 {
            s.svars[n - 65]
        } else {
            PV::Int(0)
        };
        TpState { i: next_pos(b, i), stack: s.stack.push(v), ..s }
    } else if op == 0x27u8 {
        let c = byte_or(b, i, 0);
        let j = if byte_or(b, i + 1, 0) == 0x27u8 && 0 <= i + 1 < b.len() {
            i + 2
        } else {
            next_pos(b, i)
        };
        TpState { i: j, stack: s.stack.push(PV::Int(c as i32)), ..s }
    } else if op == 0x7bu8 {
        let neg = byte_or(b, i, 0) == 0x2du8 && 0 <= i < b.len();
        let i1 = if neg { i + 1 } else { i };
        let (i2, n) = const_num(b, i1, 0);
        let i3 = if 0 <= i2 < b.len() && b[i2] == 0x7du8 { i2 + 1 } else { i2 };
        TpState { i: i3, stack: s.stack.push(PV::Int(if neg { 0i32.wrapping_sub(n) } else { n })), ..s }
    } else if op == 0x6cu8 {
        let (v, st) = pop_spec(s.stack);
        let len: i32 = match v {
            PV::Str(t) => t.len() as i32,
            PV::Int(_) => 0,
        };
        TpState { stack: st.push(PV::Int(len)), ..s }
    } else if is_binop(op) {
        let (yv, st1) = pop_spec(s.stack);
        let (xv, st2) = pop_spec(st1);
        TpState { stack: st2.push(PV::Int(binop(op, as_int(xv), as_int(yv)))), ..s }
    } else if op == 0x21u8 {
        let (xv, st) = pop_spec(s.stack);
        TpState { stack: st.push(PV::Int(if as_int(xv) == 0 { 1 } else { 0 })), ..s }
    } else if op == 0x7eu8 {
        let (xv, st) = pop_spec(s.stack);
        TpState { stack: st.push(PV::Int(!as_int(xv))), ..s }
    } else if op == 0x74u8 {
        let (cv, st) = pop_spec(s.stack);
        if as_int(cv) == 0 {
            TpState { i: skip_spec(b, i, 0, true), stack: st, ..s }
        } else {
            TpState { stack: st, ..s }
        }
    } else if op == 0x65u8 {
        TpState { i: skip_spec(b, i, 0, false), ..s }
    } else {
        s
    }
}

/// One step of the evaluator at position `s.i` (which is in range).
pub open spec fn tp_step(b: Seq<u8>, s: TpState) -> TpState {
    let i = s.i;
    if b[i] != 0x25u8 {
        TpState { i: i + 1, out: s.out.push(b[i]), ..s }
    } else {
        match printf_spec(b, i + 1, s.stack) {
            Some((text, next, st)) => TpState { i: next, out: s.out + text, stack: st, ..s },
            None => if i + 1 >= b.len() {
                TpState { i: b.len() as int, ..s }
            } else {
                tp_op(b, TpState { i: i + 2, ..s }, b[i + 1])
            },
        }
    }
}

/// Run the evaluator from state `s` to the end of `b`.
pub open spec fn tp_run(b: Seq<u8>, s: TpState) -> TpState
    decreases b.len() + 2 - s.i,
{
    if s.i < 0 || s.i >= b.len() {
        s
    } else {
        let t = tp_step(b, s);
        if s.i < t.i <= b.len() {
            tp_run(b, t)
        } else {
            s
        }
    }
}

/// The bytes `tparm(cap, params)` produces.
pub open spec fn tparm_spec(cap: Seq<u8>, params: Seq<PV>) -> Seq<u8> {
    tp_run(cap, tp_init(params)).out
}

} // verus!

verus! {

// ---------------------------------------------------------------------------
// Bounds on the scanning spec functions.
// ---------------------------------------------------------------------------

proof fn lemma_pf_flags_bound(b: Seq<u8>, i: int, f: Flags)
    requires
        0 <= i,
    ensures
        i <= pf_flags(b, i, f).0,
        i <= b.len() ==> pf_flags(b, i, f).0 <= b.len(),
    decreases b.len() - i,
{
    if 0 <= i < b.len() && is_flag(b[i]) {
        lemma_pf_flags_bound(b, i + 1, set_flag(f, b[i]));
    }
}

proof fn lemma_pf_num_bound(b: Seq<u8>, i: int, acc: usize, seen: bool)
    requires
        0 <= i,
    ensures
        i <= pf_num(b, i, acc, seen).0,
        i <= b.len() ==> pf_num(b, i, acc, seen).0 <= b.len(),
    decreases b.len() - i,
{
    if 0 <= i < b.len() && is_digit(b[i]) {
        lemma_pf_num_bound(b, i + 1, acc.wrapping_mul(10).wrapping_add((b[i] - 48) as usize), true);
    }
}

proof fn lemma_const_num_bound(b: Seq<u8>, i: int, acc: i32)
    requires
        0 <= i,
    ensures
        i <= const_num(b, i, acc).0,
        i <= b.len() ==> const_num(b, i, acc).0 <= b.len(),
    decreases b.len() - i,
{
    if 0 <= i < b.len() && is_digit(b[i]) {
        lemma_const_num_bound(b, i + 1, acc.wrapping_mul(10).wrapping_add((b[i] - 48) as i32));
    }
}

proof fn lemma_skip_bound(b: Seq<u8>, i: int, depth: nat, stop: bool)
    requires
        0 <= i <= b.len(),
    ensures
        i <= skip_spec(b, i, depth, stop) <= b.len(),
    decreases b.len() - i,
{
    if i < b.len() {
        if b[i] == 0x25u8 && i + 1 < b.len() {
            let c = b[i + 1];
            if c == 0x3fu8 {
                lemma_skip_bound(b, i + 2, depth + 1, stop);
            } else if c == 0x3bu8 {
                if depth != 0 {
                    lemma_skip_bound(b, i + 2, (depth - 1) as nat, stop);
                }
            } else if c == 0x65u8 {
                if !(depth == 0 && stop) {
                    lemma_skip_bound(b, i + 2, depth, stop);
                }
            } else {
                lemma_skip_bound(b, i + 2, depth, stop);
            }
        } else {
            lemma_skip_bound(b, i + 1, depth, stop);
        }
    }
}

proof fn lemma_pvs_push<T: View<V = PV>>(s: Seq<T>, x: T)
    ensures
        pvs(s.push(x)) == pvs(s).push(x@),
{
    assert(pvs(s.push(x)) =~= pvs(s).push(x@));
}

// ---------------------------------------------------------------------------
// Executable pieces.
// ---------------------------------------------------------------------------

fn clone_bytes(s: &Vec<u8>) -> (r: Vec<u8>)
    ensures
        r@ == s@,
{
    let mut r: Vec<u8> = Vec::new();
    push_bytes(&mut r, s.as_slice());
    assert(r@ =~= s@);
    r
}

fn clone_val(v: &Val) -> (r: Val)
    ensures
        r@ == v@,
{
    match v {
        Val::Int(n) => Val::Int(*n),
        Val::Str(s) => Val::Str(clone_bytes(s)),
    }
}

fn pop_val(stack: &mut Vec<Val>) -> (v: Val)
    ensures
        (v@, pvs(final(stack)@)) == pop_spec(pvs(old(stack)@)),
{
    let ghost old_st = stack@;
    match stack.pop() {
        Some(v) => {
            assert(pvs(stack@) =~= pvs(old_st).drop_last());
            v
        },
        None => Val::Int(0),
    }
}

fn pop_int(stack: &mut Vec<Val>) -> (n: i32)
    ensures
        n == as_int(pop_spec(pvs(old(stack)@)).0),
        pvs(final(stack)@) == pop_spec(pvs(old(stack)@)).1,
{
    let v = pop_val(stack);
    match v {
        Val::Int(n) => n,
        Val::Str(_) => 0,
    }
}

fn push_val(stack: &mut Vec<Val>, v: Val)
    ensures
        pvs(final(stack)@) == pvs(old(stack)@).push(v@),
{
    stack.push(v);
    assert(pvs(stack@) =~= pvs(old(stack)@).push(v@));
}

fn next_pos_exec(b: &[u8], i: usize) -> (r: usize)
    requires
        i <= b@.len(),
    ensures
        r as int == next_pos(b@, i as int),
{
    if i < b.len() {
        i + 1
    } else {
        i
    }
}

fn get_or(b: &[u8], i: usize, dflt: u8) -> (r: u8)
    ensures
        r == byte_or(b@, i as int, dflt),
{
    if i < b.len() {
        b[i]
    } else {
        dflt
    }
}

fn read_flags(b: &[u8], start: usize) -> (r: (usize, Flags))
    requires
        start <= b@.len(),
    ensures
        (r.0 as int, r.1) == pf_flags(b@, start as int, no_flags()),
{
    let mut i = start;
    let mut f = Flags { left: false, plus: false, space: false, alt: false, zero: false };
    while i < b.len() && (b[i] == 0x2du8 || b[i] == 0x2bu8 || b[i] == 0x20u8 || b[i] == 0x23u8
        || b[i] == 0x30u8)
        invariant
            start <= i <= b@.len(),
            pf_flags(b@, i as int, f) == pf_flags(b@, start as int, no_flags()),
        decreases b@.len() - i,
    {
        let c = b[i];
        if c == 0x2du8 {
            f.left = true;
        } else if c == 0x2bu8 {
            f.plus = true;
        } else if c == 0x20u8 {
            f.space = true;
        } else if c == 0x23u8 {
            f.alt = true;
        } else {
            f.zero = true;
        }
        i = i + 1;
    }
    (i, f)
}

fn read_num(b: &[u8], start: usize) -> (r: (usize, usize, bool))
    requires
        start <= b@.len(),
    ensures
        (r.0 as int, r.1, r.2) == pf_num(b@, start as int, 0, false),
        start <= r.0 <= b@.len(),
{
    let mut i = start;
    let mut acc: usize = 0;
    let mut seen = false;
    while i < b.len() && 48u8 <= b[i] && b[i] <= 57u8
        invariant
            start <= i <= b@.len(),
            pf_num(b@, i as int, acc, seen) == pf_num(b@, start as int, 0, false),
        decreases b@.len() - i,
    {
        acc = acc.wrapping_mul(10).wrapping_add((b[i] - 48) as usize);
        seen = true;
        i = i + 1;
    }
    (i, acc, seen)
}

fn fmt_str_exec(s: &[u8], f: Flags, width: Option<usize>, prec: Option<usize>) -> (r: Vec<u8>)
    ensures
        r@ == fmt_str(s@, f, width, prec),
{
    let mut body: Vec<u8> = Vec::new();
    let take = match prec {
        Some(p) => if p < s.len() {
            p
        } else {
            s.len()
        },
        None => s.len(),
    };
    let mut k: usize = 0;
    while k < take
        invariant
            take <= s@.len(),
            k <= take,
            body@ == s@.take(k as int),
        decreases take - k,
    {
        body.push(s[k]);
        k = k + 1;
        assert(body@ =~= s@.take(k as int));
    }
    let ghost bview = match prec {
        Some(p) => if p < s@.len() {
            s@.take(p as int)
        } else {
            s@
        },
        None => s@,
    };
    assert(body@ =~= bview);
    match width {
        Some(w) => if body.len() < w {
            let pad = w - body.len();
            if f.left {
                push_repeat(&mut body, 0x20u8, pad);
                assert(body@ =~= fmt_str(s@, f, width, prec));
                body
            } else {
                let mut r: Vec<u8> = Vec::new();
                push_repeat(&mut r, 0x20u8, pad);
                push_bytes(&mut r, body.as_slice());
                assert(r@ =~= fmt_str(s@, f, width, prec));
                r
            }
        } else {
            body
        },
        None => body,
    }
}

fn u32_bits(v: i32) -> (u: u64)
    ensures
        u as nat == u32_of(v),
        u < 4294967296,
{
    if v < 0 {
        (v as i64 + 4294967296) as u64
    } else {
        v as u64
    }
}

#[verifier::rlimit(40)]
fn fmt_int_exec(v: i32, conv: u8, f: Flags, width: Option<usize>, prec: Option<usize>) -> (r: Vec<u8>)
    ensures
        r@ == fmt_int(v, conv, f, width, prec),
{
    let ghost parts = int_parts(v, conv, f);
    let mut ds: Vec<u8> = Vec::new();
    let mut prefix: Vec<u8> = Vec::new();
    if conv == 0x64u8 {
        let m: u64 = if v < 0 {
            (-(v as i64)) as u64
        } else {
            v as u64
        };
        push_digits(&mut ds, m, 10, false);
        if v < 0 {
            prefix.push(0x2du8);
        } else if f.plus {
            prefix.push(0x2bu8);
        } else if f.space {
            prefix.push(0x20u8);
        }
    } else if conv == 0x6fu8 {
        push_digits(&mut ds, u32_bits(v), 8, false);
        proof {
            lemma_digits_nonempty(u32_of(v), 8, false);
        }
        if f.alt && ds[0] != 0x30u8 {
            prefix.push(0x30u8);
        }
    } else if conv == 0x78u8 {
        push_digits(&mut ds, u32_bits(v), 16, false);
        if f.alt && v != 0 {
            prefix.push(0x30u8);
            prefix.push(0x78u8);
        }
    } else if conv == 0x58u8 {
        push_digits(&mut ds, u32_bits(v), 16, true);
        if f.alt && v != 0 {
            prefix.push(0x30u8);
            prefix.push(0x58u8);
        }
    } else {
        push_dec(&mut ds, v as i64);
    }
    assert(ds@ =~= parts.0);
    assert(prefix@ =~= parts.1);
    let mut num: Vec<u8> = Vec::new();
    match prec {
        Some(p) => if ds.len() < p {
            push_repeat(&mut num, 0x30u8, p - ds.len());
        },
        None => {},
    }
    push_bytes(&mut num, ds.as_slice());
    let ghost numv = match prec {
        Some(p) => if parts.0.len() < p {
            rep(0x30u8, p - parts.0.len()) + parts.0
        } else {
            parts.0
        },
        None => parts.0,
    };
    assert(num@ =~= numv);
    let mut s: Vec<u8> = Vec::new();
    push_bytes(&mut s, prefix.as_slice());
    push_bytes(&mut s, num.as_slice());
    assert(s@ =~= parts.1 + numv);
    match width {
        Some(w) => if s.len() < w {
            let pad = w - s.len();
            if f.left {
                push_repeat(&mut s, 0x20u8, pad);
                assert(s@ =~= fmt_int(v, conv, f, width, prec));
                s
            } else if f.zero && prec.is_none() {
                let mut z: Vec<u8> = Vec::new();
                push_bytes(&mut z, prefix.as_slice());
                push_repeat(&mut z, 0x30u8, pad);
                push_bytes(&mut z, num.as_slice());
                assert(z@ =~= fmt_int(v, conv, f, width, prec));
                z
            } else {
                let mut z: Vec<u8> = Vec::new();
                push_repeat(&mut z, 0x20u8, pad);
                push_bytes(&mut z, s.as_slice());
                assert(z@ =~= fmt_int(v, conv, f, width, prec));
                z
            }
        } else {
            s
        },
        None => s,
    }
}

fn char_byte_exec(v: i32) -> (c: u8)
    ensures
        c == char_byte(v),
{
    let u = u32_bits(v);
    let c = (u % 256) as u8;
    if c == 0 {
        0x80u8
    } else {
        c
    }
}

/// Try to parse and apply a printf conversion whose text starts at `start` (just past `%`).
fn parse_printf(b: &[u8], start: usize, stack: &mut Vec<Val>) -> (r: Option<(Vec<u8>, usize)>)
    requires
        start <= b@.len(),
    ensures
        match printf_spec(b@, start as int, pvs(old(stack)@)) {
            None => r is None && final(stack)@ == old(stack)@,
            Some((t, n, st)) => {
                &&& r matches Some((rt, rn))
                &&& rt@ == t
                &&& rn as int == n
                &&& pvs(final(stack)@) == st
            },
        },
{
    let i0 = if start < b.len() && b[start] == 0x3au8 {
        start + 1
    } else {
        start
    };
    let (i1, f) = read_flags(b, i0);
    proof {
        lemma_pf_flags_bound(b@, i0 as int, no_flags());
    }
    let (i2, w, has_w) = read_num(b, i1);
    let mut i3 = i2;
    let mut prec: Option<usize> = None;
    if i2 < b.len() && b[i2] == 0x2eu8 {
        let (j, p, _s) = read_num(b, i2 + 1);
        i3 = j;
        prec = Some(p);
    }
    if i3 >= b.len() {
        return None;
    }
    let conv = b[i3];
    if !(conv == 0x64u8 || conv == 0x6fu8 || conv == 0x78u8 || conv == 0x58u8 || conv == 0x73u8
        || conv == 0x63u8) {
        return None;
    }
    let width = if has_w {
        Some(w)
    } else {
        None
    };
    let text = if conv == 0x63u8 {
        let n = pop_int(stack);
        let mut t: Vec<u8> = Vec::new();
        t.push(char_byte_exec(n));
        assert(t@ =~= seq![char_byte(n)]);
        t
    } else if conv == 0x73u8 {
        let v = pop_val(stack);
        match v {
            Val::Str(s) => fmt_str_exec(s.as_slice(), f, width, prec),
            Val::Int(_) => {
                let e: Vec<u8> = Vec::new();
                let r = fmt_str_exec(e.as_slice(), f, width, prec);
                assert(e@ =~= Seq::<u8>::empty());
                r
            },
        }
    } else {
        let n = pop_int(stack);
        fmt_int_exec(n, conv, f, width, prec)
    };
    Some((text, i3 + 1))
}

/// Skip conditional-branch text from `i` (see [`skip_spec`]).
fn skip_branch(b: &[u8], start: usize, stop_at_else: bool) -> (r: usize)
    requires
        start <= b@.len(),
    ensures
        r as int == skip_spec(b@, start as int, 0, stop_at_else),
{
    let mut i = start;
    let mut depth: usize = 0;
    while i < b.len()
        invariant
            start <= i <= b@.len(),
            depth <= i,
            skip_spec(b@, i as int, depth as nat, stop_at_else) == skip_spec(
                b@,
                start as int,
                0,
                stop_at_else,
            ),
        decreases b@.len() - i,
    {
        if b[i] == 0x25u8 && i + 1 < b.len() {
            let c = b[i + 1];
            if c == 0x3fu8 {
                depth = depth + 1;
                i = i + 2;
            } else if c == 0x3bu8 {
                if depth == 0 {
                    return i + 2;
                }
                depth = depth - 1;
                i = i + 2;
            } else if c == 0x65u8 {
                if depth == 0 && stop_at_else {
                    return i + 2;
                }
                i = i + 2;
            } else {
                i = i + 2;
            }
        } else {
            i = i + 1;
        }
    }
    i
}

fn tdiv_exec(x: i32, y: i32) -> (r: i32)
    ensures
        r == tdiv(x, y),
{
    if y == 0 {
        0
    } else if x == i32::MIN && y == -1 {
        i32::MIN
    } else {
        let ax: u64 = if x < 0 {
            (-(x as i64)) as u64
        } else {
            x as u64
        };
        let ay: u64 = if y < 0 {
            (-(y as i64)) as u64
        } else {
            y as u64
        };
        let q: i64 = (ax / ay) as i64;
        let s: i64 = if (x < 0) != (y < 0) {
            -q
        } else {
            q
        };
        s as i32
    }
}

fn trem_exec(x: i32, y: i32) -> (r: i32)
    ensures
        r == trem(x, y),
{
    if y == 0 {
        0
    } else {
        let ax: u64 = if x < 0 {
            (-(x as i64)) as u64
        } else {
            x as u64
        };
        let ay: u64 = if y < 0 {
            (-(y as i64)) as u64
        } else {
            y as u64
        };
        let q: i64 = (ax % ay) as i64;
        let s: i64 = if x < 0 {
            -q
        } else {
            q
        };
        s as i32
    }
}

fn binop_exec(op: u8, x: i32, y: i32) -> (r: i32)
    ensures
        r == binop(op, x, y),
{
    if op == 0x2bu8 {
        x.wrapping_add(y)
    } else if op == 0x2du8 {
        x.wrapping_sub(y)
    } else if op == 0x2au8 {
        x.wrapping_mul(y)
    } else if op == 0x2fu8 {
        tdiv_exec(x, y)
    } else if op == 0x6du8 {
        trem_exec(x, y)
    } else if op == 0x26u8 {
        x & y
    } else if op == 0x7cu8 {
        x | y
    } else if op == 0x5eu8 {
        x ^ y
    } else if op == 0x3du8 {
        if x == y { 1 } else { 0 }
    } else if op == 0x3eu8 {
        if x > y { 1 } else { 0 }
    } else if op == 0x3cu8 {
        if x < y { 1 } else { 0 }
    } else if op == 0x41u8 {
        if x != 0 && y != 0 { 1 } else { 0 }
    } else {
        if x != 0 || y != 0 { 1 } else { 0 }
    }
}

fn read_const(b: &[u8], start: usize) -> (r: (usize, i32))
    requires
        start <= b@.len(),
    ensures
        (r.0 as int, r.1) == const_num(b@, start as int, 0),
        start <= r.0 <= b@.len(),
{
    let mut i = start;
    let mut n: i32 = 0;
    while i < b.len() && 48u8 <= b[i] && b[i] <= 57u8
        invariant
            start <= i <= b@.len(),
            const_num(b@, i as int, n) == const_num(b@, start as int, 0),
        decreases b@.len() - i,
    {
        n = n.wrapping_mul(10).wrapping_add((b[i] - 48) as i32);
        i = i + 1;
    }
    (i, n)
}

/// The evaluator's machine state.
struct Machine {
    i: usize,
    stack: Vec<Val>,
    out: Vec<u8>,
    p: Vec<Param>,
    dvars: Vec<Val>,
    svars: Vec<Val>,
}

impl Machine {
    closed spec fn view(&self) -> TpState {
        TpState {
            i: self.i as int,
            stack: pvs(self.stack@),
            out: self.out@,
            params: pvs(self.p@),
            dvars: pvs(self.dvars@),
            svars: pvs(self.svars@),
        }
    }

    closed spec fn wf(&self) -> bool {
        &&& self.p@.len() >= 9
        &&& self.dvars@.len() == 26
        &&& self.svars@.len() == 26
    }

    fn op(&mut self, b: &[u8], op: u8)
        requires
            old(self).wf(),
            2 <= old(self).i <= b@.len(),
        ensures
            final(self).wf(),
            final(self).view() == tp_op(b@, old(self).view(), op),
    {
        let ghost s = self.view();
        let i = self.i;
        if op == 0x25u8 {
            self.out.push(0x25u8);
        } else if op == 0x69u8 {
            let a = match &self.p[0] {
                Param::Int(v) => Param::Int(v.wrapping_add(1)),
                Param::Str(t) => Param::Str(clone_bytes(t)),
            };
            self.p.set(0, a);
            let c = match &self.p[1] {
                Param::Int(v) => Param::Int(v.wrapping_add(1)),
                Param::Str(t) => Param::Str(clone_bytes(t)),
            };
            self.p.set(1, c);
            assert(pvs(self.p@) =~= s.params.update(0, bump(s.params[0])).update(1, bump(s.params[1])));
        } else if op == 0x70u8 {
            let n = get_or(b, i, 0x30u8);
            let idx: usize = if n >= 49 {
                (n - 49) as usize
            } else {
                (n as usize) + 256 - 49
            };
            let v = if idx < self.p.len() {
                match &self.p[idx] {
                    Param::Int(x) => Val::Int(*x),
                    Param::Str(t) => Val::Str(clone_bytes(t)),
                }
            } else {
                Val::Int(0)
            };
            push_val(&mut self.stack, v);
            self.i = next_pos_exec(b, i);
        } else if op == 0x50u8 {
            let n = get_or(b, i, 0x61u8);
            let v = pop_val(&mut self.stack);
            if 97 <= n && n <= 122 {
                self.dvars.set((n - 97) as usize, v);
                assert(pvs(self.dvars@) =~= s.dvars.update(n - 97, v@));
            } else if 65 <= n && n <= 90 {
                self.svars.set((n - 65) as usize, v);
                assert(pvs(self.svars@) =~= s.svars.update(n - 65, v@));
            }
            self.i = next_pos_exec(b, i);
        } else if op == 0x67u8 {
            let n = get_or(b, i, 0x61u8);
            let v = if 97 <= n && n <= 122 {
                clone_val(&self.dvars[(n - 97) as usize])
            } else if 65 <= n && n <= 90 {
                clone_val(&self.svars[(n - 65) as usize])
            } else {
                Val::Int(0)
            };
            push_val(&mut self.stack, v);
            self.i = next_pos_exec(b, i);
        } else if op == 0x27u8 {
            let c = get_or(b, i, 0);
            push_val(&mut self.stack, Val::Int(c as i32));
            if i < b.len() && i + 1 < b.len() && b[i + 1] == 0x27u8 {
                self.i = i + 2;
            } else {
                self.i = next_pos_exec(b, i);
            }
        } else if op == 0x7bu8 {
            let neg = i < b.len() && b[i] == 0x2du8;
            let i1 = if neg {
                i + 1
            } else {
                i
            };
            let (i2, n) = read_const(b, i1);
            let i3 = if i2 < b.len() && b[i2] == 0x7du8 {
                i2 + 1
            } else {
                i2
            };
            let v = if neg {
                0i32.wrapping_sub(n)
            } else {
                n
            };
            push_val(&mut self.stack, Val::Int(v));
            self.i = i3;
        } else if op == 0x6cu8 {
            let v = pop_val(&mut self.stack);
            let len: i32 = match &v {
                Val::Str(t) => t.len() as i32,
                Val::Int(_) => 0,
            };
            push_val(&mut self.stack, Val::Int(len));
        } else if op == 0x2bu8 || op == 0x2du8 || op == 0x2au8 || op == 0x2fu8 || op == 0x6du8
            || op == 0x26u8 || op == 0x7cu8 || op == 0x5eu8 || op == 0x3du8 || op == 0x3eu8 || op
            == 0x3cu8 || op == 0x41u8 || op == 0x4fu8 {
            let y = pop_int(&mut self.stack);
            let x = pop_int(&mut self.stack);
            let r = binop_exec(op, x, y);
            push_val(&mut self.stack, Val::Int(r));
        } else if op == 0x21u8 {
            let x = pop_int(&mut self.stack);
            push_val(&mut self.stack, Val::Int(if x == 0 { 1 } else { 0 }));
        } else if op == 0x7eu8 {
            let x = pop_int(&mut self.stack);
            push_val(&mut self.stack, Val::Int(!x));
        } else if op == 0x74u8 {
            let c = pop_int(&mut self.stack);
            if c == 0 {
                self.i = skip_branch(b, i, true);
            }
        } else if op == 0x65u8 {
            self.i = skip_branch(b, i, false);
        }
    }

    fn step(&mut self, b: &[u8])
        requires
            old(self).wf(),
            old(self).i < b@.len(),
        ensures
            final(self).wf(),
            final(self).view() == tp_step(b@, old(self).view()),
    {
        let i = self.i;
        if b[i] != 0x25u8 {
            self.out.push(b[i]);
            self.i = i + 1;
            return;
        }
        match parse_printf(b, i + 1, &mut self.stack) {
            Some((text, next)) => {
                push_bytes(&mut self.out, text.as_slice());
                self.i = next;
            },
            None => {
                if i + 1 >= b.len() {
                    self.i = b.len();
                } else {
                    let op = b[i + 1];
                    self.i = i + 2;
                    self.op(b, op);
                }
            },
        }
    }
}

proof fn lemma_step_advances(b: Seq<u8>, s: TpState)
    requires
        0 <= s.i < b.len(),
        s.params.len() >= 9,
    ensures
        s.i < tp_step(b, s).i <= b.len(),
{
    let i = s.i;
    if b[i] == 0x25u8 {
        let i0 = if byte_or(b, i + 1, 0) == 0x3au8 && 0 <= i + 1 < b.len() {
            i + 2
        } else {
            i + 1
        };
        lemma_pf_flags_bound(b, i0, no_flags());
        let (i1, f) = pf_flags(b, i0, no_flags());
        lemma_pf_num_bound(b, i1, 0, false);
        let (i2, w, has_w) = pf_num(b, i1, 0, false);
        if 0 <= i2 < b.len() && b[i2] == 0x2eu8 {
            lemma_pf_num_bound(b, i2 + 1, 0, false);
        }
        match printf_spec(b, i + 1, s.stack) {
            Some(_) => {},
            None => {
                if i + 1 < b.len() {
                    let op = b[i + 1];
                    let t = TpState { i: i + 2, ..s };
                    if op == 0x7bu8 {
                        let neg = byte_or(b, i + 2, 0) == 0x2du8 && 0 <= i + 2 < b.len();
                        let i1 = if neg { i + 3 } else { i + 2 };
                        lemma_const_num_bound(b, i1, 0);
                    } else if op == 0x74u8 || op == 0x65u8 {
                        lemma_skip_bound(b, i + 2, 0, true);
                        lemma_skip_bound(b, i + 2, 0, false);
                    }
                }
            },
        }
    }
}

/// Evaluate a parameterized terminfo string, reproducing ncurses `tparm`: the stack machine
/// over `%`-operations (push/pop params, arithmetic, logic, `%i` 1-based bias, `%?/%t/%e/%;`
/// conditionals, and printf-style `%d/%s/%c/...`). Padding (`$<...>`) is left in place.
/// Variables are per call.
pub fn tparm(cap: &[u8], params: &[Param]) -> (out: Vec<u8>)
    ensures
        out@ == tparm_spec(cap@, params@.map_values(|p: Param| p@)),
{
    let ghost pv = params@.map_values(|p: Param| p@);
    let mut p: Vec<Param> = Vec::new();
    let mut k: usize = 0;
    while k < params.len()
        invariant
            k <= params@.len(),
            pv == params@.map_values(|p: Param| p@),
            pvs(p@) == pv.take(k as int),
        decreases params@.len() - k,
    {
        let q = match &params[k] {
            Param::Int(v) => Param::Int(*v),
            Param::Str(t) => Param::Str(clone_bytes(t)),
        };
        let ghost old_p = p@;
        p.push(q);
        proof {
            lemma_pvs_push(old_p, q);
            assert(pv[k as int] == params@[k as int]@);
            assert(pv.take(k + 1) =~= pv.take(k as int).push(pv[k as int]));
        }
        k = k + 1;
    }
    assert(pv.take(params@.len() as int) =~= pv);
    let ghost base = p@.len();
    while p.len() < 9
        invariant
            base == pv.len(),
            p@.len() >= base,
            base >= 9 ==> p@.len() == base,
            base < 9 ==> p@.len() <= 9,
            pvs(p@) == pv + Seq::new((p@.len() - base) as nat, |_k: int| PV::Int(0)),
        decreases 9 - p@.len(),
    {
        let ghost old_p = p@;
        p.push(Param::Int(0));
        proof {
            lemma_pvs_push(old_p, Param::Int(0));
            assert(pv + Seq::new((p@.len() - base) as nat, |_k: int| PV::Int(0)) =~= (pv
                + Seq::new((old_p.len() - base) as nat, |_k: int| PV::Int(0))).push(PV::Int(0)));
        }
    }
    proof {
        if pv.len() >= 9 {
            assert(pv + Seq::new((p@.len() - base) as nat, |_k: int| PV::Int(0)) =~= pv);
        }
    }
    assert(pvs(p@) == padded_params(pv));
    let mut dvars: Vec<Val> = Vec::new();
    let mut svars: Vec<Val> = Vec::new();
    let mut j: usize = 0;
    while j < 26
        invariant
            j <= 26,
            dvars@.len() == j,
            svars@.len() == j,
            pvs(dvars@) == Seq::new(j as nat, |_k: int| PV::Int(0)),
            pvs(svars@) == Seq::new(j as nat, |_k: int| PV::Int(0)),
        decreases 26 - j,
    {
        let ghost od = dvars@;
        let ghost os = svars@;
        dvars.push(Val::Int(0));
        svars.push(Val::Int(0));
        proof {
            lemma_pvs_push(od, Val::Int(0));
            lemma_pvs_push(os, Val::Int(0));
            assert(Seq::new((j + 1) as nat, |_k: int| PV::Int(0)) =~= Seq::new(
                j as nat,
                |_k: int| PV::Int(0),
            ).push(PV::Int(0)));
        }
        j = j + 1;
    }
    let mut m = Machine { i: 0, stack: Vec::new(), out: Vec::new(), p, dvars, svars };
    assert(m.view().stack =~= Seq::<PV>::empty());
    assert(m.view().out =~= Seq::<u8>::empty());
    assert(m.view() == tp_init(pv));
    while m.i < cap.len()
        invariant
            m.wf(),
            tp_run(cap@, m.view()) == tp_run(cap@, tp_init(pv)),
        decreases cap@.len() + 2 - m.i,
    {
        let ghost before = m.view();
        proof {
            lemma_step_advances(cap@, before);
        }
        m.step(cap);
    }
    m.out
}

/// Evaluate a parameterized terminfo string with integer parameters (the common case: `cup`,
/// `setaf`, `hpa`, `vpa`, ...). See [`tparm`].
pub fn tparm_n(cap: &[u8], params: &[i32]) -> (out: Vec<u8>)
    ensures
        out@ == tparm_spec(cap@, params@.map_values(|v: i32| PV::Int(v))),
{
    let mut p: Vec<Param> = Vec::new();
    let mut k: usize = 0;
    while k < params.len()
        invariant
            k <= params@.len(),
            p@.map_values(|q: Param| q@) == params@.take(k as int).map_values(|v: i32| PV::Int(v)),
        decreases params@.len() - k,
    {
        let ghost old_p = p@;
        p.push(Param::Int(params[k]));
        proof {
            assert(p@.map_values(|q: Param| q@) =~= old_p.map_values(|q: Param| q@).push(
                PV::Int(params@[k as int]),
            ));
            assert(params@.take(k + 1).map_values(|v: i32| PV::Int(v)) =~= params@.take(
                k as int,
            ).map_values(|v: i32| PV::Int(v)).push(PV::Int(params@[k as int])));
        }
        k = k + 1;
    }
    assert(params@.take(params@.len() as int) =~= params@);
    tparm(cap, p.as_slice())
}

/// `tgoto(cap, col, row)`: the termcap argument order, evaluated as `tparm(cap, row, col)`.
pub fn tgoto(cap: &[u8], col: i32, row: i32) -> (out: Vec<u8>)
    ensures
        out@ == tparm_spec(cap@, seq![PV::Int(row), PV::Int(col)]),
{
    let params: &[i32] = &[row, col];
    assert(params@.map_values(|v: i32| PV::Int(v)) =~= seq![PV::Int(row), PV::Int(col)]);
    tparm_n(cap, params)
}

} // verus!
