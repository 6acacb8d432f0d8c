//! The move optimizer: `relative_move` (local motion only) and the tactic choice of `mvcur`.

use vstd::prelude::*;
use super::caps::{present, xterm_v, CapV, Caps, CapsV, INF, LINES, LONG_DIST};
use super::{apply_padding, apply_padding_spec};
use crate::fmt::push_bytes;
use crate::terminfo::tparm::{tparm_n, tparm_spec, PV};

verus! {

/// `s` repeated `n` times.
pub open spec fn repeat(s: Seq<u8>, n: nat) -> Seq<u8>
    decreases n,
{
    if n == 0 {
        seq![]
    } else {
        repeat(s, (n - 1) as nat) + s
    }
}

/// The bytes a literal cap emits: its string with padding applied for the profile.
pub open spec fn emit_lit_v(c: CapV, xon: bool, pad_char: u8) -> Seq<u8> {
    apply_padding_spec(c.s, xon, pad_char)
}

/// The bytes a one-parameter cap emits at `n`; nothing when the cap is absent.
pub open spec fn emit_parm_v(c: CapV, n: int, xon: bool, pad_char: u8) -> Seq<u8> {
    if c.s.len() == 0 {
        seq![]
    } else {
        apply_padding_spec(tparm_spec(c.s, seq![PV::Int(n as i32)]), xon, pad_char)
    }
}

/// `want` may be called at each cell `(row, c)` with `lo <= c < hi`.
pub open spec fn calls_ok<F: Fn(i32, i32) -> Option<u8>>(f: F, row: int, lo: int, hi: int) -> bool {
    forall|c: i32| lo <= c < hi ==> #[trigger] call_requires(f, (row as i32, c))
}

/// `want` may be called at each cell `(row, c)` with `lo <= c < hi` and gives one answer there.
pub open spec fn want_ok<F: Fn(i32, i32) -> Option<u8>>(f: F, row: int, lo: int, hi: int) -> bool {
    &&& calls_ok(f, row, lo, hi)
    &&& forall|c: i32, a: Option<u8>, b: Option<u8>|
        #![trigger call_ensures(f, (row as i32, c), a), call_ensures(f, (row as i32, c), b)]
        lo <= c < hi && call_ensures(f, (row as i32, c), a) && call_ensures(f, (row as i32, c), b) ==> a == b
}

/// Every answer `want` gives at a cell `(row, c)` with `lo <= c < hi` is the one `w` states.
pub open spec fn agrees<F: Fn(i32, i32) -> Option<u8>>(
    f: F,
    w: spec_fn(int, int) -> Option<u8>,
    row: int,
    lo: int,
    hi: int,
) -> bool {
    forall|c: i32, o: Option<u8>| lo <= c < hi && #[trigger] call_ensures(f, (row as i32, c), o) ==> o == w(row, c as int)
}

/// The leftmost column the overwrite hook can be asked about: 0, or the last column of a
/// profile without columns.
pub open spec fn ovw_lo(c: CapsV) -> int {
    if c.cols >= 1 { 0 } else { c.cols - 1 }
}

/// A 1-based coordinate made 0-based, as 32-bit arithmetic does it: `v - 1`, wrapping to
/// `i32::MAX` below `i32::MIN`.
pub open spec fn dec1(v: i32) -> int {
    if v == i32::MIN { i32::MAX as int } else { v - 1 }
}

/// The cell function `want` computes.
pub open spec fn want_of<F: Fn(i32, i32) -> Option<u8>>(f: F) -> spec_fn(int, int) -> Option<u8> {
    |r: int, c: int| choose|o: Option<u8>| #[trigger] call_ensures(f, (r as i32, c as i32), o)
}

/// The overwrite hook `|_, _| None`: no cell may be overwritten.
pub open spec fn no_want() -> spec_fn(int, int) -> Option<u8> {
    |r: int, c: int| None::<u8>
}

proof fn lemma_want_of<F: Fn(i32, i32) -> Option<u8>>(f: F, row: int, lo: int, hi: int)
    requires
        want_ok(f, row, lo, hi),
        i32::MIN <= row <= i32::MAX,
    ensures
        agrees(f, want_of(f), row, lo, hi),
{
    assert forall|c: i32, o: Option<u8>| lo <= c < hi && #[trigger] call_ensures(f, (row as i32, c), o) implies o
        == want_of(f)(row, c as int) by {
        let p = choose|p: Option<u8>| #[trigger] call_ensures(f, ((row as i32) as int as i32, (c as int) as i32), p);
        assert(call_ensures(f, ((row as i32) as int as i32, (c as int) as i32), p));
    }
}

/// The vertical leg of a local move: the `vpa` baseline, then `cuu`/`cud`, then `cuu1`/`cud1`
/// repeated, the cheapest kept with the earlier winning ties. `(INF, _)` when none is usable.
pub open spec fn vert_v(c: CapsV, fy: int, ty: int) -> (int, Seq<u8>) {
    let base = if present(c.vpa) {
        (c.vpa.cost, emit_parm_v(c.vpa, ty, c.xon, c.pad_char))
    } else {
        (INF as int, seq![])
    };
    if ty < fy {
        let n = fy - ty;
        let a = if present(c.cuu) && c.cuu.cost < base.0 {
            (c.cuu.cost, emit_parm_v(c.cuu, n, c.xon, c.pad_char))
        } else {
            base
        };
        if present(c.cuu1) && n * c.cuu1.cost < a.0 {
            (n * c.cuu1.cost, repeat(emit_lit_v(c.cuu1, c.xon, c.pad_char), n as nat))
        } else {
            a
        }
    } else {
        let n = ty - fy;
        let a = if present(c.cud) && c.cud.cost < base.0 {
            (c.cud.cost, emit_parm_v(c.cud, n, c.xon, c.pad_char))
        } else {
            base
        };
        if present(c.cud1) && n * c.cud1.cost < a.0 {
            (n * c.cud1.cost, repeat(emit_lit_v(c.cud1, c.xon, c.pad_char), n as nat))
        } else {
            a
        }
    }
}

/// Every cell from `(ty, fx)` over `n` columns may be overwritten (and `n > 0`).
pub open spec fn ovw_ok(w: spec_fn(int, int) -> Option<u8>, ty: int, fx: int, n: int) -> bool {
    n > 0 && forall|i: int| 0 <= i < n ==> (#[trigger] w(ty, fx + i)) is Some
}

/// The bytes of the overwritten cells.
pub open spec fn ovw_chars(w: spec_fn(int, int) -> Option<u8>, ty: int, fx: int, n: int) -> Seq<u8> {
    Seq::new(n as nat, |i: int| w(ty, fx + i).unwrap())
}

/// The horizontal leg of a local move on row `ty`: the `hpa` baseline, then `cuf`/`cub`, then
/// (rightward) rewriting the cells when `want` allows it, else `cuf1` repeated; (leftward) `cub1`
/// repeated.
pub open spec fn horiz_v(
    c: CapsV,
    w: spec_fn(int, int) -> Option<u8>,
    fx: int,
    ty: int,
    tx: int,
) -> (int, Seq<u8>) {
    let base = if present(c.hpa) {
        (c.hpa.cost, emit_parm_v(c.hpa, tx, c.xon, c.pad_char))
    } else {
        (INF as int, seq![])
    };
    if tx > fx {
        let n = tx - fx;
        let a = if present(c.cuf) && c.cuf.cost < base.0 {
            (c.cuf.cost, emit_parm_v(c.cuf, n, c.xon, c.pad_char))
        } else {
            base
        };
        if ovw_ok(w, ty, fx, n) {
            if n < a.0 {
                (n, ovw_chars(w, ty, fx, n))
            } else {
                a
            }
        } else if present(c.cuf1) && n * c.cuf1.cost < a.0 {
            (n * c.cuf1.cost, repeat(emit_lit_v(c.cuf1, c.xon, c.pad_char), n as nat))
        } else {
            a
        }
    } else {
        let n = fx - tx;
        let a = if present(c.cub) && c.cub.cost < base.0 {
            (c.cub.cost, emit_parm_v(c.cub, n, c.xon, c.pad_char))
        } else {
            base
        };
        if present(c.cub1) && n * c.cub1.cost < a.0 {
            (n * c.cub1.cost, repeat(emit_lit_v(c.cub1, c.xon, c.pad_char), n as nat))
        } else {
            a
        }
    }
}

/// ncurses `relative_move` on 0-based coordinates: the vertical leg then the horizontal leg, with
/// their summed cost; `(INF, _)` when a needed leg has no usable motion.
pub open spec fn rel_v(
    c: CapsV,
    w: spec_fn(int, int) -> Option<u8>,
    fy: int,
    fx: int,
    ty: int,
    tx: int,
) -> (int, Seq<u8>) {
    let v = if ty != fy {
        vert_v(c, fy, ty)
    } else {
        (0, seq![])
    };
    if ty != fy && v.0 == INF as int {
        (INF as int, seq![])
    } else {
        let h = if tx != fx {
            horiz_v(c, w, fx, ty, tx)
        } else {
            (0, seq![])
        };
        if tx != fx && h.0 == INF as int {
            (INF as int, v.1)
        } else {
            (v.0 + h.0, v.1 + h.1)
        }
    }
}

/// Append `s` to `out` `n` times.
fn push_repeated(out: &mut Vec<u8>, s: &[u8], n: i64)
    requires
        n >= 0,
    ensures
        final(out)@ == old(out)@ + repeat(s@, n as nat),
{
    let ghost start = out@;
    let mut k: i64 = 0;
    while k < n
        invariant
            0 <= k <= n,
            out@ == start + repeat(s@, k as nat),
        decreases n - k,
    {
        push_bytes(out, s);
        k = k + 1;
        assert(out@ =~= start + repeat(s@, k as nat));
    }
}

fn emit_lit(cap: &super::caps::Cap, xon: bool, pad_char: u8) -> (r: Vec<u8>)
    ensures
        r@ == emit_lit_v(cap@, xon, pad_char),
{
    apply_padding(cap.s.as_slice(), xon, pad_char)
}

fn emit_parm(cap: &super::caps::Cap, n: i64, xon: bool, pad_char: u8) -> (r: Vec<u8>)
    ensures
        r@ == emit_parm_v(cap@, n as int, xon, pad_char),
{
    if cap.s.len() == 0 {
        Vec::new()
    } else {
        let p: i32 = #[verifier::truncate] (n as i32);
        let params: &[i32] = &[p];
        assert(params@.map_values(|v: i32| PV::Int(v)) =~= seq![PV::Int(n as i32)]);
        let e = tparm_n(cap.s.as_slice(), params);
        apply_padding(e.as_slice(), xon, pad_char)
    }
}

/// Bound on every coordinate the optimizer handles internally.
pub open spec fn coord_ok(v: int) -> bool {
    -0x2_0000_0000 <= v <= 0x2_0000_0000
}

/// Bound on the cost of one leg of a move.
pub open spec fn cost_ok(v: int) -> bool {
    -0x1_0000_0000_0000_0000_0000 <= v <= 0x1_0000_0000_0000_0000_0000
}

/// Bound on the cost of a whole local move.
pub open spec fn move_cost_ok(v: int) -> bool {
    -0x4_0000_0000_0000_0000_0000 <= v <= 0x4_0000_0000_0000_0000_0000
}

proof fn lemma_mul_bound(n: i64, cost: i32)
    requires
        0 < n <= 0x4_0000_0000,
    ensures
        cost_ok(n * cost),
{
    assert(-0x1_0000_0000_0000_0000_0000 <= n * cost <= 0x1_0000_0000_0000_0000_0000)
        by (nonlinear_arith)
        requires
            0 < n <= 0x4_0000_0000,
            -0x8000_0000 <= cost <= 0x7fff_ffff,
    ;
}

fn vert(caps: &Caps, fy: i64, ty: i64) -> (r: (i128, Vec<u8>))
    requires
        coord_ok(fy as int),
        coord_ok(ty as int),
        fy != ty,
    ensures
        r.0 == vert_v(caps@, fy as int, ty as int).0,
        r.1@ == vert_v(caps@, fy as int, ty as int).1,
        cost_ok(r.0 as int),
{
    let mut best: i128 = INF as i128;
    let mut vs: Vec<u8> = Vec::new();
    if caps.vpa.present() {
        best = caps.vpa.cost as i128;
        vs = emit_parm(&caps.vpa, ty, caps.xon, caps.pad_char);
    }
    if ty < fy {
        let n = fy - ty;
        if caps.cuu.present() && (caps.cuu.cost as i128) < best {
            best = caps.cuu.cost as i128;
            vs = emit_parm(&caps.cuu, n, caps.xon, caps.pad_char);
        }
        proof {
            lemma_mul_bound(n, caps.cuu1.cost);
        }
        let k = (n as i128) * (caps.cuu1.cost as i128);
        if caps.cuu1.present() && k < best {
            best = k;
            let one = emit_lit(&caps.cuu1, caps.xon, caps.pad_char);
            vs = Vec::new();
            push_repeated(&mut vs, one.as_slice(), n);
            assert(vs@ =~= repeat(one@, n as nat));
        }
    } else {
        let n = ty - fy;
        if caps.cud.present() && (caps.cud.cost as i128) < best {
            best = caps.cud.cost as i128;
            vs = emit_parm(&caps.cud, n, caps.xon, caps.pad_char);
        }
        proof {
            lemma_mul_bound(n, caps.cud1.cost);
        }
        let k = (n as i128) * (caps.cud1.cost as i128);
        if caps.cud1.present() && k < best {
            best = k;
            let one = emit_lit(&caps.cud1, caps.xon, caps.pad_char);
            vs = Vec::new();
            push_repeated(&mut vs, one.as_slice(), n);
            assert(vs@ =~= repeat(one@, n as nat));
        }
    }
    (best, vs)
}

/// Collect the overwrite bytes for `n` cells from `(ty, fx)`, or report that some cell refuses.
fn overwrite_run<F: Fn(i32, i32) -> Option<u8>>(
    fx: i64,
    ty: i64,
    n: i64,
    want: &F,
    Ghost(w): Ghost<spec_fn(int, int) -> Option<u8>>,
) -> (r: (bool, Vec<u8>))
    requires
        calls_ok(*want, ty as int, fx as int, fx + n),
        agrees(*want, w, ty as int, fx as int, fx + n),
        i32::MIN <= ty <= i32::MAX,
        i32::MIN <= fx,
        fx + n <= i32::MAX + 1,
        0 < n <= 0x4_0000_0000,
    ensures
        r.0 == ovw_ok(w, ty as int, fx as int, n as int),
        r.0 ==> r.1@ == ovw_chars(w, ty as int, fx as int, n as int),
{
    let mut chars: Vec<u8> = Vec::new();
    let mut i: i64 = 0;
    while i < n
        invariant
            0 <= i <= n,
            n <= 0x4_0000_0000,
            i32::MIN <= ty <= i32::MAX,
            i32::MIN <= fx,
            fx + n <= i32::MAX + 1,
            calls_ok(*want, ty as int, fx as int, fx + n),
            agrees(*want, w, ty as int, fx as int, fx + n),
            chars@.len() == i,
            forall|j: int| 0 <= j < i ==> (#[trigger] w(ty as int, fx + j)) is Some,
            forall|j: int| 0 <= j < i ==> chars@[j] == w(ty as int, fx + j).unwrap(),
        decreases n - i,
    {
        let row: i32 = ty as i32;
        let col: i32 = (fx + i) as i32;
        let o = want(row, col);
        assert(o == w(ty as int, fx + i));
        match o {
            Some(b) => {
                chars.push(b);
            },
            None => {
                return (false, chars);
            },
        }
        i = i + 1;
    }
    assert(chars@ =~= ovw_chars(w, ty as int, fx as int, n as int));
    (true, chars)
}

fn horiz<F: Fn(i32, i32) -> Option<u8>>(
    caps: &Caps,
    fx: i64,
    ty: i64,
    tx: i64,
    want: &F,
    Ghost(w): Ghost<spec_fn(int, int) -> Option<u8>>,
) -> (r: (i128, Vec<u8>))
    requires
        calls_ok(*want, ty as int, fx as int, tx as int),
        agrees(*want, w, ty as int, fx as int, tx as int),
        i32::MIN <= ty <= i32::MAX,
        i32::MIN <= fx,
        tx <= i32::MAX,
        coord_ok(fx as int),
        coord_ok(ty as int),
        coord_ok(tx as int),
        fx != tx,
    ensures
        r.0 == horiz_v(caps@, w, fx as int, ty as int, tx as int).0,
        r.1@ == horiz_v(caps@, w, fx as int, ty as int, tx as int).1,
        cost_ok(r.0 as int),
{
    let mut best: i128 = INF as i128;
    let mut hs: Vec<u8> = Vec::new();
    if caps.hpa.present() {
        best = caps.hpa.cost as i128;
        hs = emit_parm(&caps.hpa, tx, caps.xon, caps.pad_char);
    }
    if tx > fx {
        let n = tx - fx;
        if caps.cuf.present() && (caps.cuf.cost as i128) < best {
            best = caps.cuf.cost as i128;
            hs = emit_parm(&caps.cuf, n, caps.xon, caps.pad_char);
        }
        let (ok, chars) = overwrite_run(fx, ty, n, want, Ghost(w));
        proof {
            lemma_mul_bound(n, caps.cuf1.cost);
        }
        let k = (n as i128) * (caps.cuf1.cost as i128);
        if ok {
            if (n as i128) < best {
                best = n as i128;
                hs = chars;
            }
        } else if caps.cuf1.present() && k < best {
            best = k;
            let one = emit_lit(&caps.cuf1, caps.xon, caps.pad_char);
            hs = Vec::new();
            push_repeated(&mut hs, one.as_slice(), n);
            assert(hs@ =~= repeat(one@, n as nat));
        }
    } else {
        let n = fx - tx;
        if caps.cub.present() && (caps.cub.cost as i128) < best {
            best = caps.cub.cost as i128;
            hs = emit_parm(&caps.cub, n, caps.xon, caps.pad_char);
        }
        proof {
            lemma_mul_bound(n, caps.cub1.cost);
        }
        let k = (n as i128) * (caps.cub1.cost as i128);
        if caps.cub1.present() && k < best {
            best = k;
            let one = emit_lit(&caps.cub1, caps.xon, caps.pad_char);
            hs = Vec::new();
            push_repeated(&mut hs, one.as_slice(), n);
            assert(hs@ =~= repeat(one@, n as nat));
        }
    }
    (best, hs)
}

/// ncurses `relative_move` on 0-based coordinates: `(cost, bytes)`, the cost `INF` when no local
/// path exists.
fn relative_move<F: Fn(i32, i32) -> Option<u8>>(
    caps: &Caps,
    fy: i64,
    fx: i64,
    ty: i64,
    tx: i64,
    want: &F,
    Ghost(w): Ghost<spec_fn(int, int) -> Option<u8>>,
) -> (r: (i128, Vec<u8>))
    requires
        calls_ok(*want, ty as int, fx as int, tx as int),
        agrees(*want, w, ty as int, fx as int, tx as int),
        i32::MIN <= ty <= i32::MAX,
        i32::MIN <= fx,
        tx <= i32::MAX,
        coord_ok(fy as int),
        coord_ok(fx as int),
        coord_ok(ty as int),
        coord_ok(tx as int),
    ensures
        r.0 == rel_v(caps@, w, fy as int, fx as int, ty as int, tx as int).0,
        r.1@ == rel_v(caps@, w, fy as int, fx as int, ty as int, tx as int).1,
        move_cost_ok(r.0 as int),
{
    let mut s: Vec<u8> = Vec::new();
    let mut vcost: i128 = 0;
    if ty != fy {
        let (b, vs) = vert(caps, fy, ty);
        if b == INF as i128 {
            return (INF as i128, s);
        }
        vcost = b;
        s = vs;
    }
    let mut hcost: i128 = 0;
    if tx != fx {
        let (b, hs) = horiz(caps, fx, ty, tx, want, Ghost(w));
        if b == INF as i128 {
            return (INF as i128, s);
        }
        hcost = b;
        push_bytes(&mut s, hs.as_slice());
    }
    (vcost + hcost, s)
}

/// `|x|`.
pub open spec fn abs(x: int) -> int {
    if x < 0 {
        -x
    } else {
        x
    }
}

/// ncurses `NOT_LOCAL`: a target far from both screen edges and far from the source is not worth
/// optimizing; the optimizer goes straight to direct addressing.
pub open spec fn not_local_v(c: CapsV, fy: int, fx: int, ty: int, tx: int) -> bool {
    tx > LONG_DIST && tx < c.cols - 1 - LONG_DIST && abs(ty - fy) + abs(tx - fx) > LONG_DIST
}

/// Whether the local tactics are skipped: `cup` exists and the source is unknown or the target
/// is not local.
pub open spec fn skip_local_v(c: CapsV, fy: int, fx: int, ty: int, tx: int) -> bool {
    c.cup.s.len() > 0 && (fy < 0 || fx < 0 || not_local_v(c, fy, fx, ty, tx))
}

/// Local motion from the source.
pub open spec fn t1_v(c: CapsV, w: spec_fn(int, int) -> Option<u8>, fy: int, fx: int, ty: int, tx: int, prev: (int, int)) -> (int, int) {
    if fy >= 0 && fx >= 0 {
        let k = rel_v(c, w, fy, fx, ty, tx).0;
        if k != INF as int && k < prev.1 { (1, k) } else { prev }
    } else {
        prev
    }
}

/// Carriage return, then local motion.
pub open spec fn t2_v(c: CapsV, w: spec_fn(int, int) -> Option<u8>, fy: int, ty: int, tx: int, prev: (int, int)) -> (int, int) {
    if fy >= 0 && c.cr.cost != INF as int {
        let k = rel_v(c, w, fy, 0, ty, tx).0;
        if k != INF as int && c.cr.cost + k < prev.1 { (2, c.cr.cost + k) } else { prev }
    } else {
        prev
    }
}

/// Home, then local motion.
pub open spec fn t3_v(c: CapsV, w: spec_fn(int, int) -> Option<u8>, ty: int, tx: int, prev: (int, int)) -> (int, int) {
    let k = rel_v(c, w, 0, 0, ty, tx).0;
    if k != INF as int && present(c.home) && c.home.cost + k < prev.1 { (3, c.home.cost + k) } else { prev }
}

/// `ll` to the lower-left corner, then local motion.
pub open spec fn t4_v(c: CapsV, w: spec_fn(int, int) -> Option<u8>, ty: int, tx: int, prev: (int, int)) -> (int, int) {
    if present(c.ll) {
        let k = rel_v(c, w, LINES - 1, 0, ty, tx).0;
        if k != INF as int && c.ll.cost + k < prev.1 { (4, c.ll.cost + k) } else { prev }
    } else {
        prev
    }
}

/// Whether the back-wrap tactic applies: `bw` without `xenl`, a row above, a usable `cub1`, and
/// a way to column 0.
pub open spec fn t5_allowed(c: CapsV, fy: int, fx: int) -> bool {
    c.bw && !c.xenl && fy >= 1 && present(c.cub1) && (fx == 0 || present(c.cr))
}

/// `[cr] cub1` back-wrap to the previous line's last column, then local motion.
pub open spec fn t5_v(c: CapsV, w: spec_fn(int, int) -> Option<u8>, fy: int, fx: int, ty: int, tx: int, prev: (int, int)) -> (int, int) {
    if t5_allowed(c, fy, fx) {
        let k = rel_v(c, w, fy - 1, c.cols - 1, ty, tx).0;
        if k != INF as int {
            let total = (if fx != 0 { c.cr.cost } else { 0 }) + c.cub1.cost + k;
            if total < prev.1 { (5, total) } else { prev }
        } else {
            prev
        }
    } else {
        prev
    }
}

/// The winning tactic for a move between distinct 0-based cells: `0` (`cup`) unless a local
/// tactic is strictly cheaper than every earlier one.
pub open spec fn tactic_v(c: CapsV, w: spec_fn(int, int) -> Option<u8>, fy: int, fx: int, ty: int, tx: int) -> int {
    if skip_local_v(c, fy, fx, ty, tx) {
        0
    } else {
        let p0 = (0int, c.cup.cost);
        let p1 = t1_v(c, w, fy, fx, ty, tx, p0);
        let p2 = t2_v(c, w, fy, ty, tx, p1);
        let p3 = t3_v(c, w, ty, tx, p2);
        let p4 = t4_v(c, w, ty, tx, p3);
        t5_v(c, w, fy, fx, ty, tx, p4).0
    }
}

/// The bytes of direct addressing to the 0-based `(ty, tx)`; nothing without `cup`.
pub open spec fn cup_bytes_v(c: CapsV, ty: int, tx: int) -> Seq<u8> {
    if c.cup.s.len() == 0 {
        seq![]
    } else {
        apply_padding_spec(
            tparm_spec(c.cup.s, seq![PV::Int(ty as i32), PV::Int(tx as i32)]),
            c.xon,
            c.pad_char,
        )
    }
}

/// The bytes `mvcur` emits for a move between 0-based cells: nothing for a no-op, else the
/// winning tactic's lead-in followed by its local motion.
pub open spec fn mvcur_v(c: CapsV, w: spec_fn(int, int) -> Option<u8>, fy: int, fx: int, ty: int, tx: int) -> Seq<u8> {
    if fy == ty && fx == tx {
        seq![]
    } else {
        let t = tactic_v(c, w, fy, fx, ty, tx);
        if t == 1 {
            rel_v(c, w, fy, fx, ty, tx).1
        } else if t == 2 {
            emit_lit_v(c.cr, c.xon, c.pad_char) + rel_v(c, w, fy, 0, ty, tx).1
        } else if t == 3 {
            emit_lit_v(c.home, c.xon, c.pad_char) + rel_v(c, w, 0, 0, ty, tx).1
        } else if t == 4 {
            emit_lit_v(c.ll, c.xon, c.pad_char) + rel_v(c, w, LINES - 1, 0, ty, tx).1
        } else if t == 5 {
            (if fx != 0 { emit_lit_v(c.cr, c.xon, c.pad_char) } else { seq![] }) + emit_lit_v(
                c.cub1,
                c.xon,
                c.pad_char,
            ) + rel_v(c, w, fy - 1, c.cols - 1, ty, tx).1
        } else {
            cup_bytes_v(c, ty, tx)
        }
    }
}

fn not_local(caps: &Caps, fy: i64, fx: i64, ty: i64, tx: i64) -> (r: bool)
    requires
        coord_ok(fy as int),
        coord_ok(fx as int),
        coord_ok(ty as int),
        coord_ok(tx as int),
    ensures
        r == not_local_v(caps@, fy as int, fx as int, ty as int, tx as int),
{
    let dy = if ty >= fy { ty - fy } else { fy - ty };
    let dx = if tx >= fx { tx - fx } else { fx - tx };
    tx > LONG_DIST as i64 && tx < caps.cols as i64 - 1 - LONG_DIST as i64 && dy + dx > LONG_DIST as i64
}

fn choose_tactic<F: Fn(i32, i32) -> Option<u8>>(
    caps: &Caps,
    fy: i64,
    fx: i64,
    ty: i64,
    tx: i64,
    want: &F,
    Ghost(w): Ghost<spec_fn(int, int) -> Option<u8>>,
) -> (t: i32)
    requires
        calls_ok(*want, ty as int, ovw_lo(caps@), tx as int),
        agrees(*want, w, ty as int, ovw_lo(caps@), tx as int),
        i32::MIN <= ty <= i32::MAX,
        i32::MIN <= fx,
        tx <= i32::MAX,
        caps@.cols >= i32::MIN + 8,
        coord_ok(fy as int),
        coord_ok(fx as int),
        coord_ok(ty as int),
        coord_ok(tx as int),
    ensures
        t == tactic_v(caps@, w, fy as int, fx as int, ty as int, tx as int),
{
    let ghost c = caps@;
    let cup_present = caps.cup.s.len() > 0;
    if cup_present && (fy < 0 || fx < 0 || not_local(caps, fy, fx, ty, tx)) {
        return 0;
    }
    let mut tactic: i32 = 0;
    let mut usecost: i128 = caps.cup.cost as i128;
    let ghost p0 = (0int, c.cup.cost);
    if fy >= 0 && fx >= 0 {
        let (k, _) = relative_move(caps, fy, fx, ty, tx, want, Ghost(w));
        if k != INF as i128 && k < usecost {
            tactic = 1;
            usecost = k;
        }
    }
    let ghost p1 = t1_v(c, w, fy as int, fx as int, ty as int, tx as int, p0);
    assert(tactic as int == p1.0 && usecost as int == p1.1);
    if fy >= 0 && caps.cr.cost != INF {
        let (k, _) = relative_move(caps, fy, 0, ty, tx, want, Ghost(w));
        if k != INF as i128 && caps.cr.cost as i128 + k < usecost {
            tactic = 2;
            usecost = caps.cr.cost as i128 + k;
        }
    }
    let ghost p2 = t2_v(c, w, fy as int, ty as int, tx as int, p1);
    assert(tactic as int == p2.0 && usecost as int == p2.1);
    let (k3, _) = relative_move(caps, 0, 0, ty, tx, want, Ghost(w));
    if k3 != INF as i128 && caps.home.present() && caps.home.cost as i128 + k3 < usecost {
        tactic = 3;
        usecost = caps.home.cost as i128 + k3;
    }
    let ghost p3 = t3_v(c, w, ty as int, tx as int, p2);
    assert(tactic as int == p3.0 && usecost as int == p3.1);
    if caps.ll.present() {
        let (k, _) = relative_move(caps, LINES as i64 - 1, 0, ty, tx, want, Ghost(w));
        if k != INF as i128 && caps.ll.cost as i128 + k < usecost {
            tactic = 4;
            usecost = caps.ll.cost as i128 + k;
        }
    }
    let ghost p4 = t4_v(c, w, ty as int, tx as int, p3);
    assert(tactic as int == p4.0 && usecost as int == p4.1);
    if caps.bw && !caps.xenl && fy >= 1 && caps.cub1.present() && (fx == 0 || caps.cr.present()) {
        let (rc, _) = relative_move(caps, fy - 1, caps.cols as i64 - 1, ty, tx, want, Ghost(w));
        if rc != INF as i128 {
            let crc: i128 = if fx != 0 {
                caps.cr.cost as i128
            } else {
                0
            };
            let total = crc + caps.cub1.cost as i128 + rc;
            if total < usecost {
                tactic = 5;
            }
        }
    }
    tactic
}

/// `v - 1` in 32-bit wrapping arithmetic (see [`dec1`]).
fn dec(v: i32) -> (r: i64)
    ensures
        r == dec1(v),
{
    if v == i32::MIN { i32::MAX as i64 } else { v as i64 - 1 }
}

/// The move optimizer for an explicit profile, stated against the cell function `w` that
/// `want` follows.
pub(crate) fn mvcur_with<F: Fn(i32, i32) -> Option<u8>>(
    caps: &Caps,
    from: (i32, i32),
    to: (i32, i32),
    want: &F,
    Ghost(w): Ghost<spec_fn(int, int) -> Option<u8>>,
) -> (out: Vec<u8>)
    requires
        caps@.cols >= i32::MIN + 8,
        calls_ok(*want, dec1(to.0), ovw_lo(caps@), dec1(to.1)),
        agrees(*want, w, dec1(to.0), ovw_lo(caps@), dec1(to.1)),
    ensures
        out@ == mvcur_v(caps@, w, dec1(from.0), dec1(from.1), dec1(to.0), dec1(to.1)),
{
    let fy = dec(from.0);
    let fx = dec(from.1);
    let ty = dec(to.0);
    let tx = dec(to.1);
    if fy == ty && fx == tx {
        return Vec::new();
    }
    let tactic = choose_tactic(caps, fy, fx, ty, tx, want, Ghost(w));
    if tactic == 1 {
        relative_move(caps, fy, fx, ty, tx, want, Ghost(w)).1
    } else if tactic == 2 {
        let mut out = emit_lit(&caps.cr, caps.xon, caps.pad_char);
        let r = relative_move(caps, fy, 0, ty, tx, want, Ghost(w)).1;
        push_bytes(&mut out, r.as_slice());
        out
    } else if tactic == 3 {
        let mut out = emit_lit(&caps.home, caps.xon, caps.pad_char);
        let r = relative_move(caps, 0, 0, ty, tx, want, Ghost(w)).1;
        push_bytes(&mut out, r.as_slice());
        out
    } else if tactic == 4 {
        let mut out = emit_lit(&caps.ll, caps.xon, caps.pad_char);
        let r = relative_move(caps, LINES as i64 - 1, 0, ty, tx, want, Ghost(w)).1;
        push_bytes(&mut out, r.as_slice());
        out
    } else if tactic == 5 {
        let mut out = if fx != 0 {
            emit_lit(&caps.cr, caps.xon, caps.pad_char)
        } else {
            Vec::new()
        };
        let b = emit_lit(&caps.cub1, caps.xon, caps.pad_char);
        push_bytes(&mut out, b.as_slice());
        let r = relative_move(caps, fy - 1, caps.cols as i64 - 1, ty, tx, want, Ghost(w)).1;
        push_bytes(&mut out, r.as_slice());
        out
    } else if caps.cup.s.len() == 0 {
        Vec::new()
    } else {
        let params: &[i32] = &[(ty as i32), (tx as i32)];
        assert(params@.map_values(|v: i32| PV::Int(v)) =~= seq![PV::Int(ty as i32), PV::Int(tx as i32)]);
        let e = tparm_n(caps.cup.s.as_slice(), params);
        apply_padding(e.as_slice(), caps.xon, caps.pad_char)
    }
}

/// `mvcur` with the overwrite branch enabled, for an explicit profile: the bytes that move the
/// cursor from the 1-based `from` to the 1-based `to`. `want(row, col)` (0-based) gives the byte
/// of a desired cell that may be rewritten to advance the cursor, `None` where it may not; it is
/// only asked about cells of the target row left of the target column (from column 0, or from
/// the last column of a profile without columns), so it need only be callable there; for a
/// no-op move it is never asked and need not be callable at all.
pub fn mvcur_ovw_caps<F: Fn(i32, i32) -> Option<u8>>(
    caps: &Caps,
    from: (i32, i32),
    to: (i32, i32),
    want: F,
) -> (out: Vec<u8>)
    requires
        caps@.cols >= i32::MIN + 8,
        from != to ==> want_ok(want, dec1(to.0), ovw_lo(caps@), dec1(to.1)),
    ensures
        out@ == mvcur_v(caps@, want_of(want), dec1(from.0), dec1(from.1), dec1(to.0), dec1(to.1)),
        from == to ==> out@.len() == 0,
{
    if from.0 == to.0 && from.1 == to.1 {
        return Vec::new();
    }
    proof {
        lemma_want_of(want, dec1(to.0), ovw_lo(caps@), dec1(to.1));
    }
    mvcur_with(caps, from, to, &want, Ghost(want_of(want)))
}

/// `mvcur` for an explicit profile (e.g. [`Caps::vt100`]): motion strings only, never
/// rewriting on-screen cells.
pub fn mvcur_caps(caps: &Caps, from: (i32, i32), to: (i32, i32)) -> (out: Vec<u8>)
    requires
        caps@.cols >= i32::MIN + 8,
    ensures
        out@ == mvcur_v(caps@, no_want(), dec1(from.0), dec1(from.1), dec1(to.0), dec1(to.1)),
        from == to ==> out@.len() == 0,
{
    let none = |r: i32, c: i32| -> (o: Option<u8>)
        ensures
            o is None,
        { None };
    assert(agrees(none, no_want(), dec1(to.0), ovw_lo(caps@), dec1(to.1)));
    mvcur_with(caps, from, to, &none, Ghost(no_want()))
}

/// `mvcur(3)` on the admitted xterm: the exact bytes that move the cursor from the 1-based
/// `from` to the 1-based `to`, empty for a no-op move. It accepts every input: coordinates are
/// made 0-based by 32-bit wrapping subtraction ([`dec1`]).
pub fn mvcur(from: (i32, i32), to: (i32, i32)) -> (out: Vec<u8>)
    ensures
        out@ == mvcur_v(xterm_v(), no_want(), dec1(from.0), dec1(from.1), dec1(to.0), dec1(to.1)),
        from == to ==> out@.len() == 0,
{
    let c = Caps::xterm();
    mvcur_caps(&c, from, to)
}

/// [`mvcur_ovw_caps`] on the admitted xterm.
pub fn mvcur_ovw<F: Fn(i32, i32) -> Option<u8>>(from: (i32, i32), to: (i32, i32), want: F) -> (out:
    Vec<u8>)
    requires
        from != to ==> want_ok(want, dec1(to.0), 0, dec1(to.1)),
    ensures
        out@ == mvcur_v(xterm_v(), want_of(want), dec1(from.0), dec1(from.1), dec1(to.0), dec1(to.1)),
        from == to ==> out@.len() == 0,
{
    let c = Caps::xterm();
    mvcur_ovw_caps(&c, from, to, want)
}

} // verus!
