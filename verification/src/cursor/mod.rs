//! The cursor-movement cost optimizer (`mvcur` / `relative_move`), and the terminfo padding
//! arithmetic it scores with.
//!
//! Given a current cursor position and a target, [`mvcur_caps`] enumerates the tactics ncurses
//! weighs (direct addressing with `cup`; local motion from the cursor; carriage return then local
//! motion; home then local motion; `ll` then local motion; the `bw` back-wrap), scores each with
//! the static sample-parameter cost model, and emits the bytes of the cheapest, the earlier
//! tactic winning a tie. Costs are in character units: a plain byte costs 1 and each
//! millisecond of `$<N>` padding costs 5 at the capture pty's 38400 baud.

use vstd::prelude::*;
use crate::bytes::{find_byte, is_digit, lemma_find_byte_bound, lemma_find_byte_scan};

pub mod caps;
pub mod motion;

pub use caps::Caps;
pub use motion::{mvcur, mvcur_caps, mvcur_ovw, mvcur_ovw_caps};

verus! {

/// `_char_padding` in tenths of a millisecond per character at 38400 baud.
pub const CHAR_PADDING: u64 = 2;

/// The capture pty's output baud.
pub const BAUD: u64 = 38400;

/// Saturating `u64` multiply-by-ten-and-add.
pub open spec fn sat_acc(acc: u64, d: u64) -> u64 {
    if acc * 10 + d > u64::MAX {
        u64::MAX
    } else {
        (acc * 10 + d) as u64
    }
}

fn sat_acc_exec(acc: u64, d: u64) -> (r: u64)
    requires
        d < 10,
    ensures
        r == sat_acc(acc, d),
{
    if acc > (u64::MAX - d) / 10 {
        assert(acc * 10 + d > u64::MAX) by (nonlinear_arith)
            requires
                acc > (u64::MAX - d) / 10,
                d < 10,
        ;
        u64::MAX
    } else {
        assert(acc * 10 + d <= u64::MAX) by (nonlinear_arith)
            requires
                acc <= (u64::MAX - d) / 10,
                d < 10,
        ;
        acc * 10 + d
    }
}

/// Saturating `u64` addition.
pub open spec fn sat_add(x: u64, y: u64) -> u64 {
    if x + y > u64::MAX {
        u64::MAX
    } else {
        (x + y) as u64
    }
}

/// The value of a `$<...>` padding body in tenths of a millisecond: the integer part, then at
/// most one fractional digit, stopping at the first byte that is neither a digit nor `.` (so the
/// `*` and `/` flags end it). Saturates instead of overflowing.
pub open spec fn pt_go(b: Seq<u8>, int_part: u64, dot: bool) -> u64
    decreases b.len(),
{
    if b.len() == 0 {
        sat_acc(int_part, 0)
    } else if is_digit(b[0]) {
        if dot {
            sat_acc(int_part, (b[0] - 48) as u64)
        } else {
            pt_go(b.drop_first(), sat_acc(int_part, (b[0] - 48) as u64), false)
        }
    } else if b[0] == 0x2eu8 {
        pt_go(b.drop_first(), int_part, true)
    } else {
        sat_acc(int_part, 0)
    }
}

/// The padding of body `b` in tenths of a millisecond.
pub open spec fn padding_tenths_spec(b: Seq<u8>) -> u64 {
    pt_go(b, 0, false)
}

/// The padding value of a terminfo `$<...>` body in tenths of a millisecond (`5` is 50, `0.5`
/// is 5).
fn padding_tenths(body: &[u8]) -> (r: u64)
    ensures
        r == padding_tenths_spec(body@),
{
    let mut int_part: u64 = 0;
    let mut dot = false;
    let mut i: usize = 0;
    assert(body@.skip(0) =~= body@);
    while i < body.len()
        invariant
            i <= body@.len(),
            pt_go(body@.skip(i as int), int_part, dot) == padding_tenths_spec(body@),
        decreases body@.len() - i,
    {
        let b = body[i];
        assert(body@.skip(i as int).drop_first() =~= body@.skip(i + 1));
        if 48u8 <= b && b <= 57u8 {
            if dot {
                return sat_acc_exec(int_part, (b - 48) as u64);
            }
            int_part = sat_acc_exec(int_part, (b - 48) as u64);
        } else if b == 0x2eu8 {
            dot = true;
        } else {
            return sat_acc_exec(int_part, 0);
        }
        i = i + 1;
    }
    sat_acc_exec(int_part, 0)
}

/// The length of the `$<...>` padding spec at the front of `s` (through its `>`), when `s`
/// starts with `$<` and a `>` follows; `None` otherwise.
pub open spec fn pad_spec_len(s: Seq<u8>) -> Option<int> {
    if s.len() > 1 && s[0] == 0x24u8 && s[1] == 0x3cu8 && find_byte(s.skip(2), 0x3eu8) < s.len()
        - 2 {
        Some(2 + find_byte(s.skip(2), 0x3eu8) as int + 1)
    } else {
        None
    }
}

/// The body of the padding spec at the front of `s`.
pub open spec fn pad_body(s: Seq<u8>) -> Seq<u8> {
    s.subrange(2, 2 + find_byte(s.skip(2), 0x3eu8) as int)
}

/// `NormalizedCost` accumulation: each plain byte costs `CHAR_PADDING` tenths, each padding
/// spec its delay.
pub open spec fn nc_go(s: Seq<u8>, acc: u64) -> u64
    decreases s.len(),
{
    if s.len() == 0 {
        acc
    } else {
        match pad_spec_len(s) {
            Some(k) => nc_go(s.skip(k), sat_add(acc, padding_tenths_spec(pad_body(s)))),
            None => nc_go(s.drop_first(), sat_add(acc, 2)),
        }
    }
}

/// ncurses `NormalizedCost` of an expanded capability: its delay in tenths of a millisecond
/// divided by `CHAR_PADDING`, i.e. one unit per plain byte plus five per millisecond of padding.
pub open spec fn normalized_cost_spec(s: Seq<u8>) -> i32 {
    (nc_go(s, 0) / 2) as i32
}

proof fn lemma_pad_spec_len(s: Seq<u8>)
    ensures
        pad_spec_len(s) matches Some(k) ==> 3 <= k <= s.len(),
{
    if s.len() > 1 {
        lemma_find_byte_bound(s.skip(2), 0x3eu8);
    }
}

/// Recognize a padding spec at `i`: the length of `$<...>` through its `>`, if any.
fn pad_len_at(s: &[u8], i: usize) -> (r: Option<usize>)
    requires
        i <= s@.len(),
    ensures
        r matches Some(k) ==> pad_spec_len(s@.skip(i as int)) == Some(k as int),
        r is None ==> pad_spec_len(s@.skip(i as int)) is None,
{
    let n = s.len();
    if n - i > 1 && s[i] == 0x24u8 && s[i + 1] == 0x3cu8 {
        let mut j = i + 2;
        while j < n && s[j] != 0x3eu8
            invariant
                n == s@.len(),
                i + 2 <= j <= n,
                forall|k: int| i + 2 <= k < j ==> #[trigger] s@[k] != 0x3eu8,
            decreases n - j,
        {
            j = j + 1;
        }
        proof {
            lemma_find_byte_scan(s@, i + 2, j as int, 0x3eu8);
            assert(s@.skip(i as int).skip(2) =~= s@.skip(i + 2));
        }
        if j < n {
            Some(j - i + 1)
        } else {
            None
        }
    } else {
        None
    }
}

/// ncurses `NormalizedCost`: `_nc_msec_cost(cap) / _char_padding` for a capability already
/// expanded with its sample parameters (so its length is fixed), with `$<N>` padding intact.
pub fn normalized_cost(expanded: &[u8]) -> (c: i32)
    ensures
        c == normalized_cost_spec(expanded@),
{
    let mut msec: u64 = 0;
    let mut i: usize = 0;
    assert(expanded@.skip(0) =~= expanded@);
    while i < expanded.len()
        invariant
            i <= expanded@.len(),
            nc_go(expanded@.skip(i as int), msec) == nc_go(expanded@, 0),
        decreases expanded@.len() - i,
    {
        let ghost rest = expanded@.skip(i as int);
        proof {
            lemma_pad_spec_len(rest);
        }
        match pad_len_at(expanded, i) {
            Some(k) => {
                let body = slice_range(expanded, i + 2, i + k - 1);
                assert(body@ =~= pad_body(rest));
                let t = padding_tenths(body);
                msec = if msec > u64::MAX - t {
                    u64::MAX
                } else {
                    msec + t
                };
                assert(rest.skip(k as int) =~= expanded@.skip(i + k));
                i = i + k;
            },
            None => {
                msec = if msec > u64::MAX - 2 {
                    u64::MAX
                } else {
                    msec + 2
                };
                assert(rest.drop_first() =~= expanded@.skip(i + 1));
                i = i + 1;
            },
        }
    }
    assert(expanded@.skip(i as int) =~= Seq::<u8>::empty());
    (msec / 2) as i32
}

/// The subslice `s[lo..hi]`.
pub fn slice_range(s: &[u8], lo: usize, hi: usize) -> (r: &[u8])
    requires
        lo <= hi <= s@.len(),
    ensures
        r@ == s@.subrange(lo as int, hi as int),
{
    &s[lo..hi]
}

/// The bytes of `s` with every `$<...>` padding spec (one that has its closing `>`) removed.
pub open spec fn strip_padding_spec(s: Seq<u8>) -> Seq<u8>
    decreases s.len(),
{
    if s.len() == 0 {
        seq![]
    } else {
        match pad_spec_len(s) {
            Some(k) => strip_padding_spec(s.skip(k)),
            None => seq![s[0]] + strip_padding_spec(s.drop_first()),
        }
    }
}

/// Strip `$<...>` padding markers from a cap's output -- the bytes sent to a terminal with
/// `xon` (flow control handles delays, so no pad bytes are emitted).
pub fn strip_padding(s: &[u8]) -> (out: Vec<u8>)
    ensures
        out@ == strip_padding_spec(s@),
{
    let mut out: Vec<u8> = Vec::new();
    let mut i: usize = 0;
    assert(s@.skip(0) =~= s@);
    while i < s.len()
        invariant
            i <= s@.len(),
            out@ + strip_padding_spec(s@.skip(i as int)) == strip_padding_spec(s@),
        decreases s@.len() - i,
    {
        let ghost rest = s@.skip(i as int);
        proof {
            lemma_pad_spec_len(rest);
        }
        match pad_len_at(s, i) {
            Some(k) => {
                assert(rest.skip(k as int) =~= s@.skip(i + k));
                i = i + k;
            },
            None => {
                out.push(s[i]);
                assert(rest.drop_first() =~= s@.skip(i + 1));
                i = i + 1;
                assert(out@ + strip_padding_spec(s@.skip(i as int)) =~= strip_padding_spec(s@));
            },
        }
    }
    assert(s@.skip(i as int) =~= Seq::<u8>::empty());
    assert(out@ + strip_padding_spec(s@.skip(i as int)) =~= out@);
    out
}

/// Whether byte `b` occurs in `s`.
pub open spec fn has_byte(s: Seq<u8>, b: u8) -> bool {
    exists|k: int| 0 <= k < s.len() && s[k] == b
}

/// The number of pad characters `tputs` emits for a delay of `tenths` tenths of a millisecond at
/// 38400 baud: `floor(tenths * 38400 / 90000)`.
pub open spec fn pad_count(tenths: u64) -> usize {
    ((if tenths * 38400 > u64::MAX { u64::MAX } else { (tenths * 38400) as u64 }) / 90000) as usize
}

/// `tputs` padding for the capture pty: a padding spec emits `pad_count` copies of `pad_char`
/// when the terminal lacks `xon` or the spec is mandatory (contains `/`), and nothing otherwise.
pub open spec fn apply_padding_spec(s: Seq<u8>, xon: bool, pad_char: u8) -> Seq<u8>
    decreases s.len(),
{
    if s.len() == 0 {
        seq![]
    } else {
        match pad_spec_len(s) {
            Some(k) => {
                let body = pad_body(s);
                let pads = if !xon || has_byte(body, 0x2fu8) {
                    Seq::new(pad_count(padding_tenths_spec(body)) as nat, |_i: int| pad_char)
                } else {
                    seq![]
                };
                pads + apply_padding_spec(s.skip(k), xon, pad_char)
            },
            None => seq![s[0]] + apply_padding_spec(s.drop_first(), xon, pad_char),
        }
    }
}

fn contains_byte(s: &[u8], b: u8) -> (r: bool)
    ensures
        r == has_byte(s@, b),
{
    let mut k: usize = 0;
    while k < s.len()
        invariant
            k <= s@.len(),
            forall|j: int| 0 <= j < k ==> s@[j] != b,
        decreases s@.len() - k,
    {
        if s[k] == b {
            return true;
        }
        k = k + 1;
    }
    false
}

fn pad_count_exec(tenths: u64) -> (n: usize)
    ensures
        n == pad_count(tenths),
{
    let prod: u64 = if tenths > u64::MAX / 38400 {
        assert(tenths * 38400 > u64::MAX) by (nonlinear_arith)
            requires
                tenths > u64::MAX / 38400,
        ;
        u64::MAX
    } else {
        assert(tenths * 38400 <= u64::MAX) by (nonlinear_arith)
            requires
                tenths <= u64::MAX / 38400,
        ;
        tenths * 38400
    };
    (prod / 90000) as usize
}

/// Apply terminfo `$<N>` padding to a cap's expanded output the way `tputs` does for the capture
/// pty: a terminal without `xon` (or a mandatory `$<N/>`) emits `floor(N_ms * baud / 9000)` pad
/// characters; otherwise the padding is stripped.
pub fn apply_padding(s: &[u8], xon: bool, pad_char: u8) -> (out: Vec<u8>)
    ensures
        out@ == apply_padding_spec(s@, xon, pad_char),
{
    let mut out: Vec<u8> = Vec::new();
    let mut i: usize = 0;
    assert(s@.skip(0) =~= s@);
    while i < s.len()
        invariant
            i <= s@.len(),
            out@ + apply_padding_spec(s@.skip(i as int), xon, pad_char) == apply_padding_spec(
                s@,
                xon,
                pad_char,
            ),
        decreases s@.len() - i,
    {
        let ghost rest = s@.skip(i as int);
        let ghost before = out@;
        proof {
            lemma_pad_spec_len(rest);
        }
        match pad_len_at(s, i) {
            Some(k) => {
                let body = slice_range(s, i + 2, i + k - 1);
                assert(body@ =~= pad_body(rest));
                let mandatory = contains_byte(body, 0x2fu8);
                if !xon || mandatory {
                    let t = padding_tenths(body);
                    let n = pad_count_exec(t);
                    crate::fmt::push_repeat(&mut out, pad_char, n);
                }
                assert(rest.skip(k as int) =~= s@.skip(i + k));
                i = i + k;
                assert(out@ + apply_padding_spec(s@.skip(i as int), xon, pad_char) =~= before
                    + apply_padding_spec(rest, xon, pad_char));
            },
            None => {
                out.push(s[i]);
                assert(rest.drop_first() =~= s@.skip(i + 1));
                i = i + 1;
                assert(out@ + apply_padding_spec(s@.skip(i as int), xon, pad_char) =~= before
                    + apply_padding_spec(rest, xon, pad_char));
            },
        }
    }
    assert(s@.skip(i as int) =~= Seq::<u8>::empty());
    assert(out@ + apply_padding_spec(s@.skip(i as int), xon, pad_char) =~= out@);
    out
}

} // verus!
