//! The string and number conventions of the terminfo source format, as the `tic` compiler reads
//! them and `infocmp` writes them: escape expansion, the `_nc_tic_expand` escaping rules, the
//! numeric format, the `acsc` pair order, and the padding, SGR and parameter-code pieces that
//! `infocmp` reads when it writes termcap.

use vstd::prelude::*;
use crate::fmt::{dec, digits, push_bytes, push_dec, push_digits};
use crate::input::push_char;
use crate::terminfo::entry::{cap, lossy_string, string_v, utf8_lossy, Terminfo, TerminfoV};
use crate::terminfo::tparm::{tparm_n, tparm_spec, PV};
use vstd::string::StringSliceAdditionalSpecFns;
use vstd::string::StringExecFns;

verus! {

/// A source escape letter's byte (`\E` escape, `\n` newline, ...); any other letter stands for
/// itself.
pub open spec fn esc_byte(c: u8) -> u8 {
    if c == 0x45 || c == 0x65 {
        0x1b
    } else if c == 0x6e || c == 0x6c {
        0x0a
    } else if c == 0x72 {
        0x0d
    } else if c == 0x74 {
        0x09
    } else if c == 0x62 {
        0x08
    } else if c == 0x66 {
        0x0c
    } else if c == 0x61 {
        0x07
    } else if c == 0x73 {
        0x20
    } else if c == 0x30 {
        0x80
    } else {
        c
    }
}

/// Whether `b` is an octal digit.
pub open spec fn is_oct(b: u8) -> bool {
    0x30 <= b <= 0x37
}

/// How many octal digits (at most three) start at index `k` of `s`.
pub open spec fn oct_len(s: Seq<u8>, k: int) -> int {
    if !(0 <= k < s.len() && is_oct(s[k])) {
        0
    } else if !(k + 1 < s.len() && is_oct(s[k + 1])) {
        1
    } else if !(k + 2 < s.len() && is_oct(s[k + 2])) {
        2
    } else {
        3
    }
}

/// The value of the `n` octal digits at index `k` of `s`.
pub open spec fn oct_val(s: Seq<u8>, k: int, n: int) -> int {
    if n <= 0 {
        0
    } else if n == 1 {
        s[k] - 0x30
    } else if n == 2 {
        (s[k] - 0x30) * 8 + (s[k + 1] - 0x30)
    } else {
        (s[k] - 0x30) * 64 + (s[k + 1] - 0x30) * 8 + (s[k + 2] - 0x30)
    }
}

/// A stored byte: NUL cannot be stored and becomes `0x80`.
pub open spec fn nonzero(b: u8) -> u8 {
    if b == 0 { 0x80 } else { b }
}

/// The bytes `tic` stores for source text `s` from index `i`: `\X` escapes, `\nnn` octal, `^X`
/// control characters, and `%` taking the next byte verbatim unless it starts an escape.
pub open spec fn unescape_from(s: Seq<u8>, i: int) -> Seq<u8>
    decreases s.len() - i,
{
    if i < 0 || i >= s.len() {
        seq![]
    } else if s[i] == 0x25 {
        if i + 1 < s.len() && s[i + 1] != 0x5c {
            seq![0x25u8, s[i + 1]] + unescape_from(s, i + 2)
        } else {
            seq![0x25u8] + unescape_from(s, i + 1)
        }
    } else if s[i] == 0x5c {
        if i + 1 >= s.len() {
            seq![]
        } else if is_oct(s[i + 1]) {
            let n = oct_len(s, i + 1);
            seq![nonzero((oct_val(s, i + 1, n) % 256) as u8)] + unescape_from(s, i + 1 + n)
        } else {
            seq![esc_byte(s[i + 1])] + unescape_from(s, i + 2)
        }
    } else if s[i] == 0x5e {
        if i + 1 < s.len() {
            seq![nonzero(s[i + 1] ^ 0x40)] + unescape_from(s, i + 2)
        } else {
            seq![]
        }
    } else {
        seq![s[i]] + unescape_from(s, i + 1)
    }
}

/// `tic`'s escape expansion of a capability's source text.
pub fn unescape(s: &[u8]) -> (out: Vec<u8>)
    ensures
        out@ == unescape_from(s@, 0),
{
    let mut out: Vec<u8> = Vec::new();
    let mut i: usize = 0;
    while i < s.len()
        invariant
            i <= s@.len(),
            out@ + unescape_from(s@, i as int) == unescape_from(s@, 0),
        decreases s@.len() - i,
    {
        let ghost before = out@;
        let ghost i0 = i as int;
        let c = s[i];
        if c == 0x25 {
            out.push(0x25);
            i = i + 1;
            if i < s.len() && s[i] != 0x5c {
                out.push(s[i]);
                i = i + 1;
            }
            assert(out@ + unescape_from(s@, i as int) =~= before + unescape_from(s@, i0));
        } else if c == 0x5c {
            i = i + 1;
            if i >= s.len() {
                assert(unescape_from(s@, i0) =~= Seq::<u8>::empty());
                assert(out@ + unescape_from(s@, i as int) =~= before + unescape_from(s@, i0));
            } else {
            let d = s[i];
            if 0x30 <= d && d <= 0x37 {
                let k = i;
                let mut val: u32 = (d - 0x30) as u32;
                let mut cnt: usize = 1;
                if k + 1 < s.len() && 0x30 <= s[k + 1] && s[k + 1] <= 0x37 {
                    val = val * 8 + (s[k + 1] - 0x30) as u32;
                    cnt = 2;
                    if k + 2 < s.len() && 0x30 <= s[k + 2] && s[k + 2] <= 0x37 {
                        val = val * 8 + (s[k + 2] - 0x30) as u32;
                        cnt = 3;
                    }
                }
                proof {
                    assert(cnt == oct_len(s@, k as int));
                    assert(val == oct_val(s@, k as int, cnt as int));
                    assert((val & 0xff) == val % 256) by (bit_vector);
                }
                i = k + cnt;
                let b = (val & 0xff) as u8;
                out.push(if b == 0 { 0x80 } else { b });
                assert(out@ + unescape_from(s@, i as int) =~= before + unescape_from(s@, i0));
            } else {
                let e: u8 = if d == 0x45 || d == 0x65 {
                    0x1b
                } else if d == 0x6e || d == 0x6c {
                    0x0a
                } else if d == 0x72 {
                    0x0d
                } else if d == 0x74 {
                    0x09
                } else if d == 0x62 {
                    0x08
                } else if d == 0x66 {
                    0x0c
                } else if d == 0x61 {
                    0x07
                } else if d == 0x73 {
                    0x20
                } else if d == 0x30 {
                    0x80
                } else {
                    d
                };
                out.push(e);
                i = i + 1;
                assert(out@ + unescape_from(s@, i as int) =~= before + unescape_from(s@, i0));
            }
            }
        } else if c == 0x5e {
            i = i + 1;
            if i < s.len() {
                let v = s[i] ^ 0x40;
                out.push(if v == 0 { 0x80 } else { v });
                i = i + 1;
            }
            assert(out@ + unescape_from(s@, i as int) =~= before + unescape_from(s@, i0));
        } else {
            out.push(c);
            i = i + 1;
            assert(out@ + unescape_from(s@, i as int) =~= before + unescape_from(s@, i0));
        }
    }
    assert(unescape_from(s@, i as int) =~= Seq::<u8>::empty());
    assert(out@ =~= unescape_from(s@, 0));
    out
}


/// The control bytes written in caret form `^X` (and left out of the length estimate): `0x01`
/// to `0x1f` except newline, return and escape, and DEL.
pub open spec fn caret_control(b: u8) -> bool {
    (0x01 <= b <= 0x1f && b != 0x0a && b != 0x0d && b != 0x1b) || b == 0x7f
}

/// Whether `b` is a caret-form control byte.
pub fn is_caret_control(b: u8) -> (r: bool)
    ensures
        r == caret_control(b),
{
    (0x01 <= b && b <= 0x1f && b != 0x0a && b != 0x0d && b != 0x1b) || b == 0x7f
}

/// The escaped width of a byte that is not a caret-form control.
pub open spec fn esc_width(b: u8) -> int {
    if b == 0x1b || b == 0x0a || b == 0x0d || b == 0x80 || b == 0x2c || b == 0x5e || b == 0x5c {
        2
    } else if b >= 0x81 {
        4
    } else {
        1
    }
}

/// An ASCII decimal digit.
pub open spec fn is_digit_b(b: u8) -> bool {
    0x30 <= b <= 0x39
}

/// A printable ASCII byte.
pub open spec fn printable(b: u8) -> bool {
    0x20 <= b <= 0x7e
}

/// The escaped width of `v` from index `j`, counting caret-form controls as nothing unless a
/// digit follows them, and a `%` operator with its verbatim byte as it renders.
pub open spec fn weight_from(v: Seq<u8>, j: int) -> int
    decreases v.len() - j,
{
    if j < 0 || j >= v.len() {
        0
    } else if caret_control(v[j]) {
        (if v[j] <= 0x1f && j + 1 < v.len() && is_digit_b(v[j + 1]) { 2int } else { 0int }) + weight_from(v, j + 1)
    } else if v[j] == 0x25 && j + 1 < v.len() && printable(v[j + 1]) {
        1 + (if v[j + 1] == 0x2c { 2int } else { 1int }) + weight_from(v, j + 2)
    } else {
        esc_width(v[j]) + weight_from(v, j + 1)
    }
}

/// How many caret-form control bytes `v` holds from index `j`.
pub open spec fn caret_count(v: Seq<u8>, j: int) -> int
    decreases v.len() - j,
{
    if j < 0 || j >= v.len() {
        0
    } else {
        (if caret_control(v[j]) { 1int } else { 0int }) + caret_count(v, j + 1)
    }
}

/// A "long" value: its other bytes weigh more than three columns, or it holds more than ten
/// caret-form controls; its controls are then written in octal.
pub open spec fn islong_v(v: Seq<u8>) -> bool {
    weight_from(v, 0) > 3 || caret_count(v, 0) > 10
}

proof fn lemma_weight_bounds(v: Seq<u8>, j: int)
    requires
        0 <= j,
    ensures
        0 <= weight_from(v, j) <= 4 * (if j < v.len() { v.len() - j } else { 0 }),
        0 <= caret_count(v, j) <= (if j < v.len() { v.len() - j } else { 0 }),
    decreases v.len() - j,
{
    if j < v.len() {
        lemma_weight_bounds(v, j + 1);
        if j + 2 <= v.len() {
            lemma_weight_bounds(v, j + 2);
        }
    }
}

/// `_nc_tic_expand`'s length test of a value.
pub fn noncontrol_islong(v: &[u8]) -> (r: bool)
    ensures
        r == islong_v(v@),
{
    let mut w: u128 = 0;
    let mut j: usize = 0;
    proof {
        lemma_weight_bounds(v@, 0);
    }
    while j < v.len()
        invariant
            j <= v@.len() + 1,
            w + weight_from(v@, j as int) == weight_from(v@, 0),
            0 <= weight_from(v@, 0) <= 4 * v@.len(),
            w <= 4 * j,
        decreases v@.len() + 1 - j,
    {
        proof {
            lemma_weight_bounds(v@, j as int);
            lemma_weight_bounds(v@, j + 1);
            lemma_weight_bounds(v@, j + 2);
        }
        let b = v[j];
        if is_caret_control(b) {
            if b <= 0x1f && j + 1 < v.len() && 0x30 <= v[j + 1] && v[j + 1] <= 0x39 {
                w = w + 2;
            }
            j = j + 1;
        } else if b == 0x25 && j + 1 < v.len() && 0x20 <= v[j + 1] && v[j + 1] <= 0x7e {
            w = w + 1 + if v[j + 1] == 0x2c { 2 } else { 1 };
            j = j + 2;
        } else {
            w = w + if b == 0x1b || b == 0x0a || b == 0x0d || b == 0x80 || b == 0x2c || b == 0x5e || b == 0x5c {
                2
            } else if b >= 0x81 {
                4
            } else {
                1
            };
            j = j + 1;
        }
    }
    let mut count: u64 = 0;
    let mut k: usize = 0;
    while k < v.len()
        invariant
            k <= v@.len(),
            count + caret_count(v@, k as int) == caret_count(v@, 0),
            count <= k,
        decreases v@.len() - k,
    {
        if is_caret_control(v[k]) {
            count = count + 1;
        }
        k = k + 1;
    }
    w > 3 || count > 10
}


/// Every byte of `v` from index `i` on is a space.
pub open spec fn spaces_from(v: Seq<u8>, i: int) -> bool {
    forall|k: int| i <= k < v.len() ==> #[trigger] v[k] == 0x20
}

/// The character of an ASCII byte.
pub open spec fn ch_of(b: u8) -> char {
    b as char
}

/// `\nnn`: a byte in three octal digits.
pub open spec fn oct3(b: u8) -> Seq<char> {
    seq!['\\', ch_of((0x30 + b / 64) as u8), ch_of((0x30 + (b / 8) % 8) as u8), ch_of((0x30 + b % 8) as u8)]
}

/// `_nc_tic_expand` of `v` from index `i`: `\E`, `\n`, `\r` and `\0` letter escapes, a `%`
/// operator keeping its printable byte (a comma still escaped), `\s` for a first space or one in
/// the trailing run of spaces, `\,` and `\^`, a backslash doubled unless a caret precedes it,
/// printables as themselves, caret-form controls as `^X` in a short value or before a digit,
/// and everything else in octal.
pub open spec fn expand_from(v: Seq<u8>, i: int, islong: bool) -> Seq<char>
    decreases v.len() - i,
{
    if i < 0 || i >= v.len() {
        seq![]
    } else {
        let ch = v[i];
        if ch == 0x25 && i + 1 < v.len() && printable(v[i + 1]) {
            seq!['%'] + (if v[i + 1] == 0x2c { seq!['\\', ','] } else { seq![ch_of(v[i + 1])] }) + expand_from(v, i + 2, islong)
        } else {
            (if ch == 0x1b {
                seq!['\\', 'E']
            } else if ch == 0x0a {
                seq!['\\', 'n']
            } else if ch == 0x0d {
                seq!['\\', 'r']
            } else if ch == 0x80 {
                seq!['\\', '0']
            } else if ch == 0x20 && (i == 0 || spaces_from(v, i)) {
                seq!['\\', 's']
            } else if ch == 0x2c {
                seq!['\\', ',']
            } else if ch == 0x5e {
                seq!['\\', '^']
            } else if ch == 0x5c {
                if i > 0 && v[i - 1] == 0x5e { seq!['\\'] } else { seq!['\\', '\\'] }
            } else if printable(ch) {
                seq![ch_of(ch)]
            } else if caret_control(ch) {
                if !islong || (ch <= 0x1f && i + 1 < v.len() && is_digit_b(v[i + 1])) {
                    seq!['^', ch_of(ch ^ 0x40)]
                } else {
                    oct3(ch)
                }
            } else {
                oct3(ch)
            }) + expand_from(v, i + 1, islong)
        }
    }
}

fn push_oct3(s: &mut String, b: u8)
    ensures
        final(s)@ == old(s)@ + oct3(b),
{
    let ghost start = s@;
    push_char(s, '\\');
    push_char(s, (0x30 + b / 64) as char);
    push_char(s, (0x30 + (b / 8) % 8) as char);
    push_char(s, (0x30 + b % 8) as char);
    assert(s@ =~= start + oct3(b));
}

fn all_spaces(v: &[u8], i: usize) -> (r: bool)
    ensures
        r == spaces_from(v@, i as int),
{
    let mut k = i;
    while k < v.len()
        invariant
            i <= k,
            forall|j: int| i <= j < k ==> #[trigger] v@[j] == 0x20,
        decreases v@.len() - k,
    {
        if v[k] != 0x20 {
            return false;
        }
        k = k + 1;
    }
    true
}

/// The terminfo source text of a capability value (`infocmp`'s escaping).
pub fn tic_expand(v: &[u8]) -> (s: String)
    ensures
        s@ == expand_from(v@, 0, islong_v(v@)),
{
    let mut s = String::new();
    let islong = noncontrol_islong(v);
    let mut i: usize = 0;
    while i < v.len()
        invariant
            i <= v@.len() + 1,
            islong == islong_v(v@),
            s@ + expand_from(v@, i as int, islong) == expand_from(v@, 0, islong),
        decreases v@.len() + 1 - i,
    {
        let ghost before = s@;
        let ghost i0 = i as int;
        let ch = v[i];
        if ch == 0x25 && i + 1 < v.len() && 0x20 <= v[i + 1] && v[i + 1] <= 0x7e {
            push_char(&mut s, '%');
            let n = v[i + 1];
            if n == 0x2c {
                push_char(&mut s, '\\');
                push_char(&mut s, ',');
            } else {
                push_char(&mut s, n as char);
            }
            i = i + 2;
            assert(s@ + expand_from(v@, i as int, islong) =~= before + expand_from(v@, i0, islong));
        } else {
            if ch == 0x1b {
                push_char(&mut s, '\\');
                push_char(&mut s, 'E');
            } else if ch == 0x0a {
                push_char(&mut s, '\\');
                push_char(&mut s, 'n');
            } else if ch == 0x0d {
                push_char(&mut s, '\\');
                push_char(&mut s, 'r');
            } else if ch == 0x80 {
                push_char(&mut s, '\\');
                push_char(&mut s, '0');
            } else if ch == 0x20 && (i == 0 || all_spaces(v, i)) {
                push_char(&mut s, '\\');
                push_char(&mut s, 's');
            } else if ch == 0x2c {
                push_char(&mut s, '\\');
                push_char(&mut s, ',');
            } else if ch == 0x5e {
                push_char(&mut s, '\\');
                push_char(&mut s, '^');
            } else if ch == 0x5c {
                if i > 0 && v[i - 1] == 0x5e {
                    push_char(&mut s, '\\');
                } else {
                    push_char(&mut s, '\\');
                    push_char(&mut s, '\\');
                }
            } else if 0x20 <= ch && ch <= 0x7e {
                push_char(&mut s, ch as char);
            } else if is_caret_control(ch) {
                let next_is_digit = ch <= 0x1f && i + 1 < v.len() && 0x30 <= v[i + 1] && v[i + 1] <= 0x39;
                if !islong || next_is_digit {
                    push_char(&mut s, '^');
                    push_char(&mut s, (ch ^ 0x40) as char);
                } else {
                    push_oct3(&mut s, ch);
                }
            } else {
                push_oct3(&mut s, ch);
            }
            i = i + 1;
            assert(s@ + expand_from(v@, i as int, islong) =~= before + expand_from(v@, i0, islong));
        }
    }
    assert(expand_from(v@, i as int, islong) =~= Seq::<char>::empty());
    assert(s@ =~= expand_from(v@, 0, islong));
    s
}


/// Whether `u` lies within 16 below or 15 above a power of two from `p` up to `2^31`, the
/// search stopping at the first power above `u`.
pub open spec fn hex_window(u: int, p: int) -> bool
    decreases 4294967296 - p,
{
    if p > 2147483648 || p < 1 {
        false
    } else if u >= p - 16 && u <= p + 15 {
        true
    } else if p > u {
        false
    } else {
        hex_window(u, 2 * p)
    }
}

/// ASCII bytes as characters.
pub open spec fn chars_of(b: Seq<u8>) -> Seq<char> {
    b.map_values(|x: u8| x as char)
}

/// `infocmp`'s numeric format: lowercase hex with `0x` for a value of at least 256 that lies
/// near a power of two, decimal otherwise.
pub open spec fn fmt_num_v(v: i32) -> Seq<char> {
    if v >= 256 && hex_window(v as int, 256) {
        seq!['0', 'x'] + chars_of(digits(v as nat, 16, false))
    } else {
        chars_of(dec(v as int))
    }
}

pub(crate) fn push_ascii(s: &mut String, b: &Vec<u8>)
    ensures
        final(s)@ == old(s)@ + chars_of(b@),
{
    let ghost start = s@;
    let mut k: usize = 0;
    while k < b.len()
        invariant
            k <= b@.len(),
            s@ == start + chars_of(b@.take(k as int)),
        decreases b@.len() - k,
    {
        push_char(s, b[k] as char);
        k = k + 1;
        assert(chars_of(b@.take(k as int)) =~= chars_of(b@.take(k - 1)).push(b@[k - 1] as char));
    }
    assert(b@.take(k as int) =~= b@);
}

/// Whether `u` lies near a power of two from 256 up (see [`hex_window`]).
fn near_pow2(u: u32) -> (r: bool)
    ensures
        r == hex_window(u as int, 256),
{
    let mut p: u64 = 256;
    while p <= 2147483648
        invariant
            256 <= p <= 4294967296,
            hex_window(u as int, p as int) == hex_window(u as int, 256),
        decreases 4294967296 - p,
    {
        if u as u64 + 16 >= p && u as u64 <= p + 15 {
            return true;
        }
        if p > u as u64 {
            return false;
        }
        p = p * 2;
    }
    false
}

/// A numeric capability as `infocmp` writes it.
pub fn fmt_num(v: i32) -> (s: String)
    ensures
        s@ == fmt_num_v(v),
{
    let mut s = String::new();
    let mut d: Vec<u8> = Vec::new();
    if v >= 256 && near_pow2(v as u32) {
        push_char(&mut s, '0');
        push_char(&mut s, 'x');
        push_digits(&mut d, v as u64, 16, false);
        push_ascii(&mut s, &d);
        assert(s@ =~= fmt_num_v(v));
    } else {
        push_dec(&mut d, v as i64);
        push_ascii(&mut s, &d);
    }
    s
}

/// The number of two-byte pairs of `v` (the last one may be a single byte).
pub open spec fn npairs(v: Seq<u8>) -> int {
    ((v.len() + 1) / 2) as int
}

/// Pair `c` of `v`.
pub open spec fn pair_at(v: Seq<u8>, c: int) -> Seq<u8> {
    v.subrange(2 * c, if 2 * c + 2 <= v.len() { 2 * c + 2 } else { v.len() as int })
}

/// The pairs of `v` from pair `c` on whose first byte is `key`, in their order.
pub open spec fn group_from(v: Seq<u8>, key: int, c: int) -> Seq<u8>
    decreases npairs(v) - c,
{
    if c < 0 || c >= npairs(v) {
        seq![]
    } else {
        (if v[2 * c] == key { pair_at(v, c) } else { seq![] }) + group_from(v, key, c + 1)
    }
}

/// The pairs of `v` ordered by first byte from `key` up, pairs with equal first bytes kept in
/// their order: a stable sort of the pairs by their first byte.
pub open spec fn sorted_from(v: Seq<u8>, key: int) -> Seq<u8>
    decreases 256 - key,
{
    if key < 0 || key >= 256 {
        seq![]
    } else {
        group_from(v, key, 0) + sorted_from(v, key + 1)
    }
}

/// `acsc` with its (glyph, ACS character) pairs sorted by glyph byte, as `infocmp` writes it.
pub fn sort_acsc(v: &[u8]) -> (out: Vec<u8>)
    requires
        v@.len() <= isize::MAX,
    ensures
        out@ == sorted_from(v@, 0),
{
    let mut out: Vec<u8> = Vec::new();
    let n: usize = v.len() / 2 + v.len() % 2;
    let mut key: u32 = 0;
    while key < 256
        invariant
            key <= 256,
            v@.len() <= isize::MAX,
            n == npairs(v@),
            out@ + sorted_from(v@, key as int) == sorted_from(v@, 0),
        decreases 256 - key,
    {
        let mut c: usize = 0;
        while c < n
            invariant
                key < 256,
                v@.len() <= isize::MAX,
                c <= n,
                n == npairs(v@),
                out@ + group_from(v@, key as int, c as int) + sorted_from(v@, key + 1) == sorted_from(v@, 0),
            decreases n - c,
        {
            let ghost before = out@;
            if v[2 * c] as u32 == key {
                let hi = if 2 * c + 2 <= v.len() { 2 * c + 2 } else { v.len() };
                let mut k = 2 * c;
                while k < hi
                    invariant
                        2 * c <= k <= hi <= v@.len(),
                        hi == (if 2 * c + 2 <= v@.len() { 2 * c + 2 } else { v@.len() as int }),
                        out@ == before + v@.subrange(2 * c, k as int),
                    decreases hi - k,
                {
                    out.push(v[k]);
                    k = k + 1;
                    assert(out@ =~= before + v@.subrange(2 * c, k as int));
                }
            }
            assert(out@ + group_from(v@, key as int, c + 1) =~= before + group_from(v@, key as int, c as int));
            c = c + 1;
        }
        assert(group_from(v@, key as int, c as int) =~= Seq::<u8>::empty());
        key = key + 1;
    }
    assert(sorted_from(v@, key as int) =~= Seq::<u8>::empty());
    assert(out@ =~= sorted_from(v@, 0));
    out
}

/// `normalize_sgr` from byte `i` on: each empty-parameter reset `\E[m` written as `\E[0m`.
pub open spec fn norm_sgr_from(v: Seq<u8>, i: int) -> Seq<u8>
    decreases v.len() - i,
{
    if i < 0 || i >= v.len() {
        seq![]
    } else if i + 3 <= v.len() && v[i] == 0x1b && v[i + 1] == 0x5b && v[i + 2] == 0x6d {
        seq![0x1bu8, 0x5bu8, 0x30u8, 0x6du8] + norm_sgr_from(v, i + 3)
    } else {
        seq![v[i]] + norm_sgr_from(v, i + 1)
    }
}

/// Normalize every empty-parameter CSI reset `\E[m` to its explicit `\E[0m` form, so two resets
/// that differ only by that implicit zero compare equal.
pub fn normalize_sgr(v: &[u8]) -> (out: Vec<u8>)
    ensures
        out@ == norm_sgr_from(v@, 0),
{
    let mut out: Vec<u8> = Vec::new();
    let mut i: usize = 0;
    while i < v.len()
        invariant
            i <= v@.len(),
            out@ + norm_sgr_from(v@, i as int) == norm_sgr_from(v@, 0),
        decreases v@.len() - i,
    {
        let ghost o = out@;
        if v.len() - i >= 3 && v[i] == 0x1b && v[i + 1] == 0x5b && v[i + 2] == 0x6d {
            out.push(0x1b);
            out.push(0x5b);
            out.push(0x30);
            out.push(0x6d);
            proof {
                assert(out@ == o + seq![0x1bu8, 0x5bu8, 0x30u8, 0x6du8]);
                assert(o + norm_sgr_from(v@, i as int) == o + (seq![0x1bu8, 0x5bu8, 0x30u8, 0x6du8] + norm_sgr_from(v@, i + 3)));
                assert(o + (seq![0x1bu8, 0x5bu8, 0x30u8, 0x6du8] + norm_sgr_from(v@, i + 3)) =~= out@ + norm_sgr_from(v@, i + 3));
            }
            i = i + 3;
        } else {
            out.push(v[i]);
            proof {
                assert(o + (seq![v@[i as int]] + norm_sgr_from(v@, i + 1)) =~= out@ + norm_sgr_from(v@, i + 1));
            }
            i = i + 1;
        }
    }
    proof {
        assert(out@ + norm_sgr_from(v@, i as int) =~= out@);
    }
    out
}

/// The index of the first `>` of `v` at or after `j`, `-1` when there is none.
pub open spec fn gt_from(v: Seq<u8>, j: int) -> int
    decreases v.len() - j,
{
    if j < 0 || j >= v.len() {
        -1
    } else if v[j] == 0x3e {
        j
    } else {
        gt_from(v, j + 1)
    }
}

/// `strip_pad` from byte `i` on: each `$<` that a later `>` closes is dropped with everything up
/// to and including that `>`; every other byte is kept.
pub open spec fn strip_pad_from(v: Seq<u8>, i: int) -> Seq<u8>
    decreases v.len() - i,
{
    if i < 0 || i >= v.len() {
        seq![]
    } else if i + 1 < v.len() && v[i] == 0x24 && v[i + 1] == 0x3c && i + 2 <= gt_from(v, i + 2) < v.len() {
        strip_pad_from(v, gt_from(v, i + 2) + 1)
    } else {
        seq![v[i]] + strip_pad_from(v, i + 1)
    }
}

/// The first `>` at or after `j`, if any.
fn find_gt(v: &[u8], j: usize) -> (r: Option<usize>)
    requires
        j <= v@.len(),
    ensures
        r matches Some(k) ==> k == gt_from(v@, j as int) && j <= k < v@.len(),
        r is None ==> gt_from(v@, j as int) == -1,
{
    let mut k: usize = j;
    while k < v.len()
        invariant
            j <= k <= v@.len(),
            gt_from(v@, k as int) == gt_from(v@, j as int),
        decreases v@.len() - k,
    {
        if v[k] == 0x3e {
            return Some(k);
        }
        k = k + 1;
    }
    None
}

/// A copy of `v` with all `$<...>` padding regions removed.
pub fn strip_pad(v: &[u8]) -> (out: Vec<u8>)
    ensures
        out@ == strip_pad_from(v@, 0),
{
    let mut out: Vec<u8> = Vec::new();
    let mut i: usize = 0;
    while i < v.len()
        invariant
            i <= v@.len(),
            out@ + strip_pad_from(v@, i as int) == strip_pad_from(v@, 0),
        decreases v@.len() - i,
    {
        let ghost o = out@;
        if v.len() - i >= 2 && v[i] == 0x24 && v[i + 1] == 0x3c {
            match find_gt(v, i + 2) {
                Some(k) => {
                    proof {
                        assert(strip_pad_from(v@, i as int) == strip_pad_from(v@, k + 1));
                    }
                    i = k + 1;
                    continue;
                },
                None => {},
            }
        }
        out.push(v[i]);
        proof {
            assert(o + (seq![v@[i as int]] + strip_pad_from(v@, i + 1)) =~= out@ + strip_pad_from(v@, i + 1));
        }
        i = i + 1;
    }
    proof {
        assert(out@ + strip_pad_from(v@, i as int) =~= out@);
    }
    out
}

/// A byte of an SGR parameter list: a decimal digit or `;`.
pub open spec fn sgr_param_byte(b: u8) -> bool {
    (0x30 <= b <= 0x39) || b == 0x3b
}

/// The parameter bytes of `rm` when it is one SGR sequence `\E[<params>m` with a non-empty list
/// of digits and `;`.
pub open spec fn sgr_param_v(rm: Seq<u8>) -> Option<Seq<u8>> {
    if rm.len() >= 4 && rm[0] == 0x1b && rm[1] == 0x5b && rm[rm.len() - 1] == 0x6d
        && (forall|k: int| 2 <= k < rm.len() - 1 ==> sgr_param_byte(#[trigger] rm[k])) {
        Some(rm.subrange(2, rm.len() - 1))
    } else {
        None
    }
}

/// If `rm` is a single SGR sequence `\E[<params>m`, its parameter bytes (`10` for `\E[10m`).
pub fn sgr_param(rm: &[u8]) -> (r: Option<Vec<u8>>)
    ensures
        r matches Some(p) ==> sgr_param_v(rm@) == Some(p@),
        r is None ==> sgr_param_v(rm@) is None,
{
    let n = rm.len();
    if n < 4 || rm[0] != 0x1b || rm[1] != 0x5b || rm[n - 1] != 0x6d {
        return None;
    }
    let mut p: Vec<u8> = Vec::new();
    let mut k: usize = 2;
    while k < n - 1
        invariant
            n == rm@.len(),
            n >= 4,
            2 <= k <= n - 1,
            p@ == rm@.subrange(2, k as int),
            forall|j: int| 2 <= j < k ==> sgr_param_byte(#[trigger] rm@[j]),
        decreases n - k,
    {
        let b = rm[k];
        if !((0x30 <= b && b <= 0x39) || b == 0x3b) {
            return None;
        }
        p.push(b);
        proof {
            assert(p@ =~= rm@.subrange(2, k + 1));
        }
        k = k + 1;
    }
    Some(p)
}

/// Whether `needle` occurs in `hay` as a contiguous window.
pub open spec fn has_window(hay: Seq<u8>, needle: Seq<u8>) -> bool {
    exists|i: int| 0 <= i && i + needle.len() <= hay.len() && #[trigger] hay.subrange(i, i + needle.len()) == needle
}

/// Whether `needle` occurs in `hay`.
fn contains_window(hay: &[u8], needle: &[u8]) -> (r: bool)
    requires
        needle@.len() >= 1,
    ensures
        r == has_window(hay@, needle@),
{
    let n = needle.len();
    if n > hay.len() {
        return false;
    }
    let mut i: usize = 0;
    while i <= hay.len() - n
        invariant
            n == needle@.len(),
            1 <= n <= hay@.len(),
            i <= hay@.len() - n + 1,
            forall|j: int| 0 <= j < i ==> #[trigger] hay@.subrange(j, j + n) != needle@,
        decreases hay@.len() - i,
    {
        if crate::vid::bytes_eq(&hay[i..i + n], needle) {
            return true;
        }
        i = i + 1;
    }
    proof {
        assert forall|j: int| 0 <= j && j + needle@.len() <= hay@.len() implies #[trigger] hay@.subrange(j, j + needle@.len()) != needle@ by {
            assert(j < i);
        }
    }
    false
}

/// True when `sgr0` refers to SGR parameter `param`, as `;P`, `[Pm` or `[P;`.
pub fn sgr0_has_param(sgr0: &[u8], param: &[u8]) -> (r: bool)
    requires
        param@.len() + 2 <= usize::MAX,
    ensures
        r == (has_window(sgr0@, seq![0x3bu8] + param@) || has_window(sgr0@, seq![0x5bu8] + param@ + seq![0x6du8])
            || has_window(sgr0@, seq![0x5bu8] + param@ + seq![0x3bu8])),
{
    let mut a: Vec<u8> = Vec::new();
    a.push(0x3b);
    let mut b: Vec<u8> = Vec::new();
    b.push(0x5b);
    let mut c: Vec<u8> = Vec::new();
    c.push(0x5b);
    let mut k: usize = 0;
    while k < param.len()
        invariant
            k <= param@.len(),
            a@ == seq![0x3bu8] + param@.subrange(0, k as int),
            b@ == seq![0x5bu8] + param@.subrange(0, k as int),
            c@ == b@,
        decreases param@.len() - k,
    {
        a.push(param[k]);
        b.push(param[k]);
        c.push(param[k]);
        proof {
            assert(a@ =~= seq![0x3bu8] + param@.subrange(0, k + 1));
            assert(b@ =~= seq![0x5bu8] + param@.subrange(0, k + 1));
        }
        k = k + 1;
    }
    proof {
        assert(a@ =~= seq![0x3bu8] + param@);
        assert(b@ =~= seq![0x5bu8] + param@);
    }
    b.push(0x6d);
    c.push(0x3b);
    proof {
        assert(b@ =~= seq![0x5bu8] + param@ + seq![0x6du8]);
        assert(c@ =~= seq![0x5bu8] + param@ + seq![0x3bu8]);
    }
    contains_window(sgr0, a.as_slice()) || contains_window(sgr0, b.as_slice()) || contains_window(sgr0, c.as_slice())
}

/// The walk of `strip_pad` from byte `i` on: the contents of the last padding region when it
/// ends the value, `None` otherwise.
pub open spec fn trailing_pad_from(v: Seq<u8>, i: int) -> Option<Seq<u8>>
    decreases v.len() - i,
{
    if i < 0 || i >= v.len() {
        None
    } else if i + 1 < v.len() && v[i] == 0x24 && v[i + 1] == 0x3c && i + 2 <= gt_from(v, i + 2) < v.len() {
        if gt_from(v, i + 2) + 1 == v.len() {
            Some(v.subrange(i + 2, gt_from(v, i + 2)))
        } else {
            trailing_pad_from(v, gt_from(v, i + 2) + 1)
        }
    } else {
        trailing_pad_from(v, i + 1)
    }
}

/// The termcap delay prefix of a padding spec: its digits and `*`, in order (a decimal point
/// and `/` are dropped).
pub open spec fn delay_of(p: Seq<u8>) -> Seq<char>
    decreases p.len(),
{
    if p.len() == 0 {
        seq![]
    } else {
        let b = p.last();
        let keep = (0x30 <= b <= 0x39) || b == 0x2a;
        delay_of(p.drop_last()) + if keep { seq![b as char] } else { seq![] }
    }
}

/// Split a terminfo value into the value with every `$<..>` padding removed and the termcap
/// delay prefix of a padding that ends the value (empty when none does); padding inside the
/// value is dropped.
pub fn extract_padding(v: &[u8]) -> (r: (Vec<u8>, String))
    ensures
        r.0@ == strip_pad_from(v@, 0),
        r.0@.len() <= v@.len(),
        r.1@ == (match trailing_pad_from(v@, 0) {
            Some(p) => delay_of(p),
            None => seq![],
        }),
{
    let mut out: Vec<u8> = Vec::new();
    let mut start: usize = 0;
    let mut end: usize = 0;
    let mut trailing = false;
    let mut i: usize = 0;
    while i < v.len()
        invariant
            i <= v@.len(),
            out@.len() <= i,
            out@ + strip_pad_from(v@, i as int) == strip_pad_from(v@, 0),
            start <= end <= v@.len(),
            trailing ==> i == v@.len(),
            trailing_pad_from(v@, 0) == (if i == v@.len() && trailing {
                Some(v@.subrange(start as int, end as int))
            } else {
                trailing_pad_from(v@, i as int)
            }),
        decreases v@.len() - i,
    {
        let ghost o = out@;
        if v.len() - i >= 2 && v[i] == 0x24 && v[i + 1] == 0x3c {
            match find_gt(v, i + 2) {
                Some(k) => {
                    proof {
                        assert(strip_pad_from(v@, i as int) == strip_pad_from(v@, k + 1));
                    }
                    start = i + 2;
                    end = k;
                    trailing = k + 1 == v.len();
                    i = k + 1;
                    continue;
                },
                None => {},
            }
        }
        out.push(v[i]);
        proof {
            assert(o + (seq![v@[i as int]] + strip_pad_from(v@, i + 1)) =~= out@ + strip_pad_from(v@, i + 1));
        }
        i = i + 1;
    }
    proof {
        assert(out@ + strip_pad_from(v@, i as int) =~= out@);
    }
    let mut delay = String::new();
    if trailing {
        let mut k: usize = start;
        while k < end
            invariant
                start <= k <= end <= v@.len(),
                delay@ == delay_of(v@.subrange(start as int, k as int)),
            decreases end - k,
        {
            let b = v[k];
            proof {
                assert(v@.subrange(start as int, k + 1).drop_last() =~= v@.subrange(start as int, k as int));
            }
            if (0x30 <= b && b <= 0x39) || b == 0x2a {
                push_char(&mut delay, b as char);
            }
            proof {
                assert(delay@ =~= delay_of(v@.subrange(start as int, k + 1)));
            }
            k = k + 1;
        }
    }
    (out, delay)
}

/// The end of the run of decimal digits of `v` that starts at `j`.
pub open spec fn digits_end(v: Seq<u8>, j: int) -> int
    decreases v.len() - j,
{
    if j < 0 || j >= v.len() || !(0x30 <= v[j] <= 0x39) {
        j
    } else {
        digits_end(v, j + 1)
    }
}

/// The decimal value of the digits `v[a..b]`.
pub open spec fn digits_val(v: Seq<u8>, a: int, b: int) -> int
    decreases b - a,
{
    if b <= a {
        0
    } else {
        digits_val(v, a, b - 1) * 10 + (v[b - 1] - 0x30)
    }
}

/// A terminfo character constant at `p`: `%'c'`, or `%{K}` with `K` at most 255; its byte and
/// the position after it.
pub open spec fn char_const_v(v: Seq<u8>, p: int) -> Option<(u8, int)> {
    if !(0 <= p < v.len() && v[p] == 0x25) || p + 1 >= v.len() {
        None
    } else if v[p + 1] == 0x27 {
        if p + 3 < v.len() && v[p + 3] == 0x27 { Some((v[p + 2], p + 4)) } else { None }
    } else if v[p + 1] == 0x7b {
        let j = digits_end(v, p + 2);
        if j > p + 2 && j < v.len() && v[j] == 0x7d && digits_val(v, p + 2, j) <= 255 {
            Some((digits_val(v, p + 2, j) as u8, j + 1))
        } else {
            None
        }
    } else {
        None
    }
}

/// Parse a terminfo character constant (`%'c'` or `%{K}`) at `p`: the byte and the position
/// after it.
pub fn parse_char_const(v: &[u8], p: usize) -> (r: Option<(u8, usize)>)
    requires
        v@.len() + 4 <= usize::MAX,
    ensures
        r matches Some(x) ==> char_const_v(v@, p as int) == Some((x.0, x.1 as int)),
        r is None ==> char_const_v(v@, p as int) is None,
{
    if p >= v.len() || v[p] != 0x25 || p + 1 >= v.len() {
        return None;
    }
    if v[p + 1] == 0x27 {
        if v.len() - p > 3 && v[p + 3] == 0x27 {
            return Some((v[p + 2], p + 4));
        }
        return None;
    }
    if v[p + 1] != 0x7b {
        return None;
    }
    let mut j: usize = p + 2;
    let mut val: u32 = 0;
    while j < v.len() && 0x30 <= v[j] && v[j] <= 0x39
        invariant
            p + 2 <= j <= v@.len(),
            digits_end(v@, j as int) == digits_end(v@, p + 2),
            val == (if digits_val(v@, p + 2, j as int) <= 255 { digits_val(v@, p + 2, j as int) } else { 256 }),
        decreases v@.len() - j,
    {
        let d = (v[j] - 0x30) as u32;
        proof {
            assert(digits_val(v@, p + 2, j + 1) == digits_val(v@, p + 2, j as int) * 10 + d);
        }
        if val > 255 || val * 10 + d > 255 {
            val = 256;
        } else {
            val = val * 10 + d;
        }
        j = j + 1;
    }
    if j > p + 2 && j < v.len() && v[j] == 0x7d && val <= 255 {
        Some((val as u8, j + 1))
    } else {
        None
    }
}

/// The termcap `%>xy` skip, encoded in terminfo as `%pN%pN%?<X>%>%t<Y>%+%;` at `i`: `X`, `Y`
/// and the position after it.
pub open spec fn skip_v(v: Seq<u8>, i: int) -> Option<(u8, u8, int)> {
    if !(0 <= i && i + 7 < v.len()) {
        None
    } else if !(v[i] == 0x25 && v[i + 1] == 0x70 && 0x30 <= v[i + 2] <= 0x39 && v[i + 3] == 0x25
        && v[i + 4] == 0x70 && v[i + 5] == v[i + 2] && v[i + 6] == 0x25 && v[i + 7] == 0x3f) {
        None
    } else {
        match char_const_v(v, i + 8) {
            None => None,
            Some((x, p)) => if !(p + 3 < v.len() && v[p] == 0x25 && v[p + 1] == 0x3e && v[p + 2] == 0x25
                && v[p + 3] == 0x74) {
                None
            } else {
                match char_const_v(v, p + 4) {
                    None => None,
                    Some((y, q)) => if q + 3 < v.len() && v[q] == 0x25 && v[q + 1] == 0x2b && v[q + 2] == 0x25
                        && v[q + 3] == 0x3b {
                        Some((x, y, q + 4))
                    } else {
                        None
                    },
                }
            },
        }
    }
}

/// Whether `v[p..p + 4]` is `%`, `a`, `%`, `b`.
fn op_pair(v: &[u8], p: usize, a: u8, b: u8) -> (r: bool)
    ensures
        r == (p + 3 < v@.len() && v@[p as int] == 0x25 && v@[p + 1] == a && v@[p + 2] == 0x25 && v@[p + 3] == b),
{
    p < v.len() && v.len() - p > 3 && v[p] == 0x25 && v[p + 1] == a && v[p + 2] == 0x25 && v[p + 3] == b
}

/// Recognize the termcap `%>xy` skip (if the parameter exceeds `X`, add `Y`) encoded in
/// terminfo as `%pN%pN%?<X>%>%t<Y>%+%;` at `i`: `X`, `Y` and the position after it.
pub fn match_skip(v: &[u8], i: usize) -> (r: Option<(u8, u8, usize)>)
    requires
        v@.len() + 16 <= usize::MAX,
    ensures
        r matches Some(x) ==> skip_v(v@, i as int) == Some((x.0, x.1, x.2 as int)),
        r is None ==> skip_v(v@, i as int) is None,
{
    if i >= v.len() || v.len() - i <= 7 {
        return None;
    }
    let n = v[i + 2];
    if !(v[i] == 0x25 && v[i + 1] == 0x70 && 0x30 <= n && n <= 0x39 && v[i + 3] == 0x25 && v[i + 4] == 0x70
        && v[i + 5] == n && v[i + 6] == 0x25 && v[i + 7] == 0x3f) {
        return None;
    }
    match parse_char_const(v, i + 8) {
        None => None,
        Some((x, p)) => {
            if !op_pair(v, p, 0x3e, 0x74) {
                return None;
            }
            match parse_char_const(v, p + 4) {
                None => None,
                Some((y, q)) => {
                    if op_pair(v, q, 0x2b, 0x3b) {
                        Some((x, y, q + 4))
                    } else {
                        None
                    }
                },
            }
        },
    }
}

/// The termcap form of byte `b` (`next` is the byte after it): `\E`, `\n`, `\r`, `\0` (for
/// 0x80), `\\`, and octal for `:`, DEL and a literal caret; other control bytes as `^X` in a
/// short value or before a digit, else octal; bytes above 0x80 in octal; the rest as
/// themselves.
pub open spec fn tc_esc_v(b: u8, islong: bool, next: Option<u8>) -> Seq<char> {
    if b == 0x1b {
        seq!['\\', 'E']
    } else if b == 0x0a {
        seq!['\\', 'n']
    } else if b == 0x0d {
        seq!['\\', 'r']
    } else if b == 0x3a {
        oct3(b)
    } else if b == 0x80 {
        seq!['\\', '0']
    } else if b == 0x7f {
        oct3(b)
    } else if b == 0x5c {
        seq!['\\', '\\']
    } else if b == 0x5e {
        oct3(b)
    } else if b <= 0x1f {
        if !islong || (next matches Some(n) && 0x30 <= n <= 0x39) {
            seq!['^', ch_of(b ^ 0x40)]
        } else {
            oct3(b)
        }
    } else if b >= 0x81 {
        oct3(b)
    } else {
        seq![ch_of(b)]
    }
}

/// Append the termcap form of byte `b` to `out` (see [`tc_esc_v`]).
pub fn tc_escape_byte(out: &mut String, b: u8, islong: bool, next: Option<u8>)
    ensures
        final(out)@ == old(out)@ + tc_esc_v(b, islong, next),
{
    let ghost start = out@;
    if b == 0x1b {
        push_char(out, '\\');
        push_char(out, 'E');
    } else if b == 0x0a {
        push_char(out, '\\');
        push_char(out, 'n');
    } else if b == 0x0d {
        push_char(out, '\\');
        push_char(out, 'r');
    } else if b == 0x3a || b == 0x7f || b == 0x5e || b >= 0x81 {
        push_oct3(out, b);
    } else if b == 0x80 {
        push_char(out, '\\');
        push_char(out, '0');
    } else if b == 0x5c {
        push_char(out, '\\');
        push_char(out, '\\');
    } else if b <= 0x1f {
        let next_is_digit = match next {
            Some(n) => 0x30 <= n && n <= 0x39,
            None => false,
        };
        if !islong || next_is_digit {
            push_char(out, '^');
            push_char(out, (b ^ 0x40) as char);
        } else {
            push_oct3(out, b);
        }
    } else {
        push_char(out, b as char);
    }
    proof {
        assert(out@ =~= start + tc_esc_v(b, islong, next));
    }
}

/// The termcap form of `v[i]`: `\s` for a leading space or one in the trailing run of spaces,
/// else [`tc_esc_v`] with the byte after it.
pub open spec fn tc_esc_at_v(v: Seq<u8>, i: int, islong: bool) -> Seq<char> {
    if v[i] == 0x20 && (i == 0 || spaces_from(v, i + 1)) {
        seq!['\\', 's']
    } else {
        tc_esc_v(v[i], islong, if i + 1 < v.len() { Some(v[i + 1]) } else { None })
    }
}

/// Append the termcap form of `v[i]` to `out` (see [`tc_esc_at_v`]).
pub fn tc_escape_at(out: &mut String, v: &[u8], i: usize, islong: bool)
    requires
        i < v@.len(),
    ensures
        final(out)@ == old(out)@ + tc_esc_at_v(v@, i as int, islong),
{
    let ghost start = out@;
    if v[i] == 0x20 && (i == 0 || all_spaces(v, i + 1)) {
        push_char(out, '\\');
        push_char(out, 's');
        proof {
            assert(out@ =~= start + tc_esc_at_v(v@, i as int, islong));
        }
    } else {
        let next = if i + 1 < v.len() { Some(v[i + 1]) } else { None };
        tc_escape_byte(out, v[i], islong, next);
    }
}

/// The fields of a source entry body from byte `i` on, `cur` being the field read so far: split
/// at each comma that no backslash or caret escapes, an escape pair kept whole; a last field is
/// kept only when it is not empty.
pub open spec fn fields_from(b: Seq<u8>, i: int, cur: Seq<u8>) -> Seq<Seq<u8>>
    decreases b.len() - i,
{
    if i < 0 || i >= b.len() {
        if cur.len() == 0 { seq![] } else { seq![cur] }
    } else if (b[i] == 0x5c || b[i] == 0x5e) && i + 1 < b.len() {
        fields_from(b, i + 2, cur + seq![b[i], b[i + 1]])
    } else if b[i] == 0x2c {
        seq![cur] + fields_from(b, i + 1, seq![])
    } else {
        fields_from(b, i + 1, cur.push(b[i]))
    }
}

/// Each field as text, its bytes decoded as `String::from_utf8_lossy` does.
pub open spec fn lossy_all(f: Seq<Seq<u8>>) -> Seq<Seq<char>> {
    f.map_values(|x: Seq<u8>| utf8_lossy(x))
}

/// Split a source entry body at its unescaped commas (see [`fields_from`]).
pub fn split_fields(body: &str) -> (r: Vec<String>)
    ensures
        r@.map_values(|s: String| s@) == lossy_all(fields_from(body.spec_bytes(), 0, seq![])),
{
    let b = body.as_bytes();
    let ghost g = lossy_all(fields_from(b@, 0, seq![]));
    let mut fields: Vec<String> = Vec::new();
    let mut cur: Vec<u8> = Vec::new();
    let mut i: usize = 0;
    while i < b.len()
        invariant
            b@ == body.spec_bytes(),
            i <= b@.len(),
            g == lossy_all(fields_from(b@, 0, seq![])),
            fields@.map_values(|s: String| s@) + lossy_all(fields_from(b@, i as int, cur@)) == g,
        decreases b@.len() - i,
    {
        let ghost f0 = fields@.map_values(|s: String| s@);
        if (b[i] == 0x5c || b[i] == 0x5e) && b.len() - i > 1 {
            let ghost c0 = cur@;
            cur.push(b[i]);
            cur.push(b[i + 1]);
            proof {
                assert(cur@ =~= c0 + seq![b@[i as int], b@[i + 1]]);
            }
            proof {
            }
            i = i + 2;
        } else if b[i] == 0x2c {
            let ghost c0 = cur@;
            let s = lossy_string(cur.as_slice());
            fields.push(s);
            cur = Vec::new();
            proof {
                assert(fields@.map_values(|s: String| s@) =~= f0.push(utf8_lossy(c0)));
                assert(lossy_all(seq![c0] + fields_from(b@, i + 1, seq![])) =~= seq![utf8_lossy(c0)] + lossy_all(fields_from(b@, i + 1, seq![])));
                assert(f0 + (seq![utf8_lossy(c0)] + lossy_all(fields_from(b@, i + 1, seq![]))) =~= f0.push(utf8_lossy(c0)) + lossy_all(fields_from(b@, i + 1, cur@)));
            }
            i = i + 1;
        } else {
            cur.push(b[i]);
            i = i + 1;
        }
    }
    if cur.len() > 0 {
        let ghost f0 = fields@.map_values(|s: String| s@);
        let s = lossy_string(cur.as_slice());
        fields.push(s);
        proof {
            assert(fields@.map_values(|s: String| s@) =~= f0.push(utf8_lossy(cur@)));
            assert(lossy_all(seq![cur@]) =~= seq![utf8_lossy(cur@)]);
            assert(f0 + lossy_all(seq![cur@]) =~= f0.push(utf8_lossy(cur@)));
        }
    } else {
        proof {
            assert(lossy_all(seq![]) =~= Seq::<Seq<char>>::empty());
            assert(fields@.map_values(|s: String| s@) + lossy_all(seq![]) =~= fields@.map_values(|s: String| s@));
        }
    }
    fields
}

/// The order in which a value pushes its parameters from byte `i` on (`%pN`), `prev_end`
/// being where the last push ended; a push right after one of the same parameter (the `%>` skip
/// pattern's double push) counts once.
pub open spec fn param_order(v: Seq<u8>, i: int, prev_end: int, order: Seq<u8>) -> Seq<u8>
    decreases v.len() - i,
{
    if i < 0 || i + 2 >= v.len() {
        order
    } else if v[i] == 0x25 && v[i + 1] == 0x70 && 0x30 <= v[i + 2] <= 0x39 {
        let n = (v[i + 2] - 0x30) as u8;
        let o2 = if i == prev_end && order.len() > 0 && order.last() == n { order } else { order.push(n) };
        param_order(v, i + 3, i + 3, o2)
    } else {
        param_order(v, i + 1, prev_end, order)
    }
}

/// `p` before `r`, when `r` is a result.
pub open spec fn cat(p: Seq<char>, r: Option<Seq<char>>) -> Option<Seq<char>> {
    match r {
        Some(s) => Some(p + s),
        None => None,
    }
}

/// `%r` when the parameter reversal is still to be written.
pub open spec fn rev_mark(rp: bool) -> Seq<char> {
    if rp { seq!['%', 'r'] } else { seq![] }
}

/// A byte after `%` that termcap copies through with the `%` (exotic printer codes and
/// control bytes).
pub open spec fn passthrough(c: u8) -> bool {
    c == 0x7a || c == 0x79 || c == 0x7d || c == 0x2f || c == 0x77 || c == 0x3d || c == 0x21 || c < 0x20
}

/// The termcap translation of a terminfo value from byte `i` on, `rp` telling whether `%r` is
/// still to be written before the next parameter-consuming operator; `None` when an operator
/// has no termcap form.
#[verifier::opaque]
pub open spec fn translate_from(v: Seq<u8>, i: int, islong: bool, rp: bool) -> Option<Seq<char>>
    decreases v.len() + 8 - i,
{
    if i < 0 || i >= v.len() {
        Some(seq![])
    } else if v[i] != 0x25 {
        cat(tc_esc_at_v(v, i, islong), translate_from(v, i + 1, islong, rp))
    } else if i + 1 >= v.len() {
        None
    } else {
        let c = v[i + 1];
        if c == 0x25 {
            cat(seq!['%', '%'], translate_from(v, i + 2, islong, rp))
        } else if c == 0x69 {
            cat(seq!['%', 'i'], translate_from(v, i + 2, islong, rp))
        } else if c == 0x70 {
            match skip_v(v, i) {
                Some((x, y, end)) => if end > i {
                    cat(
                        rev_mark(rp) + seq!['%', '>'] + tc_esc_v(x, false, None) + tc_esc_v(y, false, None),
                        translate_from(v, end, islong, false),
                    )
                } else {
                    None
                },
                None => translate_from(v, i + 3, islong, rp),
            }
        } else if c == 0x64 {
            cat(rev_mark(rp) + seq!['%', 'd'], translate_from(v, i + 2, islong, false))
        } else if c == 0x63 {
            cat(rev_mark(rp) + seq!['%', '.'], translate_from(v, i + 2, islong, false))
        } else if 0x30 <= c <= 0x39 {
            let j = digits_end(v, i + 1);
            let width = digits_val(v, i + 1, j);
            if i < j < v.len() && v[j] == 0x64 && 2 <= width <= 9 {
                cat(rev_mark(rp) + seq!['%', ch_of((0x30 + width) as u8)], translate_from(v, j + 1, islong, false))
            } else {
                None
            }
        } else if c == 0x27 && i + 7 < v.len() && v[i + 3] == 0x27 && v[i + 4] == 0x25 && v[i + 5] == 0x2b
            && v[i + 6] == 0x25 && v[i + 7] == 0x63 {
            cat(rev_mark(rp) + seq!['%', '+'] + tc_esc_v(v[i + 2], false, None), translate_from(v, i + 8, islong, false))
        } else if c == 0x7b {
            let j = digits_end(v, i + 2);
            let k = digits_val(v, i + 2, j);
            if j > i + 2 && j + 4 < v.len() && v[j] == 0x7d && v[j + 1] == 0x25 && v[j + 2] == 0x2b && v[j + 3] == 0x25
                && v[j + 4] == 0x63 && k <= 255 {
                cat(rev_mark(rp) + seq!['%', '+'] + tc_esc_v(k as u8, false, None), translate_from(v, j + 5, islong, false))
            } else {
                None
            }
        } else if passthrough(c) {
            cat(seq!['%'], translate_from(v, i + 1, islong, rp))
        } else {
            None
        }
    }
}

/// The pure-termcap form of a terminfo value: `None` when it uses a parameter above the second
/// or an operator termcap cannot express; `%r` leads the first parameter output when the value
/// pushes the second parameter first.
pub open spec fn try_translate_v(v: Seq<u8>, islong: bool) -> Option<Seq<char>> {
    let order = param_order(v, 0, -1, seq![]);
    if exists|k: int| 0 <= k < order.len() && #[trigger] order[k] > 2 {
        None
    } else {
        translate_from(v, 0, islong, order.len() > 0 && order[0] == 2)
    }
}

/// Whether the value uses a parameter above the second, and whether its first pushed
/// parameter is the second.
fn param_scan(v: &[u8]) -> (r: (bool, bool))
    ensures
        r.0 == exists|k: int| 0 <= k < param_order(v@, 0, -1, seq![]).len() && #[trigger] param_order(v@, 0, -1, seq![])[k] > 2,
        r.1 == (param_order(v@, 0, -1, seq![]).len() > 0 && param_order(v@, 0, -1, seq![])[0] == 2),
{
    let mut order: Vec<u8> = Vec::new();
    let mut i: usize = 0;
    let mut has_prev = false;
    let mut prev_end: usize = 0;
    while i < v.len() && v.len() - i > 2
        invariant
            i <= v@.len(),
            param_order(v@, i as int, if has_prev { prev_end as int } else { -1 }, order@) == param_order(v@, 0, -1, seq![]),
        decreases v@.len() - i,
    {
        if v[i] == 0x25 && v[i + 1] == 0x70 && 0x30 <= v[i + 2] && v[i + 2] <= 0x39 {
            let n = v[i + 2] - 0x30;
            let same = has_prev && i == prev_end && order.len() > 0 && order[order.len() - 1] == n;
            if !same {
                order.push(n);
            }
            i = i + 3;
            prev_end = i;
            has_prev = true;
        } else {
            i = i + 1;
        }
    }
    let ghost fin = param_order(v@, 0, -1, seq![]);
    proof {
        assert(order@ == fin);
    }
    let mut bad = false;
    let mut k: usize = 0;
    while k < order.len()
        invariant
            k <= order@.len(),
            order@ == fin,
            bad == exists|m: int| 0 <= m < k && #[trigger] fin[m] > 2,
        decreases order@.len() - k,
    {
        if order[k] > 2 {
            bad = true;
        }
        k = k + 1;
    }
    let first2 = order.len() > 0 && order[0] == 2;
    (bad, first2)
}

/// The end of the digit run at `j` and its value, saturated at 256.
fn digit_run(v: &[u8], j0: usize) -> (r: (usize, u32))
    requires
        j0 <= v@.len(),
    ensures
        r.0 == digits_end(v@, j0 as int),
        j0 <= r.0 <= v@.len(),
        r.1 == (if digits_val(v@, j0 as int, r.0 as int) <= 255 { digits_val(v@, j0 as int, r.0 as int) } else { 256 }),
{
    let mut j: usize = j0;
    let mut val: u32 = 0;
    while j < v.len() && 0x30 <= v[j] && v[j] <= 0x39
        invariant
            j0 <= j <= v@.len(),
            digits_end(v@, j as int) == digits_end(v@, j0 as int),
            val == (if digits_val(v@, j0 as int, j as int) <= 255 { digits_val(v@, j0 as int, j as int) } else { 256 }),
        decreases v@.len() - j,
    {
        let d = (v[j] - 0x30) as u32;
        proof {
            assert(digits_val(v@, j0 as int, j + 1) == digits_val(v@, j0 as int, j as int) * 10 + d);
        }
        if val > 255 || val * 10 + d > 255 {
            val = 256;
        } else {
            val = val * 10 + d;
        }
        j = j + 1;
    }
    (j, val)
}

/// Append `%r` when the reversal is still pending.
fn push_rev(out: &mut String, rp: bool)
    ensures
        final(out)@ == old(out)@ + rev_mark(rp),
{
    if rp {
        push_char(out, '%');
        push_char(out, 'r');
    }
    assert(final(out)@ =~= old(out)@ + rev_mark(rp));
}

/// Append two characters.
fn push2(out: &mut String, a: char, b: char)
    ensures
        final(out)@ == old(out)@ + seq![a, b],
{
    push_char(out, a);
    push_char(out, b);
    assert(final(out)@ =~= old(out)@ + seq![a, b]);
}

/// Translate the `%` operator at `i`: the position after it and whether `%r` is still
/// pending, having appended its termcap form; `None` when it has none.
#[verifier::spinoff_prover]
#[verifier::rlimit(40)]
fn translate_op(out: &mut String, v: &[u8], i: usize, islong: bool, rp: bool) -> (r: Option<(usize, bool)>)
    requires
        i + 1 < v@.len(),
        v@[i as int] == 0x25,
        v@.len() + 16 <= usize::MAX,
    ensures
        r is None ==> translate_from(v@, i as int, islong, rp) is None,
        r matches Some(p) ==> ({
            &&& i < p.0 <= v@.len() + 8
            &&& old(out)@.len() <= final(out)@.len()
            &&& final(out)@.subrange(0, old(out)@.len() as int) == old(out)@
            &&& translate_from(v@, i as int, islong, rp) == cat(
                final(out)@.subrange(old(out)@.len() as int, final(out)@.len() as int),
                translate_from(v@, p.0 as int, islong, p.1),
            )
        }),
{
    reveal(translate_from);
    let ghost o = out@;
    let c = v[i + 1];
    let ghost piece: Seq<char>;
    let r: (usize, bool);
    if c == 0x25 {
        push2(out, '%', '%');
        proof { piece = seq!['%', '%']; }
        r = (i + 2, rp);
    } else if c == 0x69 {
        push2(out, '%', 'i');
        proof { piece = seq!['%', 'i']; }
        r = (i + 2, rp);
    } else if c == 0x70 {
        match match_skip(v, i) {
            Some((x, y, end)) => {
                push_rev(out, rp);
                push2(out, '%', '>');
                tc_escape_byte(out, x, false, None);
                tc_escape_byte(out, y, false, None);
                proof {
                    piece = rev_mark(rp) + seq!['%', '>'] + tc_esc_v(x, false, None) + tc_esc_v(y, false, None);
                }
                r = (end, false);
            },
            None => {
                proof { piece = seq![]; }
                r = (i + 3, rp);
            },
        }
    } else if c == 0x64 || c == 0x63 {
        push_rev(out, rp);
        if c == 0x64 {
            push2(out, '%', 'd');
        } else {
            push2(out, '%', '.');
        }
        proof {
            piece = rev_mark(rp) + (if c == 0x64 { seq!['%', 'd'] } else { seq!['%', '.'] });
        }
        r = (i + 2, false);
    } else if 0x30 <= c && c <= 0x39 {
        let (j, width) = digit_run(v, i + 1);
        if !(j < v.len() && v[j] == 0x64 && 2 <= width && width <= 9) {
            return None;
        }
        push_rev(out, rp);
        push2(out, '%', (0x30 + width as u8) as char);
        proof {
            piece = rev_mark(rp) + seq!['%', ch_of((0x30 + width) as u8)];
        }
        r = (j + 1, false);
    } else if c == 0x27 && v.len() - i > 7 && v[i + 3] == 0x27 && v[i + 4] == 0x25 && v[i + 5] == 0x2b
        && v[i + 6] == 0x25 && v[i + 7] == 0x63 {
        push_rev(out, rp);
        push2(out, '%', '+');
        tc_escape_byte(out, v[i + 2], false, None);
        proof {
            piece = rev_mark(rp) + seq!['%', '+'] + tc_esc_v(v@[i + 2], false, None);
        }
        r = (i + 8, false);
    } else if c == 0x7b {
        let (j, k) = digit_run(v, i + 2);
        if !(j > i + 2 && v.len() - j > 4 && v[j] == 0x7d && v[j + 1] == 0x25 && v[j + 2] == 0x2b && v[j + 3] == 0x25
            && v[j + 4] == 0x63 && k <= 255) {
            return None;
        }
        push_rev(out, rp);
        push2(out, '%', '+');
        tc_escape_byte(out, k as u8, false, None);
        proof {
            piece = rev_mark(rp) + seq!['%', '+'] + tc_esc_v(k as u8, false, None);
        }
        r = (j + 5, false);
    } else if c == 0x7a || c == 0x79 || c == 0x7d || c == 0x2f || c == 0x77 || c == 0x3d || c == 0x21 || c < 0x20 {
        push_char(out, '%');
        proof { piece = seq!['%']; }
        r = (i + 1, rp);
    } else {
        return None;
    }
    proof {
        assert(out@ =~= o + piece);
        assert(out@.subrange(0, o.len() as int) =~= o);
        assert(out@.subrange(o.len() as int, out@.len() as int) =~= piece);
    }
    Some(r)
}

/// Translate a terminfo value's parameter codes to pure termcap `%`-codes (`%pN%d` to `%d`,
/// `%2d` to `%2`, `%c` to `%.`, `%'X'%+%c` to `%+X`, the `%>` skip, a leading `%r` for
/// reversed parameters), `None` when it needs an operator termcap lacks (see
/// [`try_translate_v`]).
pub fn try_translate(v: &[u8], islong: bool) -> (r: Option<String>)
    requires
        v@.len() + 16 <= usize::MAX,
    ensures
        r is None <==> try_translate_v(v@, islong) is None,
        r matches Some(s) ==> try_translate_v(v@, islong) == Some(s@),
{
    let (bad, first2) = param_scan(v);
    if bad {
        return None;
    }
    let ghost rp0 = first2;
    let mut rp = first2;
    let mut out = String::new();
    let mut i: usize = 0;
    while i < v.len()
        invariant
            i <= v@.len() + 8,
            v@.len() + 16 <= usize::MAX,
            try_translate_v(v@, islong) == translate_from(v@, 0, islong, rp0),
            cat(out@, translate_from(v@, i as int, islong, rp)) == translate_from(v@, 0, islong, rp0),
        decreases v@.len() + 8 - i,
    {
        let ghost o = out@;
        if v[i] != 0x25 {
            tc_escape_at(&mut out, v, i, islong);
            proof {
                reveal(translate_from);
                assert(translate_from(v@, i as int, islong, rp) == cat(
                    tc_esc_at_v(v@, i as int, islong),
                    translate_from(v@, i + 1, islong, rp),
                ));
                match translate_from(v@, i + 1, islong, rp) {
                    Some(t) => assert(o + (tc_esc_at_v(v@, i as int, islong) + t) =~= out@ + t),
                    None => {},
                }
            }
            i = i + 1;
        } else {
            if i + 1 >= v.len() {
                proof {
                    reveal(translate_from);
                }
                return None;
            }
            let ghost i0 = i as int;
            let ghost rp_old = rp;
            match translate_op(&mut out, v, i, islong, rp) {
                None => {
                    return None;
                },
                Some((n, r2)) => {
                    proof {
                        let piece = out@.subrange(o.len() as int, out@.len() as int);
                        assert(out@ =~= o + piece);
                        match translate_from(v@, n as int, islong, r2) {
                            Some(t) => assert(o + (piece + t) =~= out@ + t),
                            None => {},
                        }
                    }
                    i = n;
                    rp = r2;
                },
            }
        }
    }
    proof {
        reveal(translate_from);
        assert(translate_from(v@, i as int, islong, rp) == Some(Seq::<char>::empty()));
        assert(out@ + Seq::<char>::empty() =~= out@);
    }
    Some(out)
}

/// `infocmp -C`'s verbatim form of a value it cannot translate, from byte `i` on: a `%`
/// keeps the printable byte after it (a comma still escaped), a caret is `\^`, and every other
/// byte takes its termcap escape.
pub open spec fn verbatim_from(raw: Seq<u8>, i: int, islong: bool) -> Seq<char>
    decreases raw.len() - i,
{
    if i < 0 || i >= raw.len() {
        seq![]
    } else if raw[i] == 0x25 && i + 1 < raw.len() && printable(raw[i + 1]) {
        seq!['%'] + (if raw[i + 1] == 0x2c { seq!['\\', ','] } else { seq![ch_of(raw[i + 1])] }) + verbatim_from(
            raw,
            i + 2,
            islong,
        )
    } else if raw[i] == 0x5e {
        seq!['\\', '^'] + verbatim_from(raw, i + 1, islong)
    } else {
        tc_esc_at_v(raw, i, islong) + verbatim_from(raw, i + 1, islong)
    }
}

/// A value's termcap text and whether it was kept verbatim: the delay prefix of a trailing
/// padding then the translated value (its length test taken over both), or, when the value has
/// no pure-termcap form, the original value (padding included) escaped verbatim.
pub open spec fn tc_xlat_v(raw: Seq<u8>) -> (Seq<char>, bool) {
    let v = strip_pad_from(raw, 0);
    let d = match trailing_pad_from(raw, 0) {
        Some(p) => delay_of(p),
        None => seq![],
    };
    match try_translate_v(v, islong_v(vstd::utf8::encode_utf8(d) + v)) {
        Some(b) => (d + b, false),
        None => (verbatim_from(raw, 0, islong_v(raw)), true),
    }
}

/// Render a terminfo value as a termcap value (see [`tc_xlat_v`]).
pub fn tc_xlat(raw: &[u8]) -> (r: (String, bool))
    requires
        raw@.len() + 16 <= usize::MAX,
    ensures
        r.0@ == tc_xlat_v(raw@).0,
        r.1 == tc_xlat_v(raw@).1,
{
    let (v, delay) = extract_padding(raw);
    let mut weighed: Vec<u8> = Vec::new();
    push_bytes(&mut weighed, delay.as_str().as_bytes());
    push_bytes(&mut weighed, v.as_slice());
    let long_w = noncontrol_islong(weighed.as_slice());
    match try_translate(v.as_slice(), long_w) {
        Some(body) => {
            let mut s = delay;
            s.append(body.as_str());
            return (s, false);
        },
        None => {},
    }
    let islong = noncontrol_islong(raw);
    let mut s = String::new();
    let mut i: usize = 0;
    while i < raw.len()
        invariant
            i <= raw@.len() + 1,
            islong == islong_v(raw@),
            s@ + verbatim_from(raw@, i as int, islong) == verbatim_from(raw@, 0, islong),
        decreases raw@.len() + 1 - i,
    {
        let ghost o = s@;
        if raw[i] == 0x25 && raw.len() - i > 1 && 0x20 <= raw[i + 1] && raw[i + 1] <= 0x7e {
            push_char(&mut s, '%');
            let n = raw[i + 1];
            if n == 0x2c {
                push2(&mut s, '\\', ',');
            } else {
                push_char(&mut s, n as char);
            }
            proof {
                let p = seq!['%'] + (if n == 0x2c { seq!['\\', ','] } else { seq![ch_of(n)] });
                assert(s@ =~= o + p);
                assert(o + (p + verbatim_from(raw@, i + 2, islong)) =~= s@ + verbatim_from(raw@, i + 2, islong));
            }
            i = i + 2;
        } else if raw[i] == 0x5e {
            push2(&mut s, '\\', '^');
            proof {
                assert(o + (seq!['\\', '^'] + verbatim_from(raw@, i + 1, islong)) =~= s@ + verbatim_from(raw@, i + 1, islong));
            }
            i = i + 1;
        } else {
            tc_escape_at(&mut s, raw, i, islong);
            proof {
                assert(o + (tc_esc_at_v(raw@, i as int, islong) + verbatim_from(raw@, i + 1, islong)) =~= s@ + verbatim_from(raw@, i + 1, islong));
            }
            i = i + 1;
        }
    }
    proof {
        assert(s@ + verbatim_from(raw@, i as int, islong) =~= s@);
    }
    (s, true)
}

/// Whether a value references a parameter or uses arithmetic: `%p`, `%+`, `%-` or `%*`.
pub open spec fn marks_obsolete(raw: Seq<u8>) -> bool {
    exists|k: int| 0 <= k && k + 1 < raw.len() && #[trigger] raw[k] == 0x25 && (raw[k + 1] == 0x70
        || raw[k + 1] == 0x2b || raw[k + 1] == 0x2d || raw[k + 1] == 0x2a)
}

/// The termcap field `code=value` for a string value; a value kept verbatim that references a
/// parameter or uses arithmetic is marked obsolete with a leading `..`.
pub open spec fn tc_field_v(code: Seq<char>, raw: Seq<u8>) -> Seq<char> {
    let x = tc_xlat_v(raw);
    (if x.1 && marks_obsolete(raw) { seq!['.', '.'] } else { seq![] }) + code + seq!['='] + x.0
}

/// Whether `raw` references a parameter or uses arithmetic (see [`marks_obsolete`]).
fn has_param_op(raw: &[u8]) -> (r: bool)
    ensures
        r == marks_obsolete(raw@),
{
    let mut k: usize = 0;
    while k < raw.len() && raw.len() - k > 1
        invariant
            k <= raw@.len(),
            forall|j: int| 0 <= j < k && j + 1 < raw@.len() ==> !(#[trigger] raw@[j] == 0x25 && (raw@[j + 1] == 0x70
                || raw@[j + 1] == 0x2b || raw@[j + 1] == 0x2d || raw@[j + 1] == 0x2a)),
        decreases raw@.len() - k,
    {
        let n = raw[k + 1];
        if raw[k] == 0x25 && (n == 0x70 || n == 0x2b || n == 0x2d || n == 0x2a) {
            return true;
        }
        k = k + 1;
    }
    false
}

/// Build the termcap field `code=value` for a string value (see [`tc_field_v`]).
pub fn tc_field(code: &str, raw: &[u8]) -> (s: String)
    requires
        raw@.len() + 16 <= usize::MAX,
    ensures
        s@ == tc_field_v(code@, raw@),
{
    let (val, verbatim) = tc_xlat(raw);
    let mut s = String::new();
    if verbatim && has_param_op(raw) {
        push2(&mut s, '.', '.');
    }
    s.append(code);
    push_char(&mut s, '=');
    s.append(val.as_str());
    proof {
        let x = tc_xlat_v(raw@);
        assert(s@ =~= tc_field_v(code@, raw@));
    }
    s
}

/// The index of the first `m` of `v` at or after `j`, `-1` when there is none.
pub open spec fn m_from(v: Seq<u8>, j: int) -> int
    decreases v.len() - j,
{
    if j < 0 || j >= v.len() {
        -1
    } else if v[j] == 0x6d {
        j
    } else {
        m_from(v, j + 1)
    }
}

/// The `;`-separated fields of `b` from byte `i` on, `cur` being the field read so far; the
/// last field is always kept, even when empty.
pub open spec fn semi_fields(b: Seq<u8>, i: int, cur: Seq<u8>) -> Seq<Seq<u8>>
    decreases b.len() - i,
{
    if i < 0 || i >= b.len() {
        seq![cur]
    } else if b[i] == 0x3b {
        seq![cur] + semi_fields(b, i + 1, seq![])
    } else {
        semi_fields(b, i + 1, cur.push(b[i]))
    }
}

/// The fields joined by `;`.
pub open spec fn semi_join(fs: Seq<Seq<u8>>) -> Seq<u8>
    decreases fs.len(),
{
    if fs.len() == 0 {
        seq![]
    } else if fs.len() == 1 {
        fs[0]
    } else {
        semi_join(fs.drop_last()) + seq![0x3bu8] + fs.last()
    }
}

/// The index of the first of `fs` equal to `p`, if any.
pub open spec fn first_eq(fs: Seq<Seq<u8>>, p: Seq<u8>, k: int) -> Option<int>
    decreases fs.len() - k,
{
    if k < 0 || k >= fs.len() {
        None
    } else if fs[k] == p {
        Some(k)
    } else {
        first_eq(fs, p, k + 1)
    }
}

/// `remove_sgr_param` from byte `i` on: at the first SGR sequence `\E[<params>m` whose
/// parameter list (digits and `;`) holds `param`, the result with that parameter removed;
/// `None` when no such sequence follows.
pub open spec fn remove_param_from(off: Seq<u8>, param: Seq<u8>, i: int) -> Option<Seq<u8>>
    decreases off.len() - i,
{
    if i < 0 || i >= off.len() {
        None
    } else if i + 1 < off.len() && off[i] == 0x1b && off[i + 1] == 0x5b && i + 2 <= m_from(off, i + 2) < off.len() {
        let j = m_from(off, i + 2);
        let body = off.subrange(i + 2, j);
        let fs = semi_fields(body, 0, seq![]);
        if (forall|k: int| 0 <= k < body.len() ==> sgr_param_byte(#[trigger] body[k])) && first_eq(fs, param, 0) is Some {
            Some(off.subrange(0, i) + seq![0x1bu8, 0x5bu8] + semi_join(fs.remove(first_eq(fs, param, 0).unwrap()))
                + seq![0x6du8] + off.subrange(j + 1, off.len() as int))
        } else {
            remove_param_from(off, param, j + 1)
        }
    } else {
        remove_param_from(off, param, i + 1)
    }
}

/// `off` with SGR parameter `param` removed from its first SGR sequence that lists it
/// (`\E[0;10m` minus `10` is `\E[0m`); `off` unchanged when none does.
pub open spec fn remove_sgr_param_v(off: Seq<u8>, param: Seq<u8>) -> Seq<u8> {
    match remove_param_from(off, param, 0) {
        Some(r) => r,
        None => off,
    }
}

/// The first `m` at or after `j`, if any.
fn find_m(v: &[u8], j: usize) -> (r: Option<usize>)
    requires
        j <= v@.len(),
    ensures
        r matches Some(k) ==> k == m_from(v@, j as int) && j <= k < v@.len(),
        r is None ==> m_from(v@, j as int) == -1,
{
    let mut k: usize = j;
    while k < v.len()
        invariant
            j <= k <= v@.len(),
            m_from(v@, k as int) == m_from(v@, j as int),
        decreases v@.len() - k,
    {
        if v[k] == 0x6d {
            return Some(k);
        }
        k = k + 1;
    }
    None
}

/// The `;`-separated fields of `b`.
fn split_semi(b: &[u8]) -> (r: Vec<Vec<u8>>)
    ensures
        r@.map_values(|f: Vec<u8>| f@) == semi_fields(b@, 0, seq![]),
{
    let mut fs: Vec<Vec<u8>> = Vec::new();
    let mut cur: Vec<u8> = Vec::new();
    let mut i: usize = 0;
    while i < b.len()
        invariant
            i <= b@.len(),
            fs@.map_values(|f: Vec<u8>| f@) + semi_fields(b@, i as int, cur@) == semi_fields(b@, 0, seq![]),
        decreases b@.len() - i,
    {
        let ghost f0 = fs@.map_values(|f: Vec<u8>| f@);
        if b[i] == 0x3b {
            let ghost c0 = cur@;
            fs.push(cur);
            cur = Vec::new();
            proof {
                assert(fs@.map_values(|f: Vec<u8>| f@) =~= f0.push(c0));
                assert(f0 + (seq![c0] + semi_fields(b@, i + 1, seq![])) =~= f0.push(c0) + semi_fields(b@, i + 1, cur@));
            }
        } else {
            cur.push(b[i]);
        }
        i = i + 1;
    }
    let ghost f0 = fs@.map_values(|f: Vec<u8>| f@);
    let ghost c0 = cur@;
    fs.push(cur);
    proof {
        assert(fs@.map_values(|f: Vec<u8>| f@) =~= f0 + seq![c0]);
    }
    fs
}

/// Whether every byte of `b` is a digit or `;`.
fn all_param_bytes(b: &[u8]) -> (r: bool)
    ensures
        r == forall|k: int| 0 <= k < b@.len() ==> sgr_param_byte(#[trigger] b@[k]),
{
    let mut k: usize = 0;
    while k < b.len()
        invariant
            k <= b@.len(),
            forall|j: int| 0 <= j < k ==> sgr_param_byte(#[trigger] b@[j]),
        decreases b@.len() - k,
    {
        let x = b[k];
        if !((0x30 <= x && x <= 0x39) || x == 0x3b) {
            return false;
        }
        k = k + 1;
    }
    true
}

/// The fields of `fs` but the `skip`-th, joined by `;`.
fn join_without(fs: &Vec<Vec<u8>>, skip: usize) -> (r: Vec<u8>)
    requires
        skip < fs@.len(),
    ensures
        r@ == semi_join(fs@.map_values(|f: Vec<u8>| f@).remove(skip as int)),
{
    let ghost fv = fs@.map_values(|f: Vec<u8>| f@).remove(skip as int);
    let mut out: Vec<u8> = Vec::new();
    let mut k: usize = 0;
    let mut taken: usize = 0;
    while k < fs.len()
        invariant
            k <= fs@.len(),
            skip < fs@.len(),
            fv == fs@.map_values(|f: Vec<u8>| f@).remove(skip as int),
            taken == (if k > skip { k - 1 } else { k as int }),
            out@ == semi_join(fv.subrange(0, taken as int)),
        decreases fs@.len() - k,
    {
        if k != skip {
            let ghost o = out@;
            if taken > 0 {
                out.push(0x3b);
            }
            push_bytes(&mut out, fs[k].as_slice());
            proof {
                let pre = fv.subrange(0, taken as int);
                let nxt = fv.subrange(0, taken + 1);
                assert(fv[taken as int] == fs@[k as int]@);
                assert(nxt.drop_last() =~= pre);
                if taken > 0 {
                    assert(out@ =~= semi_join(nxt));
                } else {
                    assert(out@ =~= semi_join(nxt));
                }
            }
            taken = taken + 1;
        }
        k = k + 1;
    }
    proof {
        assert(fv.subrange(0, taken as int) =~= fv);
    }
    out
}

/// Remove SGR parameter `param` from the first SGR sequence of `off` that lists it (see
/// [`remove_sgr_param_v`]).
pub fn remove_sgr_param(off: &[u8], param: &[u8]) -> (r: Vec<u8>)
    ensures
        r@ == remove_sgr_param_v(off@, param@),
{
    let mut i: usize = 0;
    while i < off.len()
        invariant
            i <= off@.len() + 1,
            remove_param_from(off@, param@, 0) == remove_param_from(off@, param@, i as int),
        decreases off@.len() + 1 - i,
    {
        if off.len() - i > 1 && off[i] == 0x1b && off[i + 1] == 0x5b {
            match find_m(off, i + 2) {
                Some(j) => {
                    let body = slice_range(off, i + 2, j);
                    let fs = split_semi(body.as_slice());
                    let ok = all_param_bytes(body.as_slice());
                    let ghost fv = fs@.map_values(|f: Vec<u8>| f@);
                    if ok {
                        let mut k: usize = 0;
                        while k < fs.len()
                            invariant
                                k <= fs@.len(),
                                fv == fs@.map_values(|f: Vec<u8>| f@),
                                first_eq(fv, param@, k as int) == first_eq(fv, param@, 0),
                            ensures
                                k <= fs@.len(),
                                first_eq(fv, param@, k as int) == first_eq(fv, param@, 0),
                                k < fs@.len() ==> fv[k as int] == param@,
                            decreases fs@.len() - k,
                        {
                            if crate::vid::bytes_eq(fs[k].as_slice(), param) {
                                proof {
                                    assert(fv[k as int] == fs@[k as int]@);
                                }
                                break;
                            }
                            k = k + 1;
                        }
                        if k < fs.len() {
                            let mut out: Vec<u8> = Vec::new();
                            push_bytes(&mut out, slice_range(off, 0, i).as_slice());
                            out.push(0x1b);
                            out.push(0x5b);
                            let joined = join_without(&fs, k);
                            push_bytes(&mut out, joined.as_slice());
                            out.push(0x6d);
                            push_bytes(&mut out, slice_range(off, j + 1, off.len()).as_slice());
                            proof {
                                assert(fv[k as int] == fs@[k as int]@);
                                assert(first_eq(fv, param@, k as int) == Some(k as int));
                                assert(out@ =~= off@.subrange(0, i as int) + seq![0x1bu8, 0x5bu8] + semi_join(fv.remove(k as int))
                                    + seq![0x6du8] + off@.subrange(j + 1, off@.len() as int));
                            }
                            return out;
                        }
                    }
                    i = j + 1;
                    continue;
                },
                None => {},
            }
        }
        i = i + 1;
    }
    let mut out: Vec<u8> = Vec::new();
    push_bytes(&mut out, off);
    out
}

/// A copy of `v[lo..hi]`.
fn slice_range(v: &[u8], lo: usize, hi: usize) -> (r: Vec<u8>)
    requires
        lo <= hi <= v@.len(),
    ensures
        r@ == v@.subrange(lo as int, hi as int),
{
    let mut r: Vec<u8> = Vec::new();
    let mut k: usize = lo;
    while k < hi
        invariant
            lo <= k <= hi <= v@.len(),
            r@ == v@.subrange(lo as int, k as int),
        decreases hi - k,
    {
        r.push(v[k]);
        k = k + 1;
        assert(r@ =~= v@.subrange(lo as int, k as int));
    }
    r
}

/// Whether an `acsc` value remaps a glyph: some complete pair whose two bytes differ.
pub open spec fn acsc_remaps(a: Seq<u8>) -> bool {
    exists|p: int| 0 <= p && 2 * p + 1 < a.len() && #[trigger] a[2 * p] != a[2 * p + 1]
}

/// Whether `smacs`/`rmacs` are dropped for consistency with the `acsc` charset handling: the
/// entry has `smacs` and a non-empty `acsc` that remaps a glyph.
pub open spec fn drop_acs_v(t: TerminfoV) -> bool {
    match string_v(t, cap("acsc")) {
        Some(a) => a.len() > 0 && string_v(t, cap("smacs")) is Some && acsc_remaps(a),
        None => false,
    }
}

/// Whether `smacs`/`rmacs` are dropped for consistency (see [`drop_acs_v`]).
pub fn drop_acs_for_consistency(t: &Terminfo) -> (r: bool)
    ensures
        r == drop_acs_v(t@),
{
    proof {
        reveal_strlit("acsc");
        reveal_strlit("smacs");
    }
    let a = match t.string("acsc") {
        Some(a) => a,
        None => {
            return false;
        },
    };
    if a.len() == 0 {
        return false;
    }
    let sm = t.string("smacs");
    if sm.is_none() {
        return false;
    }
    proof {
        assert(string_v(t@, cap("acsc")) == Some(a@));
        assert(string_v(t@, cap("smacs")) is Some);
    }
    let mut p: usize = 0;
    while p < a.len() / 2
        invariant
            p <= a@.len() / 2,
            a@.len() > 0,
            string_v(t@, cap("acsc")) == Some(a@),
            string_v(t@, cap("smacs")) is Some,
            forall|q: int| 0 <= q < p ==> #[trigger] a@[2 * q] == a@[2 * q + 1],
        decreases a@.len() / 2 - p,
    {
        if a[2 * p] != a[2 * p + 1] {
            proof {
                assert(a@[2 * (p as int)] != a@[2 * (p as int) + 1]);
                assert(acsc_remaps(a@));
            }
            return true;
        }
        p = p + 1;
    }
    proof {
        assert forall|q: int| 0 <= q && 2 * q + 1 < a@.len() implies #[trigger] a@[2 * q] == a@[2 * q + 1] by {
            assert(q < p);
        }
    }
    false
}

/// The first index at or after `k` where `n` occurs in `h`, if any.
pub open spec fn first_window(h: Seq<u8>, n: Seq<u8>, k: int) -> Option<int>
    decreases h.len() + 1 - k,
{
    if k < 0 || k + n.len() > h.len() {
        None
    } else if h.subrange(k, k + n.len()) == n {
        Some(k)
    } else {
        first_window(h, n, k + 1)
    }
}

/// `h` with the first occurrence of `n` cut out (unchanged when there is none).
pub open spec fn cut_first_v(h: Seq<u8>, n: Seq<u8>) -> Seq<u8> {
    match first_window(h, n, 0) {
        Some(i) => h.subrange(0, i) + h.subrange(i + n.len(), h.len() as int),
        None => h,
    }
}

/// `h` with the first occurrence of `n` cut out (see [`cut_first_v`]).
fn cut_first(h: &[u8], n: &[u8]) -> (r: Vec<u8>)
    requires
        n@.len() >= 1,
    ensures
        r@ == cut_first_v(h@, n@),
{
    let m = n.len();
    let mut i: usize = 0;
    while i <= h.len() && h.len() - i >= m
        invariant
            m == n@.len(),
            m >= 1,
            i <= h@.len(),
            first_window(h@, n@, i as int) == first_window(h@, n@, 0),
        decreases h@.len() + 1 - i,
    {
        let w = slice_range(h, i, i + m);
        if crate::vid::bytes_eq(w.as_slice(), n) {
            let mut r = slice_range(h, 0, i);
            let rest = slice_range(h, i + m, h.len());
            push_bytes(&mut r, rest.as_slice());
            return r;
        }
        i = i + 1;
    }
    let mut r: Vec<u8> = Vec::new();
    push_bytes(&mut r, h);
    assert(r@ =~= h@);
    r
}

/// The `sgr` parameter list with every attribute off, and with only the alternate charset on.
pub open spec fn sgr_args(acs: i32) -> Seq<PV> {
    seq![PV::Int(0), PV::Int(0), PV::Int(0), PV::Int(0), PV::Int(0), PV::Int(0), PV::Int(0), PV::Int(0), PV::Int(acs)]
}

/// A CSI SGR sequence: `\E[` ... `m`.
pub open spec fn is_csi_v(tp: Seq<u8>) -> bool {
    tp.len() >= 2 && tp[0] == 0x1b && tp[1] == 0x5b && tp.len() >= 1 && tp.last() == 0x6d
}

/// The termcap reset `me` derived from an entry (ncurses' `_nc_trim_sgr0`): `sgr0` when there
/// is no `sgr`, no `rmacs`, or `sgr` does not toggle the charset; with an SGR-parameter
/// `rmacs`, that parameter dropped from `sgr` with every attribute off when `sgr0` refers to
/// it; with a separate `rmacs`, the all-off `sgr` with the `rmacs` cut out, `sgr0`, or the
/// all-off `sgr` itself, as the cases below decide. `None` without `sgr0`.
pub open spec fn me_v(t: TerminfoV) -> Option<Seq<u8>> {
    match string_v(t, cap("sgr0")) {
        None => None,
        Some(sgr0) => match string_v(t, cap("sgr")) {
            None => Some(sgr0),
            Some(sgr) => {
                let off = tparm_spec(sgr, sgr_args(0));
                let cons = drop_acs_v(t);
                let rm = match string_v(t, cap("rmacs")) {
                    Some(r) => strip_pad_from(r, 0),
                    None => seq![],
                };
                if rm.len() == 0 || off == tparm_spec(sgr, sgr_args(1)) {
                    Some(sgr0)
                } else {
                    match sgr_param_v(rm) {
                        Some(param) => if has_window(sgr0, seq![0x3bu8] + param) || has_window(
                            sgr0,
                            seq![0x5bu8] + param + seq![0x6du8],
                        ) || has_window(sgr0, seq![0x5bu8] + param + seq![0x3bu8]) {
                            Some(remove_sgr_param_v(off, param))
                        } else {
                            Some(sgr0)
                        },
                        None => {
                            let s0 = strip_pad_from(sgr0, 0);
                            let trim = cut_first_v(off, rm);
                            let tp = strip_pad_from(trim, 0);
                            let bare = seq![0x1bu8, 0x5bu8, 0x6du8];
                            if has_window(s0, rm) {
                                if !is_csi_v(tp) {
                                    if rm.len() == 1 { Some(if cons { off } else { trim }) } else { Some(sgr0) }
                                } else if tp == bare {
                                    Some(if rm == seq![0x0eu8] { trim } else { sgr0 })
                                } else if norm_sgr_from(tp, 0) == norm_sgr_from(cut_first_v(s0, rm), 0) {
                                    Some(if cons { off } else { trim })
                                } else {
                                    Some(sgr0)
                                }
                            } else if is_csi_v(tp) && tp != bare {
                                Some(trim)
                            } else {
                                Some(off)
                            }
                        },
                    }
                }
            },
        },
    }
}

/// Whether `tp` is a CSI SGR sequence.
fn is_csi(tp: &Vec<u8>) -> (r: bool)
    ensures
        r == is_csi_v(tp@),
{
    tp.len() >= 2 && tp[0] == 0x1b && tp[1] == 0x5b && tp[tp.len() - 1] == 0x6d
}

/// The separate-`rmacs` case of [`me_v`].
fn me_separate(sgr0: &[u8], off: Vec<u8>, rm: &Vec<u8>, cons: bool) -> (r: Vec<u8>)
    requires
        rm@.len() >= 1,
    ensures
        r@ == ({
            let s0 = strip_pad_from(sgr0@, 0);
            let trim = cut_first_v(off@, rm@);
            let tp = strip_pad_from(trim, 0);
            let bare = seq![0x1bu8, 0x5bu8, 0x6du8];
            if has_window(s0, rm@) {
                if !is_csi_v(tp) {
                    if rm@.len() == 1 { if cons { off@ } else { trim } } else { sgr0@ }
                } else if tp == bare {
                    if rm@ == seq![0x0eu8] { trim } else { sgr0@ }
                } else if norm_sgr_from(tp, 0) == norm_sgr_from(cut_first_v(s0, rm@), 0) {
                    if cons { off@ } else { trim }
                } else {
                    sgr0@
                }
            } else if is_csi_v(tp) && tp != bare {
                trim
            } else {
                off@
            }
        }),
{
    let s0 = strip_pad(sgr0);
    let trim = cut_first(off.as_slice(), rm.as_slice());
    let tp = strip_pad(trim.as_slice());
    let csi = is_csi(&tp);
    let bare: [u8; 3] = [0x1b, 0x5b, 0x6d];
    let is_bare = crate::vid::bytes_eq(tp.as_slice(), &bare);
    proof {
        assert(bare@ =~= seq![0x1bu8, 0x5bu8, 0x6du8]);
    }
    let mut copy0: Vec<u8> = Vec::new();
    push_bytes(&mut copy0, sgr0);
    if contains_window(s0.as_slice(), rm.as_slice()) {
        if !csi {
            if rm.len() == 1 {
                if cons { off } else { trim }
            } else {
                copy0
            }
        } else if is_bare {
            let so: [u8; 1] = [0x0e];
            proof {
                assert(so@ =~= seq![0x0eu8]);
            }
            if crate::vid::bytes_eq(rm.as_slice(), &so) { trim } else { copy0 }
        } else {
            let s0r = cut_first(s0.as_slice(), rm.as_slice());
            let a = normalize_sgr(tp.as_slice());
            let b = normalize_sgr(s0r.as_slice());
            if crate::vid::bytes_eq(a.as_slice(), b.as_slice()) {
                if cons { off } else { trim }
            } else {
                copy0
            }
        }
    } else if csi && !is_bare {
        trim
    } else {
        off
    }
}

/// Derive the termcap reset `me` from an entry (see [`me_v`]).
pub fn me_from_sgr0(t: &Terminfo) -> (r: Option<Vec<u8>>)
    ensures
        r matches Some(b) ==> me_v(t@) == Some(b@),
        r is None ==> me_v(t@) is None,
{
    proof {
        reveal_strlit("sgr0");
        reveal_strlit("sgr");
        reveal_strlit("rmacs");
    }
    let sgr0 = match t.string("sgr0") {
        Some(b) => b,
        None => {
            return None;
        },
    };
    let mut copy0: Vec<u8> = Vec::new();
    push_bytes(&mut copy0, sgr0);
    let sgr = match t.string("sgr") {
        Some(b) => b,
        None => {
            return Some(copy0);
        },
    };
    let zeros: [i32; 9] = [0, 0, 0, 0, 0, 0, 0, 0, 0];
    let acs: [i32; 9] = [0, 0, 0, 0, 0, 0, 0, 0, 1];
    proof {
        assert(zeros@.map_values(|v: i32| PV::Int(v)) =~= sgr_args(0));
        assert(acs@.map_values(|v: i32| PV::Int(v)) =~= sgr_args(1));
    }
    let off = tparm_n(sgr, &zeros);
    let cons = drop_acs_for_consistency(t);
    let rm = match t.string("rmacs") {
        Some(r) => strip_pad(r),
        None => Vec::new(),
    };
    if rm.len() == 0 {
        return Some(copy0);
    }
    let on = tparm_n(sgr, &acs);
    if crate::vid::bytes_eq(off.as_slice(), on.as_slice()) {
        return Some(copy0);
    }
    match sgr_param(rm.as_slice()) {
        Some(param) => {
            proof {
                assert(param@.len() + 2 <= usize::MAX);
            }
            if sgr0_has_param(sgr0, param.as_slice()) {
                Some(remove_sgr_param(off.as_slice(), param.as_slice()))
            } else {
                Some(copy0)
            }
        },
        None => Some(me_separate(sgr0, off, &rm, cons)),
    }
}

} // verus!
