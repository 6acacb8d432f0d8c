//! What the terminfo reader gives back of an entry the `tic` writer compiled.

use vstd::prelude::*;
use crate::bytes::find_byte;
use crate::terminfo::entry::{i16_v, layout as header_layout, name_bytes, parse_v, split_bar, truncated, u16_v, utf8_lossy, Layout};
use crate::tic::{compile_v, compiled_main, layout, le16, low16, num_fields, off16, str_offs, str_tab, Slots, CapV};

verus! {

/// The slots `tic` fills for `caps` without `-x`.
pub open spec fn svr4_slots(caps: Seq<CapV>) -> Slots {
    layout(caps, caps.len() as int, 37, 33, 394)
}

proof fn lemma_grow<T>(v: Seq<T>, ix: int, fill: T)
    requires
        0 <= ix,
    ensures
        crate::tic::grow(v, ix, fill).len() == if v.len() <= ix { ix + 1 } else { v.len() as int },
        forall|i: int| 0 <= i < crate::tic::grow(v, ix, fill).len() ==> #[trigger] crate::tic::grow(v, ix, fill)[i] == if i < v.len() { v[i] } else { fill },
{
}

/// Every slot index is non-negative, as a `usize` index is.
pub open spec fn indices_ok(caps: Seq<CapV>) -> bool {
    forall|k: int| 0 <= k < caps.len() ==> match #[trigger] caps[k] {
        CapV::Bool(i) => i >= 0,
        CapV::Num(i, _) => i >= 0,
        CapV::Str(i, _) => i >= 0,
        CapV::Cancel(_, i) => i >= 0,
    }
}

proof fn lemma_slots(caps: Seq<CapV>, k: int)
    requires
        0 <= k <= caps.len(),
        indices_ok(caps),
    ensures
        layout(caps, k, 37, 33, 394).bools.len() <= 37,
        layout(caps, k, 37, 33, 394).nums.len() <= 33,
        layout(caps, k, 37, 33, 394).strs.len() <= 394,
        layout(caps, k, 37, 33, 394).strs.len() == layout(caps, k, 37, 33, 394).cancel.len(),
        forall|i: int| 0 <= i < layout(caps, k, 37, 33, 394).bools.len() ==> #[trigger] layout(caps, k, 37, 33, 394).bools[i] <= 1,
    decreases k,
{
    if k > 0 {
        lemma_slots(caps, k - 1);
        let st = layout(caps, k - 1, 37, 33, 394);
        let nx = layout(caps, k, 37, 33, 394);
        assert(nx == crate::tic::lay_cap(st, caps[k - 1], 37, 33, 394));
        assert(match caps[k - 1] {
            CapV::Bool(i) => i >= 0,
            CapV::Num(i, _) => i >= 0,
            CapV::Str(i, _) => i >= 0,
            CapV::Cancel(_, i) => i >= 0,
        });
        match caps[k - 1] {
            CapV::Bool(ix) => {
                if ix < 37 {
                    lemma_grow(st.bools, ix, 0u8);
                }
            },
            CapV::Num(ix, n) => {
                if ix < 33 {
                    lemma_grow(st.nums, ix, -1i32);
                }
            },
            CapV::Str(ix, b) => {
                if ix < 394 {
                    lemma_grow(st.strs, ix, None::<Seq<u8>>);
                    lemma_grow(st.cancel, ix, false);
                }
            },
            CapV::Cancel(is_string, ix) => {
                if is_string && ix < 394 {
                    lemma_grow(st.strs, ix, None::<Seq<u8>>);
                    lemma_grow(st.cancel, ix, false);
                } else if !is_string && ix < 33 {
                    lemma_grow(st.nums, ix, -1i32);
                }
            },
        }
    }
}

/// Decoding the two little-endian bytes of `u` gives `u`.
proof fn lemma_le16(u: u16)
    ensures
        le16(u)[0] as int + 256 * le16(u)[1] as int == u as int,
        le16(u).len() == 2,
{
}

/// The low 16 bits of a count below 65536 are the count.
proof fn lemma_low16(x: int)
    requires
        0 <= x < 65536,
    ensures
        low16(x) as int == x,
{
}

/// A 16-bit number in range reads back from its two stored bytes.
proof fn lemma_i16(v: i32)
    requires
        -32768 <= v <= 32767,
    ensures
        ({
            let b = le16((v as i16) as u16);
            let u = b[0] as int + 256 * b[1] as int;
            (if u >= 0x8000 { u - 0x10000 } else { u }) == v
        }),
{
    lemma_le16((v as i16) as u16);
    let w = (v as i16) as u16;
    assert(v < 0 ==> w as i32 == v + 0x10000) by (bit_vector)
        requires
            w == (v as i16) as u16,
            -32768 <= v <= 32767,
    ;
    assert(v >= 0 ==> w as i32 == v) by (bit_vector)
        requires
            w == (v as i16) as u16,
            -32768 <= v <= 32767,
    ;
}

/// The stored numbers: two bytes each, number `k` at `2k`.
proof fn lemma_num_fields(nums: Seq<i32>, n: int)
    requires
        0 <= n <= nums.len(),
    ensures
        num_fields(nums, n, 2).len() == 2 * n,
        forall|k: int| 0 <= k < n ==> #[trigger] num_fields(nums, n, 2).subrange(2 * k, 2 * k + 2) == le16((nums[k] as i16) as u16),
    decreases n,
{
    if n > 0 {
        lemma_num_fields(nums, n - 1);
        let a = num_fields(nums, n - 1, 2);
        let b = le16((nums[n - 1] as i16) as u16);
        assert(num_fields(nums, n, 2) == a + b);
        assert forall|k: int| 0 <= k < n implies #[trigger] num_fields(nums, n, 2).subrange(2 * k, 2 * k + 2) == le16((nums[k] as i16) as u16) by {
            if k < n - 1 {
                assert(num_fields(nums, n, 2).subrange(2 * k, 2 * k + 2) =~= a.subrange(2 * k, 2 * k + 2));
            } else {
                assert(num_fields(nums, n, 2).subrange(2 * k, 2 * k + 2) =~= b);
            }
        }
    }
}

/// What `compile_then_parse` asks of an entry: numbers in the 16-bit range, names without NUL
/// and shorter than 32767 bytes.
pub open spec fn compiles_plainly(names: Seq<char>, caps: Seq<CapV>) -> bool {
    let st = svr4_slots(caps);
    &&& indices_ok(caps)
    &&& forall|k: int| 0 <= k < st.nums.len() ==> -32768 <= #[trigger] st.nums[k] <= 32767
    &&& forall|k: int| 0 <= k < name_bytes(names).len() ==> #[trigger] name_bytes(names)[k] != 0
    &&& name_bytes(names).len() < 32767
    &&& str_tab(st.strs, st.strs.len() as int).len() < 32767
    &&& forall|k: int, j: int| 0 <= k < st.strs.len() && st.strs[k] is Some && 0 <= j < st.strs[k]->Some_0.len()
        ==> #[trigger] st.strs[k]->Some_0[j] != 0
}

/// The stored string offsets: two bytes each, slot `k` at `2k`.
proof fn lemma_str_offs(strs: Seq<Option<Seq<u8>>>, cancel: Seq<bool>, n: int)
    requires
        0 <= n <= strs.len(),
        n <= cancel.len(),
    ensures
        str_offs(strs, cancel, n).len() == 2 * n,
        forall|k: int| 0 <= k < n ==> #[trigger] str_offs(strs, cancel, n).subrange(2 * k, 2 * k + 2) == off16(
            if strs[k] is Some { str_tab(strs, k).len() as int } else if cancel[k] { -2 } else { -1 },
        ),
    decreases n,
{
    if n > 0 {
        lemma_str_offs(strs, cancel, n - 1);
        let a = str_offs(strs, cancel, n - 1);
        let b = off16(if strs[n - 1] is Some { str_tab(strs, n - 1).len() as int } else if cancel[n - 1] { -2 } else { -1 });
        assert(str_offs(strs, cancel, n) == a + b);
        assert forall|k: int| 0 <= k < n implies #[trigger] str_offs(strs, cancel, n).subrange(2 * k, 2 * k + 2) == off16(
            if strs[k] is Some { str_tab(strs, k).len() as int } else if cancel[k] { -2 } else { -1 },
        ) by {
            if k < n - 1 {
                assert(str_offs(strs, cancel, n).subrange(2 * k, 2 * k + 2) =~= a.subrange(2 * k, 2 * k + 2));
            } else {
                assert(str_offs(strs, cancel, n).subrange(2 * k, 2 * k + 2) =~= b);
            }
        }
    }
}

/// The first NUL of a name without NUL followed by a NUL is at its end.
proof fn lemma_find_nul(b: Seq<u8>)
    requires
        forall|k: int| 0 <= k < b.len() ==> #[trigger] b[k] != 0,
    ensures
        find_byte(b.push(0u8), 0) == b.len(),
    decreases b.len(),
{
    if b.len() > 0 {
        lemma_find_nul(b.drop_first());
        assert(b.push(0u8).drop_first() =~= b.drop_first().push(0u8));
    }
}

/// A header of six 16-bit fields reads back field by field.
proof fn lemma_header(d: Seq<u8>, m: u16, a: int, b: int, c: int, e: int, f: int)
    requires
        0 <= a < 65536,
        0 <= b < 65536,
        0 <= c < 65536,
        0 <= e < 65536,
        0 <= f < 65536,
        d.len() >= 12,
        d.subrange(0, 12) == le16(m) + le16(low16(a)) + le16(low16(b)) + le16(low16(c)) + le16(low16(e)) + le16(low16(f)),
    ensures
        u16_v(d, 0) == m as int,
        u16_v(d, 2) == a,
        u16_v(d, 4) == b,
        u16_v(d, 6) == c,
        u16_v(d, 8) == e,
        u16_v(d, 10) == f,
{
    let hdr = d.subrange(0, 12);
    lemma_low16(a);
    lemma_low16(b);
    lemma_low16(c);
    lemma_low16(e);
    lemma_low16(f);
    lemma_le16(m);
    lemma_le16(low16(a));
    lemma_le16(low16(b));
    lemma_le16(low16(c));
    lemma_le16(low16(e));
    lemma_le16(low16(f));
    assert(d[0] == hdr[0] && d[1] == hdr[1] && d[2] == hdr[2] && d[3] == hdr[3] && d[4] == hdr[4] && d[5] == hdr[5]);
    assert(d[6] == hdr[6] && d[7] == hdr[7] && d[8] == hdr[8] && d[9] == hdr[9] && d[10] == hdr[10] && d[11] == hdr[11]);
}

/// The string table holds each present value, NUL-terminated, at its offset.
proof fn lemma_tab_prefix(strs: Seq<Option<Seq<u8>>>, k: int, n: int)
    requires
        0 <= k < n <= strs.len(),
    ensures
        str_tab(strs, k + 1).len() <= str_tab(strs, n).len(),
        str_tab(strs, n).subrange(0, str_tab(strs, k + 1).len() as int) == str_tab(strs, k + 1),
    decreases n,
{
    if n > k + 1 {
        lemma_tab_prefix(strs, k, n - 1);
        let a = str_tab(strs, n - 1);
        assert(str_tab(strs, n).subrange(0, a.len() as int) =~= a);
        assert(str_tab(strs, n).subrange(0, str_tab(strs, k + 1).len() as int) =~= a.subrange(0, str_tab(strs, k + 1).len() as int));
    }
}

/// The first NUL after a value without NUL that is followed by a NUL is at its end.
proof fn lemma_find_nul_in(b: Seq<u8>, rest: Seq<u8>)
    requires
        forall|k: int| 0 <= k < b.len() ==> #[trigger] b[k] != 0,
    ensures
        find_byte(b.push(0u8) + rest, 0) == b.len(),
    decreases b.len(),
{
    if b.len() > 0 {
        lemma_find_nul_in(b.drop_first(), rest);
        assert((b.push(0u8) + rest).drop_first() =~= b.drop_first().push(0u8) + rest);
    } else {
        assert((b.push(0u8) + rest)[0] == 0);
    }
}

/// A stored offset reads back: `-2`, `-1`, or an offset below 32767.
proof fn lemma_off16(o: int)
    requires
        -2 <= o < 32767,
    ensures
        ({
            let b = off16(o);
            let u = b[0] as int + 256 * b[1] as int;
            (if u >= 0x8000 { u - 0x10000 } else { u }) == o
        }),
{
    lemma_i16(o as i32);
    assert((o as i32) as i16 == o as i16);
}

/// The bytes `tic` writes for an entry without `-x`.
pub open spec fn svr4_bytes(names: Seq<char>, caps: Seq<CapV>) -> Seq<u8> {
    compile_v(names, caps, seq![], false)
}

/// Reading back an entry `tic` compiled without `-x`: the reader accepts it, and gives back
/// the names (split at `|`), each boolean slot (present exactly when it was set), and each
/// numeric slot (`-1` absent, `-2` cancelled, else the value), for an entry whose numbers fit
/// 16 bits, whose names hold no NUL, and whose names and string table are shorter than 32767
/// bytes. It has no extended caps.
#[verifier::spinoff_prover]
#[verifier::rlimit(100)]
pub proof fn compile_then_parse(names: Seq<char>, caps: Seq<CapV>)
    requires
        compiles_plainly(names, caps),
    ensures
        parse_v(svr4_bytes(names, caps)) is Ok,
        parse_v(svr4_bytes(names, caps))->Ok_0.names == split_bar(name_bytes(names)).map_values(|b: Seq<u8>| utf8_lossy(b)),
        parse_v(svr4_bytes(names, caps))->Ok_0.booleans == svr4_slots(caps).bools.map_values(|b: u8| b == 1),
        parse_v(svr4_bytes(names, caps))->Ok_0.numbers == svr4_slots(caps).nums,
        parse_v(svr4_bytes(names, caps))->Ok_0.strings == svr4_slots(caps).strs,
        parse_v(svr4_bytes(names, caps))->Ok_0.str_cancelled == Seq::new(
            svr4_slots(caps).strs.len(),
            |k: int| svr4_slots(caps).strs[k] is None && svr4_slots(caps).cancel[k],
        ),
        parse_v(svr4_bytes(names, caps))->Ok_0.ext_bools.len() == 0,
        parse_v(svr4_bytes(names, caps))->Ok_0.ext_nums.len() == 0,
        parse_v(svr4_bytes(names, caps))->Ok_0.ext_strings.len() == 0,
{
    let st = svr4_slots(caps);
    lemma_slots(caps, caps.len() as int);
    assert(!crate::tic::need_32(st.nums, seq![]));
    let nb = name_bytes(names).push(0u8);
    let ns = st.strs.len() as int;
    let tab = str_tab(st.strs, ns);
    let pad: Seq<u8> = if (nb.len() + st.bools.len()) % 2 == 1 { seq![0u8] } else { seq![] };
    let nf = num_fields(st.nums, st.nums.len() as int, 2);
    let so = str_offs(st.strs, st.cancel, ns);
    lemma_num_fields(st.nums, st.nums.len() as int);
    lemma_str_offs(st.strs, st.cancel, ns);
    let h0 = le16(0o432u16);
    let h1 = le16(low16(nb.len() as int));
    let h2 = le16(low16(st.bools.len() as int));
    let h3 = le16(low16(st.nums.len() as int));
    let h4 = le16(low16(ns));
    let h5 = le16(low16(tab.len() as int));
    let d = svr4_bytes(names, caps);
    let hdr = h0 + h1 + h2 + h3 + h4 + h5;
    let body = nb + st.bools + pad + nf + so + tab;
    assert(d =~= hdr + body);
    assert(d.subrange(0, 12) =~= hdr);
    lemma_header(d, 0o432u16, nb.len() as int, st.bools.len() as int, st.nums.len() as int, ns, tab.len() as int);
    let l = header_layout(d);
    assert(l.w == 2);
    assert(l.names_end == 12 + nb.len());
    assert(l.num_off == 12 + nb.len() + st.bools.len() + pad.len());
    assert(l.tab_end == d.len());
    assert(!truncated(d, l));
    let p = parse_v(d);
    assert(p is Ok);
    let t = p->Ok_0;
    // names
    let raw = d.subrange(12, l.names_end);
    assert(raw =~= nb);
    lemma_find_nul(name_bytes(names));
    assert(raw.take(find_byte(raw, 0) as int) =~= name_bytes(names));
    // booleans
    assert(t.booleans =~= st.bools.map_values(|b: u8| b == 1)) by {
        assert forall|k: int| 0 <= k < st.bools.len() implies d[l.names_end + k] == st.bools[k] by {
            assert(d[12 + nb.len() + k] == st.bools[k]);
        }
    }
    // numbers
    assert(t.numbers =~= st.nums) by {
        assert forall|k: int| 0 <= k < st.nums.len() implies #[trigger] t.numbers[k] == st.nums[k] by {
            let at = l.num_off + 2 * k;
            assert(nf.subrange(2 * k, 2 * k + 2) == le16((st.nums[k] as i16) as u16));
            assert(d[at] == nf[2 * k] && d[at + 1] == nf[2 * k + 1]);
            lemma_i16(st.nums[k]);
        }
    }
    assert(d.subrange(l.str_off, l.tab_off) =~= so);
    assert(d.subrange(l.tab_off, l.tab_end) =~= tab);
    strings_read_back(d, l, st, nb, pad, nf, so, tab);
}

proof fn string_slot(d: Seq<u8>, l: Layout, st: Slots, so: Seq<u8>, tab: Seq<u8>, k: int)
    requires
        0 <= k < st.strs.len(),
        st.strs.len() == st.cancel.len(),
        tab == str_tab(st.strs, st.strs.len() as int),
        tab.len() < 32767,
        so.len() == 2 * st.strs.len(),
        forall|k: int| 0 <= k < st.strs.len() ==> #[trigger] so.subrange(2 * k, 2 * k + 2) == off16(
            if st.strs[k] is Some { str_tab(st.strs, k).len() as int } else if st.cancel[k] { -2 } else { -1 },
        ),
        forall|k: int, j: int| 0 <= k < st.strs.len() && st.strs[k] is Some && 0 <= j < st.strs[k]->Some_0.len()
            ==> #[trigger] st.strs[k]->Some_0[j] != 0,
        l.str_off + so.len() == l.tab_off,
        0 <= l.str_off,
        l.tab_off <= d.len(),
        d.subrange(l.str_off, l.tab_off) == so,
    ensures
        (crate::terminfo::entry::str_offset(d, l, k) == -2) == (st.strs[k] is None && st.cancel[k]),
        (if crate::terminfo::entry::str_offset(d, l, k) < 0 { None } else { crate::terminfo::entry::read_v(tab, crate::terminfo::entry::str_offset(d, l, k)) }) == st.strs[k],
{
    let want = if st.strs[k] is Some { str_tab(st.strs, k).len() as int } else if st.cancel[k] { -2 } else { -1 };
    if st.strs[k] is Some {
        lemma_tab_prefix(st.strs, k, st.strs.len() as int);
    }
    assert(want < 32767);
    lemma_off16(want);
    let at = l.str_off + 2 * k;
    assert(d[at] == so[2 * k] && d[at + 1] == so[2 * k + 1]);
    assert(so.subrange(2 * k, 2 * k + 2)[0] == so[2 * k]);
    assert(so.subrange(2 * k, 2 * k + 2)[1] == so[2 * k + 1]);
    let o = crate::terminfo::entry::str_offset(d, l, k);
    assert(o == want);
    if st.strs[k] is Some {
        let v = st.strs[k]->Some_0;
        let pre = str_tab(st.strs, k);
        let upto = str_tab(st.strs, k + 1);
        assert(upto == pre + v.push(0u8));
        let rest = tab.skip(upto.len() as int);
        let tp = tab.subrange(0, upto.len() as int);
        assert(tp == upto);
        assert(tab.skip(pre.len() as int).len() == (v.push(0u8) + rest).len());
        assert forall|i: int| 0 <= i < tab.skip(pre.len() as int).len() implies #[trigger] tab.skip(pre.len() as int)[i] == (v.push(0u8) + rest)[i] by {
            if i < v.len() + 1 {
                assert(tab[pre.len() + i] == tp[pre.len() + i]);
                assert(upto[pre.len() + i] == v.push(0u8)[i]);
            }
        }
        assert(tab.skip(pre.len() as int) =~= v.push(0u8) + rest);
        assert forall|j: int| 0 <= j < v.len() implies #[trigger] v[j] != 0 by {
            assert(st.strs[k]->Some_0[j] != 0);
        }
        lemma_find_nul_in(v, rest);
        assert(crate::terminfo::entry::cstr(tab, o) =~= v);
    }
}

#[verifier::spinoff_prover]
#[verifier::rlimit(100)]
proof fn strings_read_back(d: Seq<u8>, l: Layout, st: Slots, nb: Seq<u8>, pad: Seq<u8>, nf: Seq<u8>, so: Seq<u8>, tab: Seq<u8>)
    requires
        st.strs.len() == st.cancel.len(),
        tab == str_tab(st.strs, st.strs.len() as int),
        tab.len() < 32767,
        so == str_offs(st.strs, st.cancel, st.strs.len() as int),
        so.len() == 2 * st.strs.len(),
        forall|k: int| 0 <= k < st.strs.len() ==> #[trigger] so.subrange(2 * k, 2 * k + 2) == off16(
            if st.strs[k] is Some { str_tab(st.strs, k).len() as int } else if st.cancel[k] { -2 } else { -1 },
        ),
        forall|k: int, j: int| 0 <= k < st.strs.len() && st.strs[k] is Some && 0 <= j < st.strs[k]->Some_0.len()
            ==> #[trigger] st.strs[k]->Some_0[j] != 0,
        l.str_off + so.len() == l.tab_off,
        l.tab_end == l.tab_off + tab.len(),
        l.nstr == st.strs.len(),
        0 <= l.str_off,
        d.len() == l.tab_end,
        d.subrange(l.str_off, l.tab_off) == so,
        d.subrange(l.tab_off, l.tab_end) == tab,
    ensures
        Seq::new(
            l.nstr as nat,
            |k: int| if crate::terminfo::entry::str_offset(d, l, k) < 0 { None } else { crate::terminfo::entry::read_v(tab, crate::terminfo::entry::str_offset(d, l, k)) },
        ) == st.strs,
        Seq::new(l.nstr as nat, |k: int| crate::terminfo::entry::str_offset(d, l, k) == -2) == Seq::new(
            st.strs.len(),
            |k: int| st.strs[k] is None && st.cancel[k],
        ),
{
    assert forall|k: int| 0 <= k < st.strs.len() implies
        ((#[trigger] crate::terminfo::entry::str_offset(d, l, k) == -2) == (st.strs[k] is None && st.cancel[k])
        && (if crate::terminfo::entry::str_offset(d, l, k) < 0 { None } else { crate::terminfo::entry::read_v(tab, crate::terminfo::entry::str_offset(d, l, k)) }) == st.strs[k]) by {
        string_slot(d, l, st, so, tab, k);
    }
    assert(Seq::new(
        l.nstr as nat,
        |k: int| if crate::terminfo::entry::str_offset(d, l, k) < 0 { None } else { crate::terminfo::entry::read_v(tab, crate::terminfo::entry::str_offset(d, l, k)) },
    ) =~= st.strs);
    assert(Seq::new(l.nstr as nat, |k: int| crate::terminfo::entry::str_offset(d, l, k) == -2) =~= Seq::new(
        st.strs.len(),
        |k: int| st.strs[k] is None && st.cancel[k],
    ));
}

} // verus!
