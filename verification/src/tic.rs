//! The `tic` compiled-entry writer: a parsed source entry laid out in the binary terminfo
//! format (little-endian 16-bit header and offsets, 16- or 32-bit numbers), with the extended
//! (user-defined) section of `tic -x`.

use vstd::prelude::*;
use crate::fmt::push_bytes;
use crate::terminfo::entry::name_bytes;
use vstd::string::StringSliceAdditionalSpecFns;

verus! {

/// An extended (user-defined) capability of a source entry.
#[derive(Debug, Clone, PartialEq, Eq)]
pub enum ExtCap {
    /// A boolean, present (true).
    Bool(String),
    /// A number.
    Num(String, i32),
    /// A string, `None` when cancelled (`name@`).
    Str(String, Option<Vec<u8>>),
}

/// The model of an [`ExtCap`].
pub enum ExtCapV {
    Bool(Seq<char>),
    Num(Seq<char>, i32),
    Str(Seq<char>, Option<Seq<u8>>),
}

impl View for ExtCap {
    type V = ExtCapV;

    open spec fn view(&self) -> ExtCapV {
        match self {
            ExtCap::Bool(n) => ExtCapV::Bool(n@),
            ExtCap::Num(n, v) => ExtCapV::Num(n@, *v),
            ExtCap::Str(n, v) => ExtCapV::Str(
                n@,
                match v {
                    Some(b) => Some(b@),
                    None => None,
                },
            ),
        }
    }
}

/// The models of a list of extended capabilities.
pub open spec fn exts_v(e: Seq<ExtCap>) -> Seq<ExtCapV> {
    e.map_values(|x: ExtCap| x@)
}

/// The two little-endian bytes of `v`.
pub open spec fn le16(v: u16) -> Seq<u8> {
    seq![(v % 256) as u8, (v / 256) as u8]
}

/// The four little-endian bytes of `v`.
pub open spec fn le32(v: u32) -> Seq<u8> {
    seq![(v % 256) as u8, ((v / 256) % 256) as u8, ((v / 65536) % 256) as u8, (v / 16777216) as u8]
}

/// The low 16 bits of a count, as a 16-bit header field stores it.
pub open spec fn low16(x: int) -> u16 {
    (x % 65536) as u16
}

/// A 16-bit offset as stored: its two's-complement little-endian bytes.
pub open spec fn off16(o: int) -> Seq<u8> {
    le16((o as i16) as u16)
}

/// A number as stored in a `w`-byte field: 16-bit (truncated) when `w` is 2, else 32-bit.
pub open spec fn num_bytes(n: i32, w: int) -> Seq<u8> {
    if w == 2 { le16((n as i16) as u16) } else { le32(n as u32) }
}

/// The names of the extended booleans among the first `k` caps, in order.
pub open spec fn bool_names(e: Seq<ExtCapV>, k: int) -> Seq<Seq<char>>
    decreases k,
{
    if k <= 0 {
        seq![]
    } else {
        bool_names(e, k - 1) + match e[k - 1] {
            ExtCapV::Bool(n) => seq![n],
            _ => seq![],
        }
    }
}

/// The extended numbers among the first `k` caps, in order.
pub open spec fn num_caps(e: Seq<ExtCapV>, k: int) -> Seq<(Seq<char>, i32)>
    decreases k,
{
    if k <= 0 {
        seq![]
    } else {
        num_caps(e, k - 1) + match e[k - 1] {
            ExtCapV::Num(n, v) => seq![(n, v)],
            _ => seq![],
        }
    }
}

/// The extended strings among the first `k` caps, in order.
pub open spec fn str_caps(e: Seq<ExtCapV>, k: int) -> Seq<(Seq<char>, Option<Seq<u8>>)>
    decreases k,
{
    if k <= 0 {
        seq![]
    } else {
        str_caps(e, k - 1) + match e[k - 1] {
            ExtCapV::Str(n, v) => seq![(n, v)],
            _ => seq![],
        }
    }
}

/// The stored numbers of `nums`, each in a `w`-byte field.
pub open spec fn nums_bytes(nums: Seq<(Seq<char>, i32)>, w: int) -> Seq<u8>
    decreases nums.len(),
{
    if nums.len() == 0 {
        seq![]
    } else {
        nums_bytes(nums.drop_last(), w) + num_bytes(nums.last().1, w)
    }
}

/// The value table of `strs`: each present value followed by a NUL; cancelled ones add nothing.
pub open spec fn value_tab(strs: Seq<(Seq<char>, Option<Seq<u8>>)>) -> Seq<u8>
    decreases strs.len(),
{
    if strs.len() == 0 {
        seq![]
    } else {
        value_tab(strs.drop_last()) + match strs.last().1 {
            Some(b) => b.push(0u8),
            None => seq![],
        }
    }
}

/// The stored value offsets of `strs`: where each present value starts in the value table,
/// `-2` for a cancelled one.
pub open spec fn value_offs(strs: Seq<(Seq<char>, Option<Seq<u8>>)>) -> Seq<u8>
    decreases strs.len(),
{
    if strs.len() == 0 {
        seq![]
    } else {
        value_offs(strs.drop_last()) + match strs.last().1 {
            Some(b) => off16(value_tab(strs.drop_last()).len() as int),
            None => off16(-2),
        }
    }
}

/// How many of `strs` have a value.
pub open spec fn present_count(strs: Seq<(Seq<char>, Option<Seq<u8>>)>) -> int
    decreases strs.len(),
{
    if strs.len() == 0 {
        0
    } else {
        present_count(strs.drop_last()) + if strs.last().1 is Some { 1int } else { 0int }
    }
}

/// The name table of `names`: each name's UTF-8 bytes followed by a NUL.
pub open spec fn name_tab(names: Seq<Seq<char>>) -> Seq<u8>
    decreases names.len(),
{
    if names.len() == 0 {
        seq![]
    } else {
        name_tab(names.drop_last()) + name_bytes(names.last()).push(0u8)
    }
}

/// The stored name offsets of `names`, counted from `base`.
pub open spec fn name_offs(names: Seq<Seq<char>>, base: int) -> Seq<u8>
    decreases names.len(),
{
    if names.len() == 0 {
        seq![]
    } else {
        name_offs(names.drop_last(), base) + off16(base + name_tab(names.drop_last()).len())
    }
}

/// Every extended cap's name, in section order: booleans, numbers, strings.
pub open spec fn ext_names(e: Seq<ExtCapV>) -> Seq<Seq<char>> {
    bool_names(e, e.len() as int) + num_caps(e, e.len() as int).map_values(|p: (Seq<char>, i32)| p.0)
        + str_caps(e, e.len() as int).map_values(|p: (Seq<char>, Option<Seq<u8>>)| p.0)
}

/// The header of the extended section: `[booleans, numbers, strings, string count, string
/// table size]`, each as 16 little-endian bits.
pub open spec fn ext_header(e: Seq<ExtCapV>) -> Seq<u8> {
    let k = e.len() as int;
    let bn = bool_names(e, k);
    let nc = num_caps(e, k);
    let sc = str_caps(e, k);
    le16(low16(bn.len() as int)) + le16(low16(nc.len() as int)) + le16(low16(sc.len() as int)) + le16(
        low16(present_count(sc) + bn.len() + nc.len() + sc.len()),
    ) + le16(low16((value_tab(sc).len() + name_tab(ext_names(e)).len()) as int))
}

/// The rest of the extended section: the booleans (all true, padded to even), the numbers in
/// `w`-byte fields, the value offsets, the name offsets, the value table and the name table.
pub open spec fn ext_body(e: Seq<ExtCapV>, w: int) -> Seq<u8> {
    let k = e.len() as int;
    let bn = bool_names(e, k);
    let sc = str_caps(e, k);
    Seq::new(bn.len(), |i: int| 1u8) + (if bn.len() % 2 == 1 { seq![0u8] } else { seq![] }) + nums_bytes(
        num_caps(e, k),
        w,
    ) + value_offs(sc) + name_offs(ext_names(e), 0) + value_tab(sc) + name_tab(ext_names(e))
}

/// The extended section written after `len` bytes of entry: a pad byte to an even offset, the
/// header, and the body.
pub open spec fn ext_section(e: Seq<ExtCapV>, w: int, len: int) -> Seq<u8> {
    (if len % 2 == 1 { seq![0u8] } else { seq![] }) + ext_header(e) + ext_body(e, w)
}

/// Append `v` as two little-endian bytes.
fn push_le16(out: &mut Vec<u8>, v: u16)
    ensures
        final(out)@ == old(out)@ + le16(v),
{
    out.push((v % 256) as u8);
    out.push((v / 256) as u8);
    assert(final(out)@ =~= old(out)@ + le16(v));
}

/// Append `v` as four little-endian bytes.
fn push_le32(out: &mut Vec<u8>, v: u32)
    ensures
        final(out)@ == old(out)@ + le32(v),
{
    out.push((v % 256) as u8);
    out.push(((v / 256) % 256) as u8);
    out.push(((v / 65536) % 256) as u8);
    out.push((v / 16777216) as u8);
    assert(final(out)@ =~= old(out)@ + le32(v));
}

/// Append five 16-bit header fields.
fn push_header(out: &mut Vec<u8>, a: u16, b: u16, c: u16, d: u16, f: u16)
    ensures
        final(out)@ == old(out)@ + le16(a) + le16(b) + le16(c) + le16(d) + le16(f),
{
    push_le16(out, a);
    push_le16(out, b);
    push_le16(out, c);
    push_le16(out, d);
    push_le16(out, f);
}

proof fn lemma_prefix_step(e: Seq<ExtCapV>, k: int)
    requires
        0 < k,
    ensures
        bool_names(e, k) == bool_names(e, k - 1) + match e[k - 1] {
            ExtCapV::Bool(n) => seq![n],
            _ => seq![],
        },
        num_caps(e, k) == num_caps(e, k - 1) + match e[k - 1] {
            ExtCapV::Num(n, v) => seq![(n, v)],
            _ => seq![],
        },
        str_caps(e, k) == str_caps(e, k - 1) + match e[k - 1] {
            ExtCapV::Str(n, v) => seq![(n, v)],
            _ => seq![],
        },
{
}

proof fn lemma_name_tab_add(a: Seq<Seq<char>>, b: Seq<Seq<char>>, base: int)
    ensures
        name_tab(a + b) == name_tab(a) + name_tab(b),
        name_offs(a + b, base) == name_offs(a, base) + name_offs(b, base + name_tab(a).len()),
    decreases b.len(),
{
    if b.len() == 0 {
        assert(a + b =~= a);
        assert(name_tab(b) =~= Seq::<u8>::empty());
        assert(name_offs(b, base + name_tab(a).len()) =~= Seq::<u8>::empty());
        assert(name_tab(a) + name_tab(b) =~= name_tab(a));
        assert(name_offs(a, base) + name_offs(b, base + name_tab(a).len()) =~= name_offs(a, base));
    } else {
        lemma_name_tab_add(a, b.drop_last(), base);
        assert((a + b).drop_last() =~= a + b.drop_last());
        assert((a + b).last() == b.last());
        assert(name_tab(a + b) =~= name_tab(a) + name_tab(b));
        assert(name_offs(a + b, base) =~= name_offs(a, base) + name_offs(b, base + name_tab(a).len()));
    }
}

/// Append one name to the name table and its offset to the offset list.
fn push_name(tab: &mut Vec<u8>, offs: &mut Vec<u8>, name: &String, Ghost(names): Ghost<Seq<Seq<char>>>)
    requires
        old(tab)@ == name_tab(names),
        old(offs)@ == name_offs(names, 0),
    ensures
        final(tab)@ == name_tab(names.push(name@)),
        final(offs)@ == name_offs(names.push(name@), 0),
{
    let o = tab.len() as i16;
    push_le16(offs, o as u16);
    let b = name.as_str().as_bytes();
    push_bytes(tab, b);
    tab.push(0);
    proof {
        assert(b@ == name_bytes(name@));
        assert(names.push(name@).drop_last() =~= names);
        assert(final(tab)@ =~= name_tab(names.push(name@)));
        assert(final(offs)@ =~= name_offs(names.push(name@), 0));
    }
}

/// The counts, stored numbers, value table and value offsets of the extended caps `ext`:
/// `(booleans, numbers, strings, present values, numbers, value table, value offsets)`.
fn value_parts(ext: &[ExtCap], num_width: usize) -> (r: (usize, usize, usize, usize, Vec<u8>, Vec<u8>, Vec<u8>))
    requires
        ext@.len() <= isize::MAX,
    ensures
        ({
            let e = exts_v(ext@);
            let k = e.len() as int;
            &&& r.0 == bool_names(e, k).len()
            &&& r.1 == num_caps(e, k).len()
            &&& r.2 == str_caps(e, k).len()
            &&& r.3 == present_count(str_caps(e, k))
            &&& r.3 <= r.2
            &&& r.0 + r.1 + r.2 <= k
            &&& r.4@ == nums_bytes(num_caps(e, k), num_width as int)
            &&& r.5@ == value_tab(str_caps(e, k))
            &&& r.6@ == value_offs(str_caps(e, k))
        }),
{
    let ghost e = exts_v(ext@);
    let mut eb: usize = 0;
    let mut en: usize = 0;
    let mut es: usize = 0;
    let mut present: usize = 0;
    let mut nums: Vec<u8> = Vec::new();
    let mut vtab: Vec<u8> = Vec::new();
    let mut voffs: Vec<u8> = Vec::new();
    let mut k: usize = 0;
    while k < ext.len()
        invariant
            k <= ext@.len(),
            e == exts_v(ext@),
            eb == bool_names(e, k as int).len(),
            en == num_caps(e, k as int).len(),
            es == str_caps(e, k as int).len(),
            present == present_count(str_caps(e, k as int)),
            present <= es,
            eb + en + es <= k,
            nums@ == nums_bytes(num_caps(e, k as int), num_width as int),
            vtab@ == value_tab(str_caps(e, k as int)),
            voffs@ == value_offs(str_caps(e, k as int)),
        decreases ext@.len() - k,
    {
        proof {
            lemma_prefix_step(e, k + 1);
            assert(e[k as int] == ext@[k as int]@);
        }
        match &ext[k] {
            ExtCap::Bool(_) => {
                eb = eb + 1;
            },
            ExtCap::Num(n, v) => {
                if num_width == 2 {
                    push_le16(&mut nums, (*v as i16) as u16);
                } else {
                    push_le32(&mut nums, *v as u32);
                }
                en = en + 1;
                proof {
                    let nc = num_caps(e, k + 1);
                    assert(nc.drop_last() =~= num_caps(e, k as int));
                }
            },
            ExtCap::Str(n, v) => {
                let ghost sc = str_caps(e, k + 1);
                proof {
                    assert(sc.drop_last() =~= str_caps(e, k as int));
                }
                match v {
                    Some(b) => {
                        let o = vtab.len() as i16;
                        push_le16(&mut voffs, o as u16);
                        push_bytes(&mut vtab, b.as_slice());
                        vtab.push(0);
                        present = present + 1;
                        proof {
                            assert(vtab@ =~= value_tab(sc));
                        }
                    },
                    None => {
                        push_le16(&mut voffs, (-2i16) as u16);
                    },
                }
                es = es + 1;
            },
        }
        k = k + 1;
    }
    (eb, en, es, present, nums, vtab, voffs)
}

/// The name table and name offsets of the extended caps `ext`, in section order.
fn name_parts(ext: &[ExtCap]) -> (r: (Vec<u8>, Vec<u8>))
    ensures
        r.0@ == name_tab(ext_names(exts_v(ext@))),
        r.1@ == name_offs(ext_names(exts_v(ext@)), 0),
{
    let ghost e = exts_v(ext@);
    let mut ntab: Vec<u8> = Vec::new();
    let mut noffs: Vec<u8> = Vec::new();
    let ghost bn = bool_names(e, e.len() as int);
    let ghost nn = num_caps(e, e.len() as int).map_values(|p: (Seq<char>, i32)| p.0);
    let ghost sn = str_caps(e, e.len() as int).map_values(|p: (Seq<char>, Option<Seq<u8>>)| p.0);
    let ghost done: Seq<Seq<char>> = seq![];
    let mut pass: u8 = 0;
    while pass < 3
        invariant
            pass <= 3,
            e == exts_v(ext@),
            bn == bool_names(e, e.len() as int),
            nn == num_caps(e, e.len() as int).map_values(|p: (Seq<char>, i32)| p.0),
            sn == str_caps(e, e.len() as int).map_values(|p: (Seq<char>, Option<Seq<u8>>)| p.0),
            done == (if pass == 0 { seq![] } else if pass == 1 { bn } else if pass == 2 { bn + nn } else { bn + nn + sn }),
            ntab@ == name_tab(done),
            noffs@ == name_offs(done, 0),
        decreases 3 - pass,
    {
        let ghost want = if pass == 0 { bn } else if pass == 1 { nn } else { sn };
        let ghost got: Seq<Seq<char>> = seq![];
        let mut j: usize = 0;
        while j < ext.len()
            invariant
                j <= ext@.len(),
                pass < 3,
                e == exts_v(ext@),
                want == (if pass == 0 { bool_names(e, e.len() as int) } else if pass == 1 {
                    num_caps(e, e.len() as int).map_values(|p: (Seq<char>, i32)| p.0)
                } else {
                    str_caps(e, e.len() as int).map_values(|p: (Seq<char>, Option<Seq<u8>>)| p.0)
                }),
                got == (if pass == 0 { bool_names(e, j as int) } else if pass == 1 {
                    num_caps(e, j as int).map_values(|p: (Seq<char>, i32)| p.0)
                } else {
                    str_caps(e, j as int).map_values(|p: (Seq<char>, Option<Seq<u8>>)| p.0)
                }),
                ntab@ == name_tab(done + got),
                noffs@ == name_offs(done + got, 0),
            decreases ext@.len() - j,
        {
            proof {
                lemma_prefix_step(e, j + 1);
                assert(e[j as int] == ext@[j as int]@);
            }
            let ghost before = got;
            match &ext[j] {
                ExtCap::Bool(n) => {
                    if pass == 0 {
                        push_name(&mut ntab, &mut noffs, n, Ghost(done + got));
                        proof {
                            got = got.push(n@);
                            assert(done + before.push(n@) =~= (done + before).push(n@));
                        }
                    }
                },
                ExtCap::Num(n, _) => {
                    if pass == 1 {
                        push_name(&mut ntab, &mut noffs, n, Ghost(done + got));
                        proof {
                            got = got.push(n@);
                            assert(done + before.push(n@) =~= (done + before).push(n@));
                        }
                    }
                },
                ExtCap::Str(n, _) => {
                    if pass == 2 {
                        push_name(&mut ntab, &mut noffs, n, Ghost(done + got));
                        proof {
                            got = got.push(n@);
                            assert(done + before.push(n@) =~= (done + before).push(n@));
                        }
                    }
                },
            }
            proof {
                if pass == 0 {
                    assert(got =~= bool_names(e, j + 1));
                } else if pass == 1 {
                    assert(got =~= num_caps(e, j + 1).map_values(|p: (Seq<char>, i32)| p.0));
                } else {
                    assert(got =~= str_caps(e, j + 1).map_values(|p: (Seq<char>, Option<Seq<u8>>)| p.0));
                }
            }
            j = j + 1;
        }
        proof {
            assert(got == want);
            done = done + got;
        }
        pass = pass + 1;
    }
    proof {
        assert(done =~= ext_names(e));
    }
    (ntab, noffs)
}

/// Append the extended header of `e`, given its counts and table sizes.
fn push_ext_header(
    out: &mut Vec<u8>,
    eb: usize,
    en: usize,
    es: usize,
    present: usize,
    vlen: usize,
    nlen: usize,
    Ghost(e): Ghost<Seq<ExtCapV>>,
)
    requires
        eb == bool_names(e, e.len() as int).len(),
        en == num_caps(e, e.len() as int).len(),
        es == str_caps(e, e.len() as int).len(),
        present == present_count(str_caps(e, e.len() as int)),
        present <= es,
        eb + en + es <= isize::MAX,
        vlen == value_tab(str_caps(e, e.len() as int)).len(),
        nlen == name_tab(ext_names(e)).len(),
    ensures
        final(out)@ == old(out)@ + ext_header(e),
{
    let tot = present + eb + en + es;
    let vl = vlen % 65536;
    let nl = nlen % 65536;
    proof {
        vstd::arithmetic::div_mod::lemma_add_mod_noop(vlen as int, nlen as int, 65536);
    }
    push_header(
        out,
        (eb % 65536) as u16,
        (en % 65536) as u16,
        (es % 65536) as u16,
        (tot % 65536) as u16,
        ((vl + nl) % 65536) as u16,
    );
}

/// Append the extended body of `e`, given its parts.
fn push_ext_body(
    out: &mut Vec<u8>,
    eb: usize,
    nums: &Vec<u8>,
    voffs: &Vec<u8>,
    noffs: &Vec<u8>,
    vtab: &Vec<u8>,
    ntab: &Vec<u8>,
    Ghost(e): Ghost<Seq<ExtCapV>>,
    Ghost(w): Ghost<int>,
)
    requires
        eb == bool_names(e, e.len() as int).len(),
        nums@ == nums_bytes(num_caps(e, e.len() as int), w),
        vtab@ == value_tab(str_caps(e, e.len() as int)),
        voffs@ == value_offs(str_caps(e, e.len() as int)),
        ntab@ == name_tab(ext_names(e)),
        noffs@ == name_offs(ext_names(e), 0),
    ensures
        final(out)@ == old(out)@ + ext_body(e, w),
{
    let ghost o1 = out@;
    let mut b: usize = 0;
    while b < eb
        invariant
            b <= eb,
            out@ == o1 + Seq::new(b as nat, |i: int| 1u8),
        decreases eb - b,
    {
        out.push(1);
        b = b + 1;
        assert(out@ =~= o1 + Seq::new(b as nat, |i: int| 1u8));
    }
    if eb % 2 == 1 {
        out.push(0);
    }
    push_bytes(out, nums.as_slice());
    push_bytes(out, voffs.as_slice());
    push_bytes(out, noffs.as_slice());
    push_bytes(out, vtab.as_slice());
    push_bytes(out, ntab.as_slice());
    assert(out@ =~= o1 + ext_body(e, w));
}

/// Append the extended section of `ext` to `out` (see [`ext_section`]), numbers in
/// `num_width`-byte fields.
pub fn append_extended(out: &mut Vec<u8>, ext: &[ExtCap], num_width: usize)
    requires
        ext@.len() <= isize::MAX,
    ensures
        final(out)@ == old(out)@ + ext_section(exts_v(ext@), num_width as int, old(out)@.len() as int),
{
    let ghost e = exts_v(ext@);
    let ghost out0 = out@;
    let (eb, en, es, present, nums, vtab, voffs) = value_parts(ext, num_width);
    let (ntab, noffs) = name_parts(ext);
    if out.len() % 2 == 1 {
        out.push(0);
    }
    let ghost pre = out@;
    push_ext_header(out, eb, en, es, present, vtab.len(), ntab.len(), Ghost(e));
    push_ext_body(out, eb, &nums, &voffs, &noffs, &vtab, &ntab, Ghost(e), Ghost(num_width as int));
    assert(out@ =~= out0 + ext_section(e, num_width as int, out0.len() as int));
}

/// A predefined capability of a source entry, by its index in the capability tables.
#[derive(Debug, Clone, PartialEq, Eq)]
pub enum Cap {
    /// A boolean, present.
    Bool(usize),
    /// A number.
    Num(usize, i32),
    /// A string, its bytes already unescaped.
    Str(usize, Vec<u8>),
    /// A cancelled (`name@`) string or number.
    Cancel { is_string: bool, index: usize },
}

/// The model of a [`Cap`].
pub enum CapV {
    Bool(int),
    Num(int, i32),
    Str(int, Seq<u8>),
    Cancel(bool, int),
}

impl View for Cap {
    type V = CapV;

    open spec fn view(&self) -> CapV {
        match self {
            Cap::Bool(i) => CapV::Bool(*i as int),
            Cap::Num(i, n) => CapV::Num(*i as int, *n),
            Cap::Str(i, b) => CapV::Str(*i as int, b@),
            Cap::Cancel { is_string, index } => CapV::Cancel(*is_string, *index as int),
        }
    }
}

/// A parsed source entry: its `|`-joined names, its predefined caps in source order, and its
/// extended caps.
#[derive(Debug, Clone, PartialEq, Eq)]
pub struct Entry {
    pub names: String,
    pub caps: Vec<Cap>,
    pub ext: Vec<ExtCap>,
}

/// The capability slots of an entry being compiled: booleans (1 present, 0 absent), numbers
/// (-1 absent, -2 cancelled), strings, and which strings are cancelled.
pub struct Slots {
    pub bools: Seq<u8>,
    pub nums: Seq<i32>,
    pub strs: Seq<Option<Seq<u8>>>,
    pub cancel: Seq<bool>,
}

/// `v` grown with `fill` to hold index `ix`.
pub open spec fn grow<T>(v: Seq<T>, ix: int, fill: T) -> Seq<T> {
    if v.len() <= ix { v + Seq::new((ix + 1 - v.len()) as nat, |i: int| fill) } else { v }
}

/// One cap laid into the slots; caps at or above the cutoffs `(cb, cn, cs)` are dropped. A
/// later cap of the same slot overrides an earlier one.
pub open spec fn lay_cap(st: Slots, c: CapV, cb: int, cn: int, cs: int) -> Slots {
    match c {
        CapV::Bool(ix) => if ix < cb { Slots { bools: grow(st.bools, ix, 0u8).update(ix, 1u8), ..st } } else { st },
        CapV::Num(ix, n) => if ix < cn { Slots { nums: grow(st.nums, ix, -1i32).update(ix, n), ..st } } else { st },
        CapV::Str(ix, b) => if ix < cs {
            Slots {
                strs: grow(st.strs, ix, None::<Seq<u8>>).update(ix, Some(b)),
                cancel: grow(st.cancel, ix, false),
                ..st
            }
        } else {
            st
        },
        CapV::Cancel(is_string, ix) => if is_string && ix < cs {
            Slots {
                strs: grow(st.strs, ix, None::<Seq<u8>>),
                cancel: grow(st.cancel, ix, false).update(ix, true),
                ..st
            }
        } else if !is_string && ix < cn {
            Slots { nums: grow(st.nums, ix, -1i32).update(ix, -2i32), ..st }
        } else {
            st
        },
    }
}

/// The slots after the first `k` caps.
pub open spec fn layout(caps: Seq<CapV>, k: int, cb: int, cn: int, cs: int) -> Slots
    decreases k,
{
    if k <= 0 {
        Slots { bools: seq![], nums: seq![], strs: seq![], cancel: seq![] }
    } else {
        lay_cap(layout(caps, k - 1, cb, cn, cs), caps[k - 1], cb, cn, cs)
    }
}

/// The string table of the first `n` string slots: each present value followed by a NUL.
pub open spec fn str_tab(strs: Seq<Option<Seq<u8>>>, n: int) -> Seq<u8>
    decreases n,
{
    if n <= 0 {
        seq![]
    } else {
        str_tab(strs, n - 1) + match strs[n - 1] {
            Some(b) => b.push(0u8),
            None => seq![],
        }
    }
}

/// The stored offsets of the first `n` string slots: where a present value starts in the
/// string table, `-2` for a cancelled one, `-1` for an absent one.
pub open spec fn str_offs(strs: Seq<Option<Seq<u8>>>, cancel: Seq<bool>, n: int) -> Seq<u8>
    decreases n,
{
    if n <= 0 {
        seq![]
    } else {
        str_offs(strs, cancel, n - 1) + off16(
            if strs[n - 1] is Some { str_tab(strs, n - 1).len() as int } else if cancel[n - 1] { -2 } else { -1 },
        )
    }
}

/// The first `n` numbers, each in a `w`-byte field.
pub open spec fn num_fields(nums: Seq<i32>, n: int, w: int) -> Seq<u8>
    decreases n,
{
    if n <= 0 { seq![] } else { num_fields(nums, n - 1, w) + num_bytes(nums[n - 1], w) }
}

/// Whether some number does not fit 16 bits: a predefined slot or an extended number above
/// 32767.
pub open spec fn need_32(nums: Seq<i32>, e: Seq<ExtCapV>) -> bool {
    (exists|i: int| 0 <= i < nums.len() && #[trigger] nums[i] > 32767) || (exists|j: int|
        0 <= j < e.len() && match #[trigger] e[j] {
            ExtCapV::Num(_, v) => v > 32767,
            _ => false,
        })
}

/// The capability-table cutoffs: the full tables with `ext`, else the SVr4 counts.
pub open spec fn cutoffs(ext: bool) -> (int, int, int) {
    if ext { (44, 39, 414) } else { (37, 33, 394) }
}

/// The predefined part of a compiled entry for `names` and slots `st`, numbers in `w`-byte
/// fields under `magic`: the header `[magic, names size, booleans, numbers, strings, string
/// table size]`, the NUL-terminated names, the booleans, a pad byte to an even offset, the
/// numbers, the string offsets and the string table.
pub open spec fn compiled_main(names: Seq<char>, st: Slots, magic: u16, w: int) -> Seq<u8> {
    let nb = name_bytes(names).push(0u8);
    let ns = st.strs.len() as int;
    let tab = str_tab(st.strs, ns);
    le16(magic) + le16(low16(nb.len() as int)) + le16(low16(st.bools.len() as int)) + le16(
        low16(st.nums.len() as int),
    ) + le16(low16(ns)) + le16(low16(tab.len() as int)) + nb + st.bools + (if (nb.len() + st.bools.len())
        % 2 == 1 { seq![0u8] } else { seq![] }) + num_fields(st.nums, st.nums.len() as int, w) + str_offs(
        st.strs,
        st.cancel,
        ns,
    ) + tab
}

/// `tic`'s compiled form of entry `e`: with `ext`, the full capability tables and (when there
/// are any) the extended section; without it, the SVr4 cutoffs and no extended caps. Numbers
/// are 32-bit (magic `0o1036`) exactly when one does not fit 16 bits, else 16-bit (`0o432`).
pub open spec fn compile_v(names: Seq<char>, caps: Seq<CapV>, e: Seq<ExtCapV>, ext: bool) -> Seq<u8> {
    let (cb, cn, cs) = cutoffs(ext);
    let st = layout(caps, caps.len() as int, cb, cn, cs);
    let wide = need_32(st.nums, e);
    let w = if wide { 4int } else { 2int };
    let magic: u16 = if wide { 0o1036 } else { 0o432 };
    let main = compiled_main(names, st, magic, w);
    if ext && e.len() > 0 { main + ext_section(e, w, main.len() as int) } else { main }
}

/// The model of a string-slot vector.
pub open spec fn strs_v(v: Seq<Option<Vec<u8>>>) -> Seq<Option<Seq<u8>>> {
    v.map_values(|o: Option<Vec<u8>>| crate::terminfo::entry::ob_v(o))
}

/// Grow `v` with `fill` to hold index `ix`.
fn grow_to<T: Copy>(v: &mut Vec<T>, ix: usize, fill: T)
    requires
        ix < 1000,
    ensures
        final(v)@ == grow(old(v)@, ix as int, fill),
{
    let ghost v0 = v@;
    while v.len() <= ix
        invariant
            ix < 1000,
            v0.len() <= ix + 1 ==> v@ == v0 + Seq::new((v@.len() - v0.len()) as nat, |i: int| fill),
            v0.len() > ix ==> v@ == v0,
            v@.len() <= (if v0.len() > ix + 1 { v0.len() as int } else { ix as int + 1 }),
            v@.len() >= v0.len(),
        decreases ix + 1 - v@.len(),
    {
        v.push(fill);
        assert(v@ =~= v0 + Seq::new((v@.len() - v0.len()) as nat, |i: int| fill));
    }
    assert(v@ =~= grow(v0, ix as int, fill));
}

/// Grow the string slots (and their cancel flags) to hold index `ix`.
fn grow_strs(v: &mut Vec<Option<Vec<u8>>>, ix: usize)
    requires
        ix < 1000,
    ensures
        strs_v(final(v)@) == grow(strs_v(old(v)@), ix as int, None::<Seq<u8>>),
        final(v)@.len() == strs_v(final(v)@).len(),
{
    let ghost v0 = strs_v(v@);
    while v.len() <= ix
        invariant
            ix < 1000,
            v0.len() <= ix + 1 ==> strs_v(v@) == v0 + Seq::new((v@.len() - v0.len()) as nat, |i: int| None::<Seq<u8>>),
            v0.len() > ix ==> strs_v(v@) == v0,
            v@.len() <= (if v0.len() > ix + 1 { v0.len() as int } else { ix as int + 1 }),
            v@.len() >= v0.len(),
            v0.len() == strs_v(old(v)@).len(),
        decreases ix + 1 - v@.len(),
    {
        let ghost before = v@;
        v.push(None);
        assert(strs_v(v@) =~= strs_v(before).push(None::<Seq<u8>>));
        assert(strs_v(v@) =~= v0 + Seq::new((v@.len() - v0.len()) as nat, |i: int| None::<Seq<u8>>));
    }
    assert(strs_v(v@) =~= grow(v0, ix as int, None::<Seq<u8>>));
}

/// A copy of `b`.
fn copy_bytes(b: &Vec<u8>) -> (r: Vec<u8>)
    ensures
        r@ == b@,
{
    let mut r: Vec<u8> = Vec::new();
    push_bytes(&mut r, b.as_slice());
    assert(r@ =~= b@);
    r
}

/// Lay `caps` into slots under the cutoffs `(cb, cn, cs)` (see [`layout`]).
fn lay_caps(caps: &Vec<Cap>, cb: usize, cn: usize, cs: usize) -> (r: (Vec<u8>, Vec<i32>, Vec<Option<Vec<u8>>>, Vec<bool>))
    requires
        cb <= 500,
        cn <= 500,
        cs <= 500,
    ensures
        ({
            let st = layout(caps@.map_values(|c: Cap| c@), caps@.len() as int, cb as int, cn as int, cs as int);
            &&& r.0@ == st.bools
            &&& r.1@ == st.nums
            &&& strs_v(r.2@) == st.strs
            &&& r.3@ == st.cancel
            &&& r.2@.len() == r.3@.len()
            &&& r.0@.len() <= cb
            &&& r.1@.len() <= cn
            &&& r.2@.len() <= cs
        }),
{
    let ghost cv = caps@.map_values(|c: Cap| c@);
    let mut bools: Vec<u8> = Vec::new();
    let mut nums: Vec<i32> = Vec::new();
    let mut strs: Vec<Option<Vec<u8>>> = Vec::new();
    let mut cancel: Vec<bool> = Vec::new();
    let mut k: usize = 0;
    while k < caps.len()
        invariant
            k <= caps@.len(),
            cb <= 500,
            cn <= 500,
            cs <= 500,
            cv == caps@.map_values(|c: Cap| c@),
            bools@ == layout(cv, k as int, cb as int, cn as int, cs as int).bools,
            nums@ == layout(cv, k as int, cb as int, cn as int, cs as int).nums,
            strs_v(strs@) == layout(cv, k as int, cb as int, cn as int, cs as int).strs,
            cancel@ == layout(cv, k as int, cb as int, cn as int, cs as int).cancel,
            strs@.len() == cancel@.len(),
            bools@.len() <= cb,
            nums@.len() <= cn,
            strs@.len() <= cs,
        decreases caps@.len() - k,
    {
        proof {
            assert(cv[k as int] == caps@[k as int]@);
        }
        match &caps[k] {
            Cap::Bool(ix) => {
                if *ix < cb {
                    grow_to(&mut bools, *ix, 0u8);
                    bools[*ix] = 1;
                }
            },
            Cap::Num(ix, n) => {
                if *ix < cn {
                    grow_to(&mut nums, *ix, -1i32);
                    nums[*ix] = *n;
                }
            },
            Cap::Str(ix, b) => {
                if *ix < cs {
                    grow_strs(&mut strs, *ix);
                    grow_to(&mut cancel, *ix, false);
                    let ghost before = strs@;
                    strs[*ix] = Some(copy_bytes(b));
                    proof {
                        assert(strs_v(strs@) =~= strs_v(before).update(*ix as int, Some(b@)));
                    }
                }
            },
            Cap::Cancel { is_string, index } => {
                if *is_string && *index < cs {
                    grow_strs(&mut strs, *index);
                    grow_to(&mut cancel, *index, false);
                    cancel[*index] = true;
                } else if !*is_string && *index < cn {
                    grow_to(&mut nums, *index, -1i32);
                    nums[*index] = -2;
                }
            },
        }
        k = k + 1;
    }
    (bools, nums, strs, cancel)
}

/// Whether some number does not fit 16 bits (see [`need_32`]).
fn need_wide(nums: &Vec<i32>, ext: &Vec<ExtCap>) -> (r: bool)
    ensures
        r == need_32(nums@, exts_v(ext@)),
{
    let mut i: usize = 0;
    while i < nums.len()
        invariant
            i <= nums@.len(),
            forall|j: int| 0 <= j < i ==> nums@[j] <= 32767,
        decreases nums@.len() - i,
    {
        if nums[i] > 32767 {
            return true;
        }
        i = i + 1;
    }
    let ghost e = exts_v(ext@);
    let mut j: usize = 0;
    while j < ext.len()
        invariant
            j <= ext@.len(),
            e == exts_v(ext@),
            forall|i: int| 0 <= i < nums@.len() ==> nums@[i] <= 32767,
            forall|m: int| 0 <= m < j ==> match #[trigger] e[m] {
                ExtCapV::Num(_, v) => v <= 32767,
                _ => true,
            },
        decreases ext@.len() - j,
    {
        proof {
            assert(e[j as int] == ext@[j as int]@);
        }
        match &ext[j] {
            ExtCap::Num(_, v) => {
                if *v > 32767 {
                    return true;
                }
            },
            _ => {},
        }
        j = j + 1;
    }
    false
}

/// The string table and stored string offsets of the slots.
fn str_parts(strs: &Vec<Option<Vec<u8>>>, cancel: &Vec<bool>) -> (r: (Vec<u8>, Vec<u8>))
    requires
        strs@.len() == cancel@.len(),
    ensures
        r.0@ == str_tab(strs_v(strs@), strs@.len() as int),
        r.1@ == str_offs(strs_v(strs@), cancel@, strs@.len() as int),
{
    let ghost sv = strs_v(strs@);
    let mut tab: Vec<u8> = Vec::new();
    let mut offs: Vec<u8> = Vec::new();
    let mut i: usize = 0;
    while i < strs.len()
        invariant
            i <= strs@.len(),
            strs@.len() == cancel@.len(),
            sv == strs_v(strs@),
            tab@ == str_tab(sv, i as int),
            offs@ == str_offs(sv, cancel@, i as int),
        decreases strs@.len() - i,
    {
        proof {
            assert(sv[i as int] == crate::terminfo::entry::ob_v(strs@[i as int]));
        }
        match &strs[i] {
            Some(b) => {
                push_le16(&mut offs, (tab.len() as i16) as u16);
                push_bytes(&mut tab, b.as_slice());
                tab.push(0);
                proof {
                    assert(tab@ =~= str_tab(sv, i + 1));
                }
            },
            None => {
                if cancel[i] {
                    push_le16(&mut offs, (-2i16) as u16);
                } else {
                    push_le16(&mut offs, (-1i16) as u16);
                }
                proof {
                    assert(tab@ =~= str_tab(sv, i + 1));
                }
            },
        }
        i = i + 1;
    }
    (tab, offs)
}

/// The numbers, each in a `w`-byte field.
fn num_part(nums: &Vec<i32>, w: usize) -> (r: Vec<u8>)
    ensures
        r@ == num_fields(nums@, nums@.len() as int, w as int),
{
    let mut out: Vec<u8> = Vec::new();
    let mut i: usize = 0;
    while i < nums.len()
        invariant
            i <= nums@.len(),
            out@ == num_fields(nums@, i as int, w as int),
        decreases nums@.len() - i,
    {
        if w == 2 {
            push_le16(&mut out, (nums[i] as i16) as u16);
        } else {
            push_le32(&mut out, nums[i] as u32);
        }
        i = i + 1;
    }
    out
}

/// The predefined part of a compiled entry (see [`compiled_main`]).
fn compile_main(
    names: &String,
    bools: &Vec<u8>,
    nums: &Vec<i32>,
    strs: &Vec<Option<Vec<u8>>>,
    cancel: &Vec<bool>,
    magic: u16,
    w: usize,
) -> (r: Vec<u8>)
    requires
        strs@.len() == cancel@.len(),
        bools@.len() <= 500,
    ensures
        r@ == compiled_main(
            names@,
            Slots { bools: bools@, nums: nums@, strs: strs_v(strs@), cancel: cancel@ },
            magic,
            w as int,
        ),
{
    let (tab, offs) = str_parts(strs, cancel);
    let nums_b = num_part(nums, w);
    let mut nb: Vec<u8> = Vec::new();
    let nbytes = names.as_str().as_bytes();
    push_bytes(&mut nb, nbytes);
    nb.push(0);
    proof {
        assert(nbytes@ == name_bytes(names@));
        assert(nb@ =~= name_bytes(names@).push(0u8));
    }
    let mut out: Vec<u8> = Vec::new();
    push_le16(&mut out, magic);
    push_header(
        &mut out,
        (nb.len() % 65536) as u16,
        (bools.len() % 65536) as u16,
        (nums.len() % 65536) as u16,
        (strs.len() % 65536) as u16,
        (tab.len() % 65536) as u16,
    );
    push_bytes(&mut out, nb.as_slice());
    push_bytes(&mut out, bools.as_slice());
    if (nb.len() % 2 + bools.len() % 2) % 2 == 1 {
        out.push(0);
    }
    proof {
        vstd::arithmetic::div_mod::lemma_add_mod_noop(nb@.len() as int, bools@.len() as int, 2);
    }
    push_bytes(&mut out, nums_b.as_slice());
    push_bytes(&mut out, offs.as_slice());
    push_bytes(&mut out, tab.as_slice());
    proof {
        assert(strs_v(strs@).len() == strs@.len());
        assert(out@ =~= compiled_main(
            names@,
            Slots { bools: bools@, nums: nums@, strs: strs_v(strs@), cancel: cancel@ },
            magic,
            w as int,
        ));
    }
    out
}

/// Compile a parsed entry to the binary terminfo layout (see [`compile_v`]).
pub fn compile(entry: &Entry, ext: bool) -> (out: Vec<u8>)
    requires
        entry.ext@.len() <= isize::MAX,
    ensures
        out@ == compile_v(entry.names@, entry.caps@.map_values(|c: Cap| c@), exts_v(entry.ext@), ext),
{
    let (cb, cn, cs): (usize, usize, usize) = if ext { (44, 39, 414) } else { (37, 33, 394) };
    let (bools, nums, strs, cancel) = lay_caps(&entry.caps, cb, cn, cs);
    let wide = need_wide(&nums, &entry.ext);
    let w: usize = if wide { 4 } else { 2 };
    let magic: u16 = if wide { 0o1036 } else { 0o432 };
    let mut out = compile_main(&entry.names, &bools, &nums, &strs, &cancel, magic, w);
    if ext && entry.ext.len() > 0 {
        append_extended(&mut out, entry.ext.as_slice(), w);
    }
    out
}

} // verus!
