//! Cursor-motion capability profiles: the cap strings of a terminal and the fixed
//! sample-parameter costs the optimizer scores them with.

use vstd::prelude::*;
use super::{normalized_cost, normalized_cost_spec};
use crate::fmt::push_bytes;
use crate::terminfo::tparm::{tparm_n, tparm_spec, PV};
use crate::terminfo::entry::{string_v, tigetflag_v, Terminfo, TerminfoV};
use vstd::string::StringSliceAdditionalSpecFns;

verus! {

/// The cost of an absent or unusable capability.
pub const INF: i32 = i32::MAX;

/// Default screen width when a terminal omits `cols`.
pub const COLS: i32 = 80;

/// Runtime screen height; `cursor_to_ll` jumps to `(LINES - 1, 0)`.
pub const LINES: i32 = 24;

/// The `NOT_LOCAL` distance threshold (`8 - COMPUTE_OVERHEAD`).
pub const LONG_DIST: i32 = 7;

/// One cursor-motion capability: its byte string (a `tparm` template for the parameterized caps)
/// and its sample-parameter cost (`INF` when the cap is absent or unusable).
#[derive(Debug, Clone)]
pub struct Cap {
    pub s: Vec<u8>,
    pub cost: i32,
}

/// The model of a [`Cap`].
pub struct CapV {
    pub s: Seq<u8>,
    pub cost: int,
}

impl View for Cap {
    type V = CapV;

    open spec fn view(&self) -> CapV {
        CapV { s: self.s@, cost: self.cost as int }
    }
}

/// A capability is usable when it has bytes and a finite cost.
pub open spec fn present(c: CapV) -> bool {
    c.cost != INF as int && c.s.len() > 0
}

/// An absent capability.
pub open spec fn absent_v() -> CapV {
    CapV { s: seq![], cost: INF as int }
}

/// A literal capability: its cost is the normalized cost of its own bytes.
pub open spec fn lit_v(s: Seq<u8>) -> CapV {
    CapV { s, cost: normalized_cost_spec(s) as int }
}

/// A parameterized capability: its cost is the normalized cost of the template expanded with the
/// sample parameters.
pub open spec fn parm_v(t: Seq<u8>, sample: Seq<i32>) -> CapV {
    CapV { s: t, cost: normalized_cost_spec(tparm_spec(t, sample.map_values(|v: i32| PV::Int(v)))) as int }
}

/// The one-parameter sample (`23`).
pub open spec fn sample1() -> Seq<i32> {
    seq![23i32]
}

/// The two-parameter sample of `cup` (`23, 23`).
pub open spec fn sample2() -> Seq<i32> {
    seq![23i32, 23i32]
}

impl Cap {
    /// An absent capability.
    pub fn absent() -> (c: Cap)
        ensures
            c@ == absent_v(),
    {
        Cap { s: Vec::new(), cost: INF }
    }

    /// Whether the capability is usable.
    pub fn present(&self) -> (r: bool)
        ensures
            r == present(self@),
    {
        self.cost != INF && self.s.len() > 0
    }
}

/// Build a literal [`Cap`], computing its cost.
pub fn lit_cap(s: &[u8]) -> (c: Cap)
    ensures
        c@ == lit_v(s@),
{
    let mut v: Vec<u8> = Vec::new();
    push_bytes(&mut v, s);
    assert(v@ =~= s@);
    Cap { s: v, cost: normalized_cost(s) }
}

/// Build a parameterized [`Cap`], computing its cost at the sample parameters.
pub fn parm_cap(tmpl: &[u8], sample: &[i32]) -> (c: Cap)
    ensures
        c@ == parm_v(tmpl@, sample@),
{
    let mut v: Vec<u8> = Vec::new();
    push_bytes(&mut v, tmpl);
    assert(v@ =~= tmpl@);
    let e = tparm_n(tmpl, sample);
    Cap { s: v, cost: normalized_cost(e.as_slice()) }
}

/// The model of a [`Caps`] profile.
pub struct CapsV {
    pub cols: int,
    pub cup: CapV,
    pub home: CapV,
    pub cr: CapV,
    pub cub1: CapV,
    pub cuf1: CapV,
    pub cuu1: CapV,
    pub cud1: CapV,
    pub cuf: CapV,
    pub cub: CapV,
    pub cuu: CapV,
    pub cud: CapV,
    pub hpa: CapV,
    pub vpa: CapV,
    pub ll: CapV,
    pub xon: bool,
    pub pad_char: u8,
    pub bw: bool,
    pub xenl: bool,
}

/// A terminal's cursor-motion cost profile: the cap strings and the sample-parameter costs
/// precomputed for them. [`Caps::xterm`], [`Caps::vt100`] and [`Caps::cygwin`] are built in;
/// [`Caps::from_terminfo`] derives a profile from any compiled entry.
#[derive(Debug, Clone)]
pub struct Caps {
    pub cols: i32,
    pub cup: Cap,
    pub home: Cap,
    pub cr: Cap,
    pub cub1: Cap,
    pub cuf1: Cap,
    pub cuu1: Cap,
    pub cud1: Cap,
    pub cuf: Cap,
    pub cub: Cap,
    pub cuu: Cap,
    pub cud: Cap,
    pub hpa: Cap,
    pub vpa: Cap,
    /// `cursor_to_ll`: jump to the lower-left corner; enables the fourth tactic.
    pub ll: Cap,
    /// `xon` flow control: non-mandatory `$<N>` padding is suppressed at emit time.
    pub xon: bool,
    /// The pad character emitted for delays on a terminal without `xon`.
    pub pad_char: u8,
    /// `auto_left_margin`: a backspace at column 0 wraps to the previous line's last column.
    pub bw: bool,
    /// `eat_newline_glitch`: the last column is a magic margin, so the back-wrap is unreliable.
    pub xenl: bool,
}

impl View for Caps {
    type V = CapsV;

    open spec fn view(&self) -> CapsV {
        CapsV {
            cols: self.cols as int,
            cup: self.cup@,
            home: self.home@,
            cr: self.cr@,
            cub1: self.cub1@,
            cuf1: self.cuf1@,
            cuu1: self.cuu1@,
            cud1: self.cud1@,
            cuf: self.cuf@,
            cub: self.cub@,
            cuu: self.cuu@,
            cud: self.cud@,
            hpa: self.hpa@,
            vpa: self.vpa@,
            ll: self.ll@,
            xon: self.xon,
            pad_char: self.pad_char,
            bw: self.bw,
            xenl: self.xenl,
        }
    }
}

/// The template of `cup`: `CSI row;col H`, both 1-based via `%i`.
pub open spec fn tmpl_cup() -> Seq<u8> {
    seq![0x1bu8, 0x5bu8, 0x25u8, 0x69u8, 0x25u8, 0x70u8, 0x31u8, 0x25u8, 0x64u8, 0x3bu8, 0x25u8, 0x70u8, 0x32u8, 0x25u8, 0x64u8, 0x48u8]
}

fn bytes_cup() -> (r: &'static [u8])
    ensures
        r@ == tmpl_cup(),
{
    let r: &'static [u8] = &[0x1bu8, 0x5bu8, 0x25u8, 0x69u8, 0x25u8, 0x70u8, 0x31u8, 0x25u8, 0x64u8, 0x3bu8, 0x25u8, 0x70u8, 0x32u8, 0x25u8, 0x64u8, 0x48u8];
    r
}

/// The template of `home`.
pub open spec fn tmpl_home() -> Seq<u8> {
    seq![0x1bu8, 0x5bu8, 0x48u8]
}

fn bytes_home() -> (r: &'static [u8])
    ensures
        r@ == tmpl_home(),
{
    let r: &'static [u8] = &[0x1bu8, 0x5bu8, 0x48u8];
    r
}

/// The template of `cr`.
pub open spec fn tmpl_cr() -> Seq<u8> {
    seq![0x0du8]
}

fn bytes_cr() -> (r: &'static [u8])
    ensures
        r@ == tmpl_cr(),
{
    let r: &'static [u8] = &[0x0du8];
    r
}

/// The template of `cub1`: backspace.
pub open spec fn tmpl_cub1() -> Seq<u8> {
    seq![0x08u8]
}

fn bytes_cub1() -> (r: &'static [u8])
    ensures
        r@ == tmpl_cub1(),
{
    let r: &'static [u8] = &[0x08u8];
    r
}

/// The template of `cuf1`.
pub open spec fn tmpl_cuf1() -> Seq<u8> {
    seq![0x1bu8, 0x5bu8, 0x43u8]
}

fn bytes_cuf1() -> (r: &'static [u8])
    ensures
        r@ == tmpl_cuf1(),
{
    let r: &'static [u8] = &[0x1bu8, 0x5bu8, 0x43u8];
    r
}

/// The template of `cuu1`.
pub open spec fn tmpl_cuu1() -> Seq<u8> {
    seq![0x1bu8, 0x5bu8, 0x41u8]
}

fn bytes_cuu1() -> (r: &'static [u8])
    ensures
        r@ == tmpl_cuu1(),
{
    let r: &'static [u8] = &[0x1bu8, 0x5bu8, 0x41u8];
    r
}

/// The template of `cuf`.
pub open spec fn tmpl_cuf() -> Seq<u8> {
    seq![0x1bu8, 0x5bu8, 0x25u8, 0x70u8, 0x31u8, 0x25u8, 0x64u8, 0x43u8]
}

fn bytes_cuf() -> (r: &'static [u8])
    ensures
        r@ == tmpl_cuf(),
{
    let r: &'static [u8] = &[0x1bu8, 0x5bu8, 0x25u8, 0x70u8, 0x31u8, 0x25u8, 0x64u8, 0x43u8];
    r
}

/// The template of `cub`.
pub open spec fn tmpl_cub() -> Seq<u8> {
    seq![0x1bu8, 0x5bu8, 0x25u8, 0x70u8, 0x31u8, 0x25u8, 0x64u8, 0x44u8]
}

fn bytes_cub() -> (r: &'static [u8])
    ensures
        r@ == tmpl_cub(),
{
    let r: &'static [u8] = &[0x1bu8, 0x5bu8, 0x25u8, 0x70u8, 0x31u8, 0x25u8, 0x64u8, 0x44u8];
    r
}

/// The template of `cuu`.
pub open spec fn tmpl_cuu() -> Seq<u8> {
    seq![0x1bu8, 0x5bu8, 0x25u8, 0x70u8, 0x31u8, 0x25u8, 0x64u8, 0x41u8]
}

fn bytes_cuu() -> (r: &'static [u8])
    ensures
        r@ == tmpl_cuu(),
{
    let r: &'static [u8] = &[0x1bu8, 0x5bu8, 0x25u8, 0x70u8, 0x31u8, 0x25u8, 0x64u8, 0x41u8];
    r
}

/// The template of `cud`.
pub open spec fn tmpl_cud() -> Seq<u8> {
    seq![0x1bu8, 0x5bu8, 0x25u8, 0x70u8, 0x31u8, 0x25u8, 0x64u8, 0x42u8]
}

fn bytes_cud() -> (r: &'static [u8])
    ensures
        r@ == tmpl_cud(),
{
    let r: &'static [u8] = &[0x1bu8, 0x5bu8, 0x25u8, 0x70u8, 0x31u8, 0x25u8, 0x64u8, 0x42u8];
    r
}

/// The template of `hpa`.
pub open spec fn tmpl_hpa() -> Seq<u8> {
    seq![0x1bu8, 0x5bu8, 0x25u8, 0x69u8, 0x25u8, 0x70u8, 0x31u8, 0x25u8, 0x64u8, 0x47u8]
}

fn bytes_hpa() -> (r: &'static [u8])
    ensures
        r@ == tmpl_hpa(),
{
    let r: &'static [u8] = &[0x1bu8, 0x5bu8, 0x25u8, 0x69u8, 0x25u8, 0x70u8, 0x31u8, 0x25u8, 0x64u8, 0x47u8];
    r
}

/// The template of `vpa`.
pub open spec fn tmpl_vpa() -> Seq<u8> {
    seq![0x1bu8, 0x5bu8, 0x25u8, 0x69u8, 0x25u8, 0x70u8, 0x31u8, 0x25u8, 0x64u8, 0x64u8]
}

fn bytes_vpa() -> (r: &'static [u8])
    ensures
        r@ == tmpl_vpa(),
{
    let r: &'static [u8] = &[0x1bu8, 0x5bu8, 0x25u8, 0x69u8, 0x25u8, 0x70u8, 0x31u8, 0x25u8, 0x64u8, 0x64u8];
    r
}

/// The template of a `cud1` of `CSI B`.
pub open spec fn tmpl_cud1_csi() -> Seq<u8> {
    seq![0x1bu8, 0x5bu8, 0x42u8]
}

fn bytes_cud1_csi() -> (r: &'static [u8])
    ensures
        r@ == tmpl_cud1_csi(),
{
    let r: &'static [u8] = &[0x1bu8, 0x5bu8, 0x42u8];
    r
}

/// The template of the vt100 `cup`, with 5 ms of padding.
pub open spec fn tmpl_cup_pad5() -> Seq<u8> {
    seq![0x1bu8, 0x5bu8, 0x25u8, 0x69u8, 0x25u8, 0x70u8, 0x31u8, 0x25u8, 0x64u8, 0x3bu8, 0x25u8, 0x70u8, 0x32u8, 0x25u8, 0x64u8, 0x48u8, 0x24u8, 0x3cu8, 0x35u8, 0x3eu8]
}

fn bytes_cup_pad5() -> (r: &'static [u8])
    ensures
        r@ == tmpl_cup_pad5(),
{
    let r: &'static [u8] = &[0x1bu8, 0x5bu8, 0x25u8, 0x69u8, 0x25u8, 0x70u8, 0x31u8, 0x25u8, 0x64u8, 0x3bu8, 0x25u8, 0x70u8, 0x32u8, 0x25u8, 0x64u8, 0x48u8, 0x24u8, 0x3cu8, 0x35u8, 0x3eu8];
    r
}

/// The template of the vt100 `cuf1`, with 2 ms of padding.
pub open spec fn tmpl_cuf1_pad2() -> Seq<u8> {
    seq![0x1bu8, 0x5bu8, 0x43u8, 0x24u8, 0x3cu8, 0x32u8, 0x3eu8]
}

fn bytes_cuf1_pad2() -> (r: &'static [u8])
    ensures
        r@ == tmpl_cuf1_pad2(),
{
    let r: &'static [u8] = &[0x1bu8, 0x5bu8, 0x43u8, 0x24u8, 0x3cu8, 0x32u8, 0x3eu8];
    r
}

/// The template of the vt100 `cuu1`, with 2 ms of padding.
pub open spec fn tmpl_cuu1_pad2() -> Seq<u8> {
    seq![0x1bu8, 0x5bu8, 0x41u8, 0x24u8, 0x3cu8, 0x32u8, 0x3eu8]
}

fn bytes_cuu1_pad2() -> (r: &'static [u8])
    ensures
        r@ == tmpl_cuu1_pad2(),
{
    let r: &'static [u8] = &[0x1bu8, 0x5bu8, 0x41u8, 0x24u8, 0x3cu8, 0x32u8, 0x3eu8];
    r
}

/// The xterm profile: `hpa`/`vpa` present, `cud1` (a newline) unusable, no `ll`, no `bw`.
pub open spec fn xterm_v() -> CapsV {
    CapsV {
        cols: COLS as int,
        cup: parm_v(tmpl_cup(), sample2()),
        home: lit_v(tmpl_home()),
        cr: lit_v(tmpl_cr()),
        cub1: lit_v(tmpl_cub1()),
        cuf1: lit_v(tmpl_cuf1()),
        cuu1: lit_v(tmpl_cuu1()),
        cud1: absent_v(),
        cuf: parm_v(tmpl_cuf(), sample1()),
        cub: parm_v(tmpl_cub(), sample1()),
        cuu: parm_v(tmpl_cuu(), sample1()),
        cud: parm_v(tmpl_cud(), sample1()),
        hpa: parm_v(tmpl_hpa(), sample1()),
        vpa: parm_v(tmpl_vpa(), sample1()),
        ll: absent_v(),
        xon: false,
        pad_char: 0,
        bw: false,
        xenl: true,
    }
}

/// The cygwin profile: xterm's, with a usable `cud1` of `CSI B` and `xon`.
pub open spec fn cygwin_v() -> CapsV {
    CapsV { cud1: lit_v(tmpl_cud1_csi()), xon: true, ..xterm_v() }
}

/// The vt100 profile: no `hpa`/`vpa`, padded `cup`/`cuf1`/`cuu1`, and `xon`.
pub open spec fn vt100_v() -> CapsV {
    CapsV {
        cup: parm_v(tmpl_cup_pad5(), sample2()),
        cuf1: lit_v(tmpl_cuf1_pad2()),
        cuu1: lit_v(tmpl_cuu1_pad2()),
        hpa: absent_v(),
        vpa: absent_v(),
        xon: true,
        ..xterm_v()
    }
}

impl Caps {
    /// The admitted xterm caps (which also match the Linux console for cursor motion).
    pub fn xterm() -> (c: Caps)
        ensures
            c@ == xterm_v(),
    {
        let s1: &[i32] = &[23i32];
        let s2: &[i32] = &[23i32, 23i32];
        assert(s1@ =~= sample1());
        assert(s2@ =~= sample2());
        Caps {
            cols: COLS,
            cup: parm_cap(bytes_cup(), s2),
            home: lit_cap(bytes_home()),
            cr: lit_cap(bytes_cr()),
            cub1: lit_cap(bytes_cub1()),
            cuf1: lit_cap(bytes_cuf1()),
            cuu1: lit_cap(bytes_cuu1()),
            cud1: Cap::absent(),
            cuf: parm_cap(bytes_cuf(), s1),
            cub: parm_cap(bytes_cub(), s1),
            cuu: parm_cap(bytes_cuu(), s1),
            cud: parm_cap(bytes_cud(), s1),
            hpa: parm_cap(bytes_hpa(), s1),
            vpa: parm_cap(bytes_vpa(), s1),
            ll: Cap::absent(),
            xon: false,
            pad_char: 0,
            bw: false,
            xenl: true,
        }
    }

    /// The cygwin caps: xterm-like, but `cud1` is `CSI B` (usable for down-by-one).
    pub fn cygwin() -> (c: Caps)
        ensures
            c@ == cygwin_v(),
    {
        let mut c = Caps::xterm();
        c.cud1 = lit_cap(bytes_cud1_csi());
        c.xon = true;
        c
    }

    /// The DEC vt100 caps: no `hpa`/`vpa`, and `cup`/`cuf1`/`cuu1` carry `$<5>`/`$<2>` padding.
    pub fn vt100() -> (c: Caps)
        ensures
            c@ == vt100_v(),
    {
        let s2: &[i32] = &[23i32, 23i32];
        assert(s2@ =~= sample2());
        let mut c = Caps::xterm();
        c.cup = parm_cap(bytes_cup_pad5(), s2);
        c.cuf1 = lit_cap(bytes_cuf1_pad2());
        c.cuu1 = lit_cap(bytes_cuu1_pad2());
        c.hpa = Cap::absent();
        c.vpa = Cap::absent();
        c.xon = true;
        c
    }
}

/// A literal capability from an entry, absent when the entry lacks it.
pub open spec fn lit_opt(o: Option<Seq<u8>>) -> CapV {
    match o {
        Some(s) => lit_v(s),
        None => absent_v(),
    }
}

/// A parameterized capability from an entry, absent when the entry lacks it.
pub open spec fn parm_opt(o: Option<Seq<u8>>, sample: Seq<i32>) -> CapV {
    match o {
        Some(s) => parm_v(s, sample),
        None => absent_v(),
    }
}

/// The profile of an entry: each cap costed at the sample parameters, a `cud1` starting with a
/// newline treated as unusable, the pad character the first byte of `pad` (else NUL), and an
/// 80-column screen.
pub open spec fn from_terminfo_v(t: TerminfoV) -> CapsV {
    CapsV {
        cols: COLS as int,
        cup: parm_opt(string_v(t, "cup".spec_bytes()), sample2()),
        home: lit_opt(string_v(t, "home".spec_bytes())),
        cr: lit_opt(string_v(t, "cr".spec_bytes())),
        cub1: lit_opt(string_v(t, "cub1".spec_bytes())),
        cuf1: lit_opt(string_v(t, "cuf1".spec_bytes())),
        cuu1: lit_opt(string_v(t, "cuu1".spec_bytes())),
        cud1: match string_v(t, "cud1".spec_bytes()) {
            Some(s) => if s.len() > 0 && s[0] == 0x0au8 { absent_v() } else { lit_v(s) },
            None => absent_v(),
        },
        cuf: parm_opt(string_v(t, "cuf".spec_bytes()), sample1()),
        cub: parm_opt(string_v(t, "cub".spec_bytes()), sample1()),
        cuu: parm_opt(string_v(t, "cuu".spec_bytes()), sample1()),
        cud: parm_opt(string_v(t, "cud".spec_bytes()), sample1()),
        hpa: parm_opt(string_v(t, "hpa".spec_bytes()), sample1()),
        vpa: parm_opt(string_v(t, "vpa".spec_bytes()), sample1()),
        ll: lit_opt(string_v(t, "ll".spec_bytes())),
        xon: tigetflag_v(t, "xon".spec_bytes()) > 0,
        pad_char: match string_v(t, "pad".spec_bytes()) {
            Some(p) => if p.len() > 0 { p[0] } else { 0 },
            None => 0,
        },
        bw: tigetflag_v(t, "bw".spec_bytes()) > 0,
        xenl: tigetflag_v(t, "xenl".spec_bytes()) > 0,
    }
}

fn lit_of(t: &Terminfo, name: &str) -> (c: Cap)
    ensures
        c@ == lit_opt(string_v(t@, name.spec_bytes())),
{
    match t.string(name) {
        Some(s) => lit_cap(s),
        None => Cap::absent(),
    }
}

fn parm_of(t: &Terminfo, name: &str, sample: &[i32]) -> (c: Cap)
    ensures
        c@ == parm_opt(string_v(t@, name.spec_bytes()), sample@),
{
    match t.string(name) {
        Some(s) => parm_cap(s, sample),
        None => Cap::absent(),
    }
}

impl Caps {
    /// Derive the cursor-motion profile from a parsed terminfo entry (see [`from_terminfo_v`]).
    pub fn from_terminfo(t: &Terminfo) -> (c: Caps)
        ensures
            c@ == from_terminfo_v(t@),
    {
        let s1: &[i32] = &[23i32];
        let s2: &[i32] = &[23i32, 23i32];
        assert(s1@ =~= sample1());
        assert(s2@ =~= sample2());
        let cud1 = match t.string("cud1") {
            Some(s) => if s.len() > 0 && s[0] == 0x0au8 { Cap::absent() } else { lit_cap(s) },
            None => Cap::absent(),
        };
        let pad_char = match t.string("pad") {
            Some(p) => if p.len() > 0 { p[0] } else { 0 },
            None => 0,
        };
        Caps {
            cols: COLS,
            cup: parm_of(t, "cup", s2),
            home: lit_of(t, "home"),
            cr: lit_of(t, "cr"),
            cub1: lit_of(t, "cub1"),
            cuf1: lit_of(t, "cuf1"),
            cuu1: lit_of(t, "cuu1"),
            cud1,
            cuf: parm_of(t, "cuf", s1),
            cub: parm_of(t, "cub", s1),
            cuu: parm_of(t, "cuu", s1),
            cud: parm_of(t, "cud", s1),
            hpa: parm_of(t, "hpa", s1),
            vpa: parm_of(t, "vpa", s1),
            ll: lit_of(t, "ll"),
            xon: t.tigetflag("xon") > 0,
            pad_char,
            bw: t.tigetflag("bw") > 0,
            xenl: t.tigetflag("xenl") > 0,
        }
    }
}

} // verus!
