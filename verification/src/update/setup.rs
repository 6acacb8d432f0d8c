//! Configuring a [`Screen`] from a compiled terminfo entry.

use vstd::prelude::*;
use vstd::string::StringSliceAdditionalSpecFns;
use super::{
    acsc_from, identity_acsc, identity_acsc_v, ncv_attr_v, ncv_to_attr, new_screen_v, screen_wf,
    xterm_ech, xterm_rep, Screen, ScreenV, Term, TermV, ABSENT_COST, CUP_CH_COST, ECH_COST,
    REP_COST,
};
use crate::color::Palette;
use crate::cursor::caps::from_terminfo_v;
use crate::cursor::{apply_padding, apply_padding_spec, normalized_cost, normalized_cost_spec, Caps};
use crate::fmt::push_bytes;
use crate::terminfo::entry::{string_v, tigetflag_v, tigetnum_v, Terminfo, TerminfoV};
use crate::terminfo::tparm::{tparm_n, tparm_spec, PV};
use crate::vid::{differs, VidV};

verus! {

/// An optional cap's bytes, empty when absent.
pub open spec fn opt_s(o: Option<Seq<u8>>) -> Seq<u8> {
    match o {
        Some(s) => s,
        None => seq![],
    }
}

/// An optional cap's bytes with padding applied, empty when absent.
pub open spec fn padded_opt(o: Option<Seq<u8>>, xon: bool, pad: u8) -> Seq<u8> {
    match o {
        Some(s) => apply_padding_spec(s, xon, pad),
        None => seq![],
    }
}

/// The entry's `xon` flag.
pub open spec fn ti_xon(t: TerminfoV) -> bool {
    tigetflag_v(t, "xon".spec_bytes()) > 0
}

/// The entry's pad character: the first byte of `pad`, else NUL.
pub open spec fn ti_pad(t: TerminfoV) -> u8 {
    match string_v(t, "pad".spec_bytes()) {
        Some(p) => if p.len() > 0 { p[0] } else { 0 },
        None => 0,
    }
}

/// The line-shaping caps an entry gives a screen: padded erase caps (absent ones empty and
/// priced out of every comparison), `clr_eol` free on a back-colour-erase terminal, the
/// `erase_chars` / `repeat_char` / `cursor_address` costs at their sample parameters, the margin
/// and insert caps, and the `acsc` glyph map.
pub open spec fn term_from_v(t: TerminfoV) -> TermV {
    let xon = ti_xon(t);
    let pad = ti_pad(t);
    let bce = tigetflag_v(t, "bce".spec_bytes()) > 0;
    TermV {
        clear_seq: padded_opt(string_v(t, "clear".spec_bytes()), xon, pad),
        el_seq: padded_opt(string_v(t, "el".spec_bytes()), xon, pad),
        el1_seq: padded_opt(string_v(t, "el1".spec_bytes()), xon, pad),
        ed_seq: padded_opt(string_v(t, "ed".spec_bytes()), xon, pad),
        has_rep: string_v(t, "rep".spec_bytes()) is Some,
        el_cost: match string_v(t, "el".spec_bytes()) {
            Some(el) => if bce { 0 } else { normalized_cost_spec(el) },
            None => ABSENT_COST,
        },
        el1_cost: match string_v(t, "el1".spec_bytes()) {
            Some(e) => normalized_cost_spec(e),
            None => ABSENT_COST,
        },
        has_ech: string_v(t, "ech".spec_bytes()) is Some,
        has_idc: string_v(t, "ich".spec_bytes()) is Some || string_v(t, "ich1".spec_bytes()) is Some
            || string_v(t, "dch".spec_bytes()) is Some || string_v(t, "dch1".spec_bytes()) is Some,
        ech_seq: match string_v(t, "ech".spec_bytes()) {
            Some(e) => e,
            None => xterm_ech(),
        },
        ech_cost: match string_v(t, "ech".spec_bytes()) {
            Some(e) => normalized_cost_spec(tparm_spec(e, seq![PV::Int(23)])),
            None => ECH_COST,
        },
        rep_seq: match string_v(t, "rep".spec_bytes()) {
            Some(r) => r,
            None => xterm_rep(),
        },
        rep_cost: match string_v(t, "rep".spec_bytes()) {
            Some(r) => normalized_cost_spec(tparm_spec(r, seq![PV::Int(32), PV::Int(23)])),
            None => REP_COST,
        },
        cup_ch_cost: match string_v(t, "cup".spec_bytes()) {
            Some(c) => normalized_cost_spec(tparm_spec(c, seq![PV::Int(23), PV::Int(23)])),
            None => CUP_CH_COST,
        },
        xon,
        pad_char: pad,
        msgr: tigetflag_v(t, "msgr".spec_bytes()) > 0,
        bce,
        am: tigetflag_v(t, "am".spec_bytes()) > 0,
        xenl: tigetflag_v(t, "xenl".spec_bytes()) > 0,
        smam: padded_opt(string_v(t, "smam".spec_bytes()), xon, pad),
        rmam: padded_opt(string_v(t, "rmam".spec_bytes()), xon, pad),
        ich1: opt_s(string_v(t, "ich1".spec_bytes())),
        ich: opt_s(string_v(t, "ich".spec_bytes())),
        smir: padded_opt(string_v(t, "smir".spec_bytes()), xon, pad),
        rmir: padded_opt(string_v(t, "rmir".spec_bytes()), xon, pad),
        ip: padded_opt(string_v(t, "ip".spec_bytes()), xon, pad),
        acsc: match string_v(t, "acsc".spec_bytes()) {
            Some(a) => acsc_from(identity_acsc_v(), a, 0),
            None => identity_acsc_v(),
        },
    }
}

/// The SGR engine an entry gives a screen, over engine `v0`: the entry's `sgr` / `sgr0` /
/// `rmacs`, its individual mode caps (the no-`sgr` path), its `ncv` mask when positive, and its
/// colour caps (`setaf`/`setab`, else `setf`/`setb` with the colour numbers toggled).
pub open spec fn vid_from_v(v0: VidV, t: TerminfoV) -> VidV {
    let sgr0 = opt_s(string_v(t, "sgr0".spec_bytes()));
    let rmul = opt_s(string_v(t, "rmul".spec_bytes()));
    let rmso = opt_s(string_v(t, "rmso".spec_bytes()));
    let ncv = tigetnum_v(t, "ncv".spec_bytes());
    let setaf = string_v(t, "setaf".spec_bytes());
    let setf = string_v(t, "setf".spec_bytes());
    VidV {
        sgr: opt_s(string_v(t, "sgr".spec_bytes())),
        sgr0,
        rmacs: opt_s(string_v(t, "rmacs".spec_bytes())),
        has_sgr: string_v(t, "sgr".spec_bytes()) is Some,
        smacs: opt_s(string_v(t, "smacs".spec_bytes())),
        e_blink: opt_s(string_v(t, "blink".spec_bytes())),
        e_bold: opt_s(string_v(t, "bold".spec_bytes())),
        e_dim: opt_s(string_v(t, "dim".spec_bytes())),
        e_rev: opt_s(string_v(t, "rev".spec_bytes())),
        smso: opt_s(string_v(t, "smso".spec_bytes())),
        e_prot: opt_s(string_v(t, "prot".spec_bytes())),
        e_invis: opt_s(string_v(t, "invis".spec_bytes())),
        smul: opt_s(string_v(t, "smul".spec_bytes())),
        rmul,
        rmso,
        use_rmul: differs(rmul, sgr0),
        use_rmso: differs(rmso, sgr0),
        xon: ti_xon(t),
        pad_char: ti_pad(t),
        ncv: if ncv > 0 { ncv_attr_v(ncv as u32) } else { v0.ncv },
        setaf: if setaf is Some { setaf } else { setf },
        setab: if string_v(t, "setab".spec_bytes()) is Some {
            string_v(t, "setab".spec_bytes())
        } else {
            string_v(t, "setb".spec_bytes())
        },
        scp: string_v(t, "scp".spec_bytes()),
        op: opt_s(string_v(t, "op".spec_bytes())),
        color_toggled: setaf is None && setf is Some,
        has_color: tigetnum_v(t, "colors".spec_bytes()) > 0,
        ..v0
    }
}

/// The screen an entry configures: a fresh screen of that size and palette with the entry's
/// cursor-motion profile, line-shaping caps and SGR engine.
pub open spec fn from_terminfo_screen_v(rows: int, cols: int, t: TerminfoV, palette: Map<i16, (i16, i16)>) -> ScreenV {
    let s = new_screen_v(rows, cols, palette);
    ScreenV { caps: from_terminfo_v(t), term: term_from_v(t), vid: vid_from_v(s.vid, t), ..s }
}

fn opt_vec(t: &Terminfo, name: &str) -> (v: Vec<u8>)
    ensures
        v@ == opt_s(string_v(t@, name.spec_bytes())),
{
    let mut v: Vec<u8> = Vec::new();
    match t.string(name) {
        Some(s) => push_bytes(&mut v, s),
        None => {},
    }
    v
}

fn padded(t: &Terminfo, name: &str, xon: bool, pad: u8) -> (v: Vec<u8>)
    ensures
        v@ == padded_opt(string_v(t@, name.spec_bytes()), xon, pad),
{
    match t.string(name) {
        Some(s) => apply_padding(s, xon, pad),
        None => Vec::new(),
    }
}

fn some_cap(t: &Terminfo, name: &str) -> (b: bool)
    ensures
        b == (string_v(t@, name.spec_bytes()) is Some),
{
    t.string(name).is_some()
}

fn cost_at(t: &Terminfo, name: &str, params: &[i32], dflt: i32) -> (c: i32)
    ensures
        c == match string_v(t@, name.spec_bytes()) {
            Some(s) => normalized_cost_spec(tparm_spec(s, params@.map_values(|v: i32| PV::Int(v)))),
            None => dflt,
        },
{
    match t.string(name) {
        Some(s) => {
            let e = tparm_n(s, params);
            normalized_cost(e.as_slice())
        },
        None => dflt,
    }
}

fn term_from(t: &Terminfo) -> (r: Term)
    ensures
        r@ == term_from_v(t@),
{
    let xon = t.tigetflag("xon") > 0;
    let pad = match t.string("pad") {
        Some(p) => if p.len() > 0 { p[0] } else { 0 },
        None => 0,
    };
    let bce = t.tigetflag("bce") > 0;
    let el_cost = match t.string("el") {
        Some(el) => if bce { 0 } else { normalized_cost(el) },
        None => ABSENT_COST,
    };
    let el1_cost = match t.string("el1") {
        Some(e) => normalized_cost(e),
        None => ABSENT_COST,
    };
    let ech_seq = match t.string("ech") {
        Some(e) => {
            let mut v: Vec<u8> = Vec::new();
            push_bytes(&mut v, e);
            v
        },
        None => {
            let d: &[u8] = &[0x1bu8, 0x5bu8, 0x25u8, 0x70u8, 0x31u8, 0x25u8, 0x64u8, 0x58u8];
            let mut v: Vec<u8> = Vec::new();
            push_bytes(&mut v, d);
            v
        },
    };
    let rep_seq = match t.string("rep") {
        Some(r) => {
            let mut v: Vec<u8> = Vec::new();
            push_bytes(&mut v, r);
            v
        },
        None => {
            let d: &[u8] = &[0x25u8, 0x70u8, 0x31u8, 0x25u8, 0x63u8, 0x1bu8, 0x5bu8, 0x25u8, 0x70u8, 0x32u8, 0x25u8, 0x7bu8, 0x31u8, 0x7du8, 0x25u8, 0x2du8, 0x25u8, 0x64u8, 0x62u8];
            let mut v: Vec<u8> = Vec::new();
            push_bytes(&mut v, d);
            v
        },
    };
    let p1: &[i32] = &[23i32];
    let p2: &[i32] = &[32i32, 23i32];
    let p3: &[i32] = &[23i32, 23i32];
    assert(p1@.map_values(|v: i32| PV::Int(v)) =~= seq![PV::Int(23)]);
    assert(p2@.map_values(|v: i32| PV::Int(v)) =~= seq![PV::Int(32), PV::Int(23)]);
    assert(p3@.map_values(|v: i32| PV::Int(v)) =~= seq![PV::Int(23), PV::Int(23)]);
    let acsc = match t.string("acsc") {
        Some(a) => acsc_map(a),
        None => identity_acsc(),
    };
    let r = Term {
        clear_seq: padded(t, "clear", xon, pad),
        el_seq: padded(t, "el", xon, pad),
        el1_seq: padded(t, "el1", xon, pad),
        ed_seq: padded(t, "ed", xon, pad),
        has_rep: some_cap(t, "rep"),
        el_cost,
        el1_cost,
        has_ech: some_cap(t, "ech"),
        has_idc: some_cap(t, "ich") || some_cap(t, "ich1") || some_cap(t, "dch") || some_cap(t, "dch1"),
        ech_seq,
        ech_cost: cost_at(t, "ech", p1, ECH_COST),
        rep_seq,
        rep_cost: cost_at(t, "rep", p2, REP_COST),
        cup_ch_cost: cost_at(t, "cup", p3, CUP_CH_COST),
        xon,
        pad_char: pad,
        msgr: t.tigetflag("msgr") > 0,
        bce,
        am: t.tigetflag("am") > 0,
        xenl: t.tigetflag("xenl") > 0,
        smam: padded(t, "smam", xon, pad),
        rmam: padded(t, "rmam", xon, pad),
        ich1: opt_vec(t, "ich1"),
        ich: opt_vec(t, "ich"),
        smir: padded(t, "smir", xon, pad),
        rmir: padded(t, "rmir", xon, pad),
        ip: padded(t, "ip", xon, pad),
        acsc,
    };
    proof {
        assert(r@ =~= term_from_v(t@));
    }
    r
}


/// The glyph map an `acsc` string gives: its pairs applied over the identity map.
pub(crate) fn acsc_map(pairs: &[u8]) -> (m: Vec<u8>)
    ensures
        m@ == acsc_from(identity_acsc_v(), pairs@, 0),
        m@.len() == 128,
{
    let mut m = identity_acsc();
    let mut i: usize = 0;
    while i + 1 < pairs.len()
        invariant
            m@.len() == 128,
            i % 2 == 0,
            i <= pairs@.len() + 1,
            acsc_from(m@, pairs@, i as int) == acsc_from(identity_acsc_v(), pairs@, 0),
        decreases pairs@.len() - i,
    {
        let a = pairs[i];
        let g = pairs[i + 1];
        if a < 128 {
            m.set(a as usize, g);
        }
        i = i + 2;
    }
    m
}

proof fn lemma_acsc_len(m: Seq<u8>, pairs: Seq<u8>, i: int)
    requires
        m.len() == 128,
    ensures
        acsc_from(m, pairs, i).len() == m.len(),
    decreases pairs.len() - i,
{
    if i < 0 || i + 1 >= pairs.len() {
    } else {
        let m2 = if pairs[i] < 128 { m.update(pairs[i] as int, pairs[i + 1]) } else { m };
        lemma_acsc_len(m2, pairs, i + 2);
    }
}

impl Screen {
    fn set_term(&mut self, term: Term)
        requires
            old(self).wf(),
            term@.acsc.len() == 128,
        ensures
            final(self).wf(),
            final(self)@ == (ScreenV { term: term@, ..old(self)@ }),
    {
        self.t = term;
        proof {
            assert(self@ =~= (ScreenV { term: term@, ..old(self)@ }));
        }
    }

    /// The attribute caps of an entry on the SGR engine: `sgr`/`sgr0`/`rmacs` and the
    /// individual mode caps.
    #[verifier::rlimit(100)]
    fn apply_mode_caps(&mut self, t: &Terminfo)
        requires
            old(self).wf(),
        ensures
            final(self).wf(),
            final(self)@ == (ScreenV {
                vid: VidV {
                    sgr: opt_s(string_v(t@, "sgr".spec_bytes())),
                    sgr0: opt_s(string_v(t@, "sgr0".spec_bytes())),
                    rmacs: opt_s(string_v(t@, "rmacs".spec_bytes())),
                    has_sgr: string_v(t@, "sgr".spec_bytes()) is Some,
                    smacs: opt_s(string_v(t@, "smacs".spec_bytes())),
                    e_blink: opt_s(string_v(t@, "blink".spec_bytes())),
                    e_bold: opt_s(string_v(t@, "bold".spec_bytes())),
                    e_dim: opt_s(string_v(t@, "dim".spec_bytes())),
                    e_rev: opt_s(string_v(t@, "rev".spec_bytes())),
                    smso: opt_s(string_v(t@, "smso".spec_bytes())),
                    e_prot: opt_s(string_v(t@, "prot".spec_bytes())),
                    e_invis: opt_s(string_v(t@, "invis".spec_bytes())),
                    smul: opt_s(string_v(t@, "smul".spec_bytes())),
                    rmul: opt_s(string_v(t@, "rmul".spec_bytes())),
                    rmso: opt_s(string_v(t@, "rmso".spec_bytes())),
                    use_rmul: differs(opt_s(string_v(t@, "rmul".spec_bytes())), opt_s(string_v(t@, "sgr0".spec_bytes()))),
                    use_rmso: differs(opt_s(string_v(t@, "rmso".spec_bytes())), opt_s(string_v(t@, "sgr0".spec_bytes()))),
                    xon: ti_xon(t@),
                    pad_char: ti_pad(t@),
                    ..old(self)@.vid
                },
                ..old(self)@
            }),
    {
        let sgr = opt_vec(t, "sgr");
        let sgr0 = opt_vec(t, "sgr0");
        let rmacs = opt_vec(t, "rmacs");
        self.set_attr_caps(sgr.as_slice(), sgr0.as_slice(), rmacs.as_slice());
        let xon = t.tigetflag("xon") > 0;
        let pad = match t.string("pad") {
            Some(p) => if p.len() > 0 { p[0] } else { 0 },
            None => 0,
        };
        let has_sgr = t.string("sgr").is_some();
        let e: [Option<&[u8]>; 9] = [
            t.string("smacs"),
            t.string("blink"),
            t.string("bold"),
            t.string("dim"),
            t.string("rev"),
            t.string("smso"),
            t.string("prot"),
            t.string("invis"),
            t.string("smul"),
        ];
        let rmul = t.string("rmul");
        let rmso = t.string("rmso");
        proof {
            assert(crate::vid::or_empty_v(e[0]) == opt_s(string_v(t@, "smacs".spec_bytes())));
            assert(crate::vid::or_empty_v(e[1]) == opt_s(string_v(t@, "blink".spec_bytes())));
            assert(crate::vid::or_empty_v(e[2]) == opt_s(string_v(t@, "bold".spec_bytes())));
            assert(crate::vid::or_empty_v(e[3]) == opt_s(string_v(t@, "dim".spec_bytes())));
            assert(crate::vid::or_empty_v(e[4]) == opt_s(string_v(t@, "rev".spec_bytes())));
            assert(crate::vid::or_empty_v(e[5]) == opt_s(string_v(t@, "smso".spec_bytes())));
            assert(crate::vid::or_empty_v(e[6]) == opt_s(string_v(t@, "prot".spec_bytes())));
            assert(crate::vid::or_empty_v(e[7]) == opt_s(string_v(t@, "invis".spec_bytes())));
            assert(crate::vid::or_empty_v(e[8]) == opt_s(string_v(t@, "smul".spec_bytes())));
            assert(crate::vid::or_empty_v(rmul) == opt_s(string_v(t@, "rmul".spec_bytes())));
            assert(crate::vid::or_empty_v(rmso) == opt_s(string_v(t@, "rmso".spec_bytes())));
        }
        self.set_mode_caps(has_sgr, e, rmul, rmso, xon, pad);
    }

    /// The `ncv` mask and colour caps of an entry on the SGR engine.
    #[verifier::rlimit(40)]
    fn apply_color_caps(&mut self, t: &Terminfo)
        requires
            old(self).wf(),
        ensures
            final(self).wf(),
            final(self)@ == (ScreenV {
                vid: VidV {
                    ncv: if tigetnum_v(t@, "ncv".spec_bytes()) > 0 {
                        ncv_attr_v(tigetnum_v(t@, "ncv".spec_bytes()) as u32)
                    } else {
                        old(self)@.vid.ncv
                    },
                    setaf: if string_v(t@, "setaf".spec_bytes()) is Some {
                        string_v(t@, "setaf".spec_bytes())
                    } else {
                        string_v(t@, "setf".spec_bytes())
                    },
                    setab: if string_v(t@, "setab".spec_bytes()) is Some {
                        string_v(t@, "setab".spec_bytes())
                    } else {
                        string_v(t@, "setb".spec_bytes())
                    },
                    scp: string_v(t@, "scp".spec_bytes()),
                    op: opt_s(string_v(t@, "op".spec_bytes())),
                    color_toggled: string_v(t@, "setaf".spec_bytes()) is None && string_v(t@, "setf".spec_bytes()) is Some,
                    has_color: tigetnum_v(t@, "colors".spec_bytes()) > 0,
                    ..old(self)@.vid
                },
                ..old(self)@
            }),
    {
        let ncv = t.tigetnum("ncv");
        if ncv > 0 {
            self.set_ncv(ncv_to_attr(ncv as u32));
        }
        let has_color = t.tigetnum("colors") > 0;
        let (setaf, toggled) = match t.string("setaf") {
            Some(a) => (Some(a), false),
            None => match t.string("setf") {
                Some(f) => (Some(f), true),
                None => (None, false),
            },
        };
        let setab = match t.string("setab") {
            Some(b) => Some(b),
            None => t.string("setb"),
        };
        self.set_color_caps(setaf, setab, t.string("scp"), t.string("op"), toggled, has_color);
    }

    fn apply_vid_caps(&mut self, t: &Terminfo)
        requires
            old(self).wf(),
        ensures
            final(self).wf(),
            final(self)@ == (ScreenV { vid: vid_from_v(old(self)@.vid, t@), ..old(self)@ }),
    {
        let ghost s0 = self@;
        self.apply_mode_caps(t);
        self.apply_color_caps(t);
        proof {
            assert(self@.vid =~= vid_from_v(s0.vid, t@));
            assert(self@ =~= (ScreenV { vid: vid_from_v(s0.vid, t@), ..s0 }));
        }
    }

    /// A screen configured from a compiled terminfo entry (see [`from_terminfo_screen_v`]): the
    /// cursor-motion profile, erase / repeat / insert caps with their costs and padding, the
    /// `acsc` map, and the entry's attribute and colour caps on the SGR engine.
    #[verifier::rlimit(60)]
    pub fn from_terminfo(rows: i32, cols: i32, t: &Terminfo, palette: Palette) -> (s: Screen)
        requires
            (if rows < 1 { 1 } else { rows as int }) * (if cols < 1 { 1 } else { cols as int }) <= i32::MAX,
            cols < i32::MAX,
            palette.wf(),
        ensures
            s.wf(),
            s@ == from_terminfo_screen_v(rows as int, cols as int, t@, palette@),
    {
        let mut s = Screen::with_palette(rows, cols, palette);
        s.set_caps(Caps::from_terminfo(t));
        let term = term_from(t);
        proof {
            match string_v(t@, "acsc".spec_bytes()) {
                Some(a) => lemma_acsc_len(identity_acsc_v(), a, 0),
                None => {},
            }
        }
        s.set_term(term);
        s.apply_vid_caps(t);
        proof {
            assert(s@ =~= from_terminfo_screen_v(rows as int, cols as int, t@, palette@));
        }
        s
    }
}

} // verus!
