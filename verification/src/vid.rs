//! The attribute / colour SGR transition engine (`vidputs` / `_nc_do_color`).
//!
//! Given the current on-screen attribute and colour state and a desired one, [`Vid::set`] emits
//! the exact bytes that move the terminal between them. With `set_attributes` (`sgr`) an
//! attribute change emits `tparm(sgr, ...)`, which resets colour, after which the pair is
//! re-applied; a pure colour change emits only the colour transition. Without `sgr` the
//! individual mode caps are used. Attribute bits are the [`crate::window::attrs`] layout, the
//! pair in the `A_COLOR` field.

use vstd::prelude::*;
use crate::color::{pair_content_spec, toggled_colors, toggled_spec, Palette};
use crate::cursor::{apply_padding, apply_padding_spec};
use crate::fmt::push_bytes;
use crate::terminfo::tparm::{tparm_n, tparm_spec, PV};
use crate::window::attrs;

verus! {

/// All non-colour attribute bits, the alternate-charset bit included.
pub const ALL_BUT_COLOR: u32 = attrs::STANDOUT | attrs::UNDERLINE | attrs::REVERSE | attrs::BLINK
    | attrs::DIM | attrs::BOLD | attrs::INVIS | attrs::PROTECT | attrs::ALTCHARSET;

/// The model of a [`Vid`].
pub struct VidV {
    pub prev: u32,
    pub palette: Map<i16, (i16, i16)>,
    pub coloron: bool,
    pub sgr: Seq<u8>,
    pub sgr0: Seq<u8>,
    pub rmacs: Seq<u8>,
    pub has_sgr: bool,
    pub smacs: Seq<u8>,
    pub e_blink: Seq<u8>,
    pub e_bold: Seq<u8>,
    pub e_dim: Seq<u8>,
    pub e_rev: Seq<u8>,
    pub smso: Seq<u8>,
    pub e_prot: Seq<u8>,
    pub e_invis: Seq<u8>,
    pub smul: Seq<u8>,
    pub rmul: Seq<u8>,
    pub rmso: Seq<u8>,
    pub use_rmul: bool,
    pub use_rmso: bool,
    pub xon: bool,
    pub pad_char: u8,
    pub setaf: Option<Seq<u8>>,
    pub setab: Option<Seq<u8>>,
    pub scp: Option<Seq<u8>>,
    pub op: Seq<u8>,
    pub color_toggled: bool,
    pub has_color: bool,
    pub ncv: u32,
}

/// The SGR transition engine: the current on-screen attribute and colour state, the colour
/// palette, and the terminal's attribute and colour caps.
#[derive(Debug, Clone)]
pub struct Vid {
    prev: u32,
    palette: Palette,
    coloron: bool,
    sgr: Vec<u8>,
    sgr0: Vec<u8>,
    rmacs: Vec<u8>,
    has_sgr: bool,
    smacs: Vec<u8>,
    e_blink: Vec<u8>,
    e_bold: Vec<u8>,
    e_dim: Vec<u8>,
    e_rev: Vec<u8>,
    smso: Vec<u8>,
    e_prot: Vec<u8>,
    e_invis: Vec<u8>,
    smul: Vec<u8>,
    rmul: Vec<u8>,
    rmso: Vec<u8>,
    use_rmul: bool,
    use_rmso: bool,
    xon: bool,
    pad_char: u8,
    setaf: Option<Vec<u8>>,
    setab: Option<Vec<u8>>,
    scp: Option<Vec<u8>>,
    op: Vec<u8>,
    color_toggled: bool,
    has_color: bool,
    ncv: u32,
}

/// The model of an optional byte string.
pub open spec fn opt_v(o: Option<Vec<u8>>) -> Option<Seq<u8>> {
    match o {
        Some(v) => Some(v@),
        None => None,
    }
}

impl View for Vid {
    type V = VidV;

    closed spec fn view(&self) -> VidV {
        VidV {
            prev: self.prev,
            palette: self.palette@,
            coloron: self.coloron,
            sgr: self.sgr@,
            sgr0: self.sgr0@,
            rmacs: self.rmacs@,
            has_sgr: self.has_sgr,
            smacs: self.smacs@,
            e_blink: self.e_blink@,
            e_bold: self.e_bold@,
            e_dim: self.e_dim@,
            e_rev: self.e_rev@,
            smso: self.smso@,
            e_prot: self.e_prot@,
            e_invis: self.e_invis@,
            smul: self.smul@,
            rmul: self.rmul@,
            rmso: self.rmso@,
            use_rmul: self.use_rmul,
            use_rmso: self.use_rmso,
            xon: self.xon,
            pad_char: self.pad_char,
            setaf: opt_v(self.setaf),
            setab: opt_v(self.setab),
            scp: opt_v(self.scp),
            op: self.op@,
            color_toggled: self.color_toggled,
            has_color: self.has_color,
            ncv: self.ncv,
        }
    }
}

/// The xterm `sgr` template (parameters: standout, underline, reverse, blink, dim, bold, invis,
/// protect, altcharset).
pub open spec fn xterm_sgr() -> Seq<u8> {
    seq![0x25u8, 0x3fu8, 0x25u8, 0x70u8, 0x39u8, 0x25u8, 0x74u8, 0x1bu8, 0x28u8, 0x30u8, 0x25u8, 0x65u8, 0x1bu8, 0x28u8, 0x42u8, 0x25u8, 0x3bu8, 0x1bu8, 0x5bu8, 0x30u8, 0x25u8, 0x3fu8, 0x25u8, 0x70u8, 0x36u8, 0x25u8, 0x74u8, 0x3bu8, 0x31u8, 0x25u8, 0x3bu8, 0x25u8, 0x3fu8, 0x25u8, 0x70u8, 0x35u8, 0x25u8, 0x74u8, 0x3bu8, 0x32u8, 0x25u8, 0x3bu8, 0x25u8, 0x3fu8, 0x25u8, 0x70u8, 0x32u8, 0x25u8, 0x74u8, 0x3bu8, 0x34u8, 0x25u8, 0x3bu8, 0x25u8, 0x3fu8, 0x25u8, 0x70u8, 0x31u8, 0x25u8, 0x70u8, 0x33u8, 0x25u8, 0x7cu8, 0x25u8, 0x74u8, 0x3bu8, 0x37u8, 0x25u8, 0x3bu8, 0x25u8, 0x3fu8, 0x25u8, 0x70u8, 0x34u8, 0x25u8, 0x74u8, 0x3bu8, 0x35u8, 0x25u8, 0x3bu8, 0x25u8, 0x3fu8, 0x25u8, 0x70u8, 0x37u8, 0x25u8, 0x74u8, 0x3bu8, 0x38u8, 0x25u8, 0x3bu8, 0x6du8]
}

/// `sgr0`: `\e(B\e[m`.
pub open spec fn xterm_sgr0() -> Seq<u8> {
    seq![0x1bu8, 0x28u8, 0x42u8, 0x1bu8, 0x5bu8, 0x6du8]
}

/// `op`: `\e[39;49m`.
pub open spec fn xterm_op() -> Seq<u8> {
    seq![0x1bu8, 0x5bu8, 0x33u8, 0x39u8, 0x3bu8, 0x34u8, 0x39u8, 0x6du8]
}

/// `rmacs`: `\e(B`.
pub open spec fn xterm_rmacs() -> Seq<u8> {
    seq![0x1bu8, 0x28u8, 0x42u8]
}

/// `setaf`: `\e[3%p1%dm`.
pub open spec fn xterm_setaf() -> Seq<u8> {
    seq![0x1bu8, 0x5bu8, 0x33u8, 0x25u8, 0x70u8, 0x31u8, 0x25u8, 0x64u8, 0x6du8]
}

/// `setab`: `\e[4%p1%dm`.
pub open spec fn xterm_setab() -> Seq<u8> {
    seq![0x1bu8, 0x5bu8, 0x34u8, 0x25u8, 0x70u8, 0x31u8, 0x25u8, 0x64u8, 0x6du8]
}

/// A fresh engine with the xterm caps, in the `A_NORMAL` state, colour not yet started.
pub open spec fn new_vid_v(palette: Map<i16, (i16, i16)>) -> VidV {
    VidV {
        prev: 0,
        palette,
        coloron: false,
        sgr: xterm_sgr(),
        sgr0: xterm_sgr0(),
        rmacs: xterm_rmacs(),
        has_sgr: true,
        smacs: seq![],
        e_blink: seq![],
        e_bold: seq![],
        e_dim: seq![],
        e_rev: seq![],
        smso: seq![],
        e_prot: seq![],
        e_invis: seq![],
        smul: seq![],
        rmul: seq![],
        rmso: seq![],
        use_rmul: false,
        use_rmso: false,
        xon: false,
        pad_char: 0,
        setaf: Some(xterm_setaf()),
        setab: Some(xterm_setab()),
        scp: None,
        op: xterm_op(),
        color_toggled: false,
        has_color: true,
        ncv: 0,
    }
}

/// A capability's bytes with padding applied for the terminal.
pub open spec fn pad_v(v: VidV, s: Seq<u8>) -> Seq<u8> {
    apply_padding_spec(s, v.xon, v.pad_char)
}

/// A colour as given to `setaf`/`setab`: interchanged for the non-ANSI `setf`/`setb`.
pub open spec fn cf(v: VidV, c: i16) -> i32 {
    if v.color_toggled {
        toggled_spec(c as int) as i32
    } else {
        c as i32
    }
}

/// `_nc_do_color(pair)`: `set_color_pair` for a non-default pair when present; otherwise
/// `orig_pair` when moving to the default pair, then the foreground and background of the pair
/// (pair 0 is white on black). Nothing without colour support.
pub open spec fn do_color_v(v: VidV, pair: int) -> Seq<u8> {
    if !v.has_color {
        seq![]
    } else if pair != 0 && v.scp is Some {
        pad_v(v, tparm_spec(v.scp.unwrap(), seq![PV::Int(pair as i32)]))
    } else {
        let fb = if pair == 0 { (7i16, 0i16) } else { pair_content_spec(v.palette, pair as i16) };
        (if pair == 0 && v.op.len() > 0 { pad_v(v, v.op) } else { seq![] }) + (match v.setaf {
            Some(t) => pad_v(v, tparm_spec(t, seq![PV::Int(cf(v, fb.0))])),
            None => seq![],
        }) + (match v.setab {
            Some(t) => pad_v(v, tparm_spec(t, seq![PV::Int(cf(v, fb.1))])),
            None => seq![],
        })
    }
}

/// `1` when `mode` has any bit of `m`, else `0`.
pub open spec fn bit(mode: u32, m: u32) -> i32 {
    if mode & m != 0 {
        1
    } else {
        0
    }
}

/// The nine `sgr` parameters of a mode.
pub open spec fn sgr_params_v(mode: u32) -> Seq<PV> {
    seq![
        PV::Int(bit(mode, attrs::STANDOUT)),
        PV::Int(bit(mode, attrs::UNDERLINE)),
        PV::Int(bit(mode, attrs::REVERSE)),
        PV::Int(bit(mode, attrs::BLINK)),
        PV::Int(bit(mode, attrs::DIM)),
        PV::Int(bit(mode, attrs::BOLD)),
        PV::Int(bit(mode, attrs::INVIS)),
        PV::Int(bit(mode, attrs::PROTECT)),
        PV::Int(bit(mode, attrs::ALTCHARSET)),
    ]
}

/// The mode actually requested: masked to the attribute and colour bits, without the
/// `no_color_video` bits while colour is on.
pub open spec fn effective_mode(v: VidV, newmode: u32) -> u32 {
    let n0 = newmode & (ALL_BUT_COLOR | attrs::COLOR);
    if v.coloron {
        n0 & !v.ncv
    } else {
        n0
    }
}

/// The colour pair of a mode.
pub open spec fn pair_of(mode: u32) -> int {
    ((mode & attrs::COLOR) >> 8) as int
}

/// `cap` padded when `cond` holds and the cap exists, else nothing.
pub open spec fn cap_if(v: VidV, cond: bool, cap: Seq<u8>) -> Seq<u8> {
    if cond && cap.len() > 0 {
        pad_v(v, cap)
    } else {
        seq![]
    }
}

/// The transition to `A_NORMAL`: `rmacs` first when leaving the alternate charset, then `sgr0`
/// (or, without it, `rmul`/`rmso`) when attributes remain, then the default pair when colour is
/// on.
pub open spec fn normal_v(v: VidV) -> Seq<u8> {
    let leave_acs = v.prev & attrs::ALTCHARSET != 0 && v.rmacs.len() > 0;
    let p1 = if leave_acs { v.prev & !attrs::ALTCHARSET } else { v.prev };
    (if leave_acs { pad_v(v, v.rmacs) } else { seq![] }) + (if p1 != 0 {
        if v.sgr0.len() > 0 {
            pad_v(v, v.sgr0)
        } else {
            cap_if(v, v.use_rmul && p1 & attrs::UNDERLINE != 0, v.rmul) + cap_if(
                v,
                v.use_rmso && p1 & attrs::STANDOUT != 0,
                v.rmso,
            )
        }
    } else {
        seq![]
    }) + (if v.coloron { do_color_v(v, 0) } else { seq![] })
}

/// The `sgr` transition: `tparm(sgr, mode)` when an attribute bit changes (which resets the
/// colour), then the pair when colour is on and it changed or is the default.
pub open spec fn sgr_path_v(v: VidV, nm: u32) -> Seq<u8> {
    let turn_off = (!nm & v.prev) & ALL_BUT_COLOR;
    let turn_on = (nm & !v.prev) & ALL_BUT_COLOR;
    let changed = turn_on != 0 || turn_off != 0;
    let old_pair = if changed { 0 } else { pair_of(v.prev) };
    let pair = pair_of(nm);
    (if changed { pad_v(v, tparm_spec(v.sgr, sgr_params_v(nm))) } else { seq![] }) + (if v.coloron
        && (pair != old_pair || pair == 0) {
        do_color_v(v, pair)
    } else {
        seq![]
    })
}

/// The turn-off bits left after the individual exits: alternate charset via `rmacs`, underline
/// via `rmul`, standout via `rmso`.
pub open spec fn off_left(v: VidV, nm: u32) -> u32 {
    let t0 = (!nm & v.prev) & ALL_BUT_COLOR;
    let t1 = if t0 & attrs::ALTCHARSET != 0 && v.rmacs.len() > 0 { t0 & !attrs::ALTCHARSET } else { t0 };
    let t2 = if v.use_rmul && t1 & attrs::UNDERLINE != 0 && v.rmul.len() > 0 { t1 & !attrs::UNDERLINE } else { t1 };
    if v.use_rmso && t2 & attrs::STANDOUT != 0 && v.rmso.len() > 0 { t2 & !attrs::STANDOUT } else { t2 }
}

/// The enter caps in the order they are turned on.
pub open spec fn enter_caps(v: VidV) -> Seq<(u32, Seq<u8>)> {
    seq![
        (attrs::ALTCHARSET, v.smacs),
        (attrs::BLINK, v.e_blink),
        (attrs::BOLD, v.e_bold),
        (attrs::DIM, v.e_dim),
        (attrs::REVERSE, v.e_rev),
        (attrs::STANDOUT, v.smso),
        (attrs::PROTECT, v.e_prot),
        (attrs::INVIS, v.e_invis),
        (attrs::UNDERLINE, v.smul),
    ]
}

/// The enter caps from index `k` on whose bit is in `on`.
pub open spec fn turn_on_v(v: VidV, on: u32, k: int) -> Seq<u8>
    decreases 9 - k,
{
    if k >= 9 || k < 0 {
        seq![]
    } else {
        cap_if(v, on & enter_caps(v)[k].0 != 0, enter_caps(v)[k].1) + turn_on_v(v, on, k + 1)
    }
}

/// The transition without `sgr`: individual exits, a full `sgr0` reset when other bits must go
/// (after which every bit of the mode is turned on again), the pair, then the enter caps.
pub open spec fn indiv_path_v(v: VidV, nm: u32) -> Seq<u8> {
    let t0 = (!nm & v.prev) & ALL_BUT_COLOR;
    let t1 = if t0 & attrs::ALTCHARSET != 0 && v.rmacs.len() > 0 { t0 & !attrs::ALTCHARSET } else { t0 };
    let t2 = if v.use_rmul && t1 & attrs::UNDERLINE != 0 && v.rmul.len() > 0 { t1 & !attrs::UNDERLINE } else { t1 };
    let left = off_left(v, nm);
    let reset = left != 0 && v.sgr0.len() > 0;
    let on0 = (nm & !v.prev) & ALL_BUT_COLOR;
    let on = if reset { on0 | (nm & ALL_BUT_COLOR) } else { on0 };
    let old_pair = if reset { 0 } else { pair_of(v.prev) };
    let pair = pair_of(nm);
    cap_if(v, t0 & attrs::ALTCHARSET != 0, v.rmacs) + cap_if(v, v.use_rmul && t1 & attrs::UNDERLINE != 0, v.rmul)
        + cap_if(v, v.use_rmso && t2 & attrs::STANDOUT != 0, v.rmso) + (if reset { pad_v(v, v.sgr0) } else { seq![] })
        + (if v.coloron && (pair != old_pair || pair == 0) { do_color_v(v, pair) } else { seq![] })
        + turn_on_v(v, on, 0)
}

/// `vidputs(newmode)`: the bytes that move the terminal from the current state to the
/// effective mode; nothing when it is unchanged.
pub open spec fn set_v(v: VidV, newmode: u32) -> Seq<u8> {
    let nm = effective_mode(v, newmode);
    if nm == v.prev {
        seq![]
    } else if nm == 0 {
        normal_v(v)
    } else if v.has_sgr {
        sgr_path_v(v, nm)
    } else {
        indiv_path_v(v, nm)
    }
}

fn to_vec(s: &[u8]) -> (v: Vec<u8>)
    ensures
        v@ == s@,
{
    let mut v: Vec<u8> = Vec::new();
    push_bytes(&mut v, s);
    assert(v@ =~= s@);
    v
}

fn opt_to_vec(o: Option<&[u8]>) -> (r: Option<Vec<u8>>)
    ensures
        opt_v(r) == (match o {
            Some(s) => Some(s@),
            None => None::<Seq<u8>>,
        }),
{
    match o {
        Some(s) => Some(to_vec(s)),
        None => None,
    }
}

fn or_empty(o: Option<&[u8]>) -> (r: Vec<u8>)
    ensures
        r@ == (match o {
            Some(s) => s@,
            None => Seq::<u8>::empty(),
        }),
{
    match o {
        Some(s) => to_vec(s),
        None => Vec::new(),
    }
}

/// Whether two byte strings are equal.
pub fn bytes_eq(a: &[u8], b: &[u8]) -> (r: bool)
    ensures
        r == (a@ == b@),
{
    if a.len() != b.len() {
        return false;
    }
    let mut i: usize = 0;
    while i < a.len()
        invariant
            i <= a@.len(),
            a@.len() == b@.len(),
            forall|k: int| 0 <= k < i ==> a@[k] == b@[k],
        decreases a@.len() - i,
    {
        if a[i] != b[i] {
            return false;
        }
        i = i + 1;
    }
    assert(a@ =~= b@);
    true
}

impl Vid {
    /// The engine's palette is well formed.
    pub open spec fn wf(&self) -> bool {
        forall|k: i16| #[trigger] self@.palette.contains_key(k) ==> k >= 1
    }

    /// A fresh engine in the `A_NORMAL` state with the given palette and the xterm caps; colour is
    /// off until [`Vid::start_color`].
    pub fn new(palette: Palette) -> (v: Vid)
        requires
            palette.wf(),
        ensures
            v@ == new_vid_v(palette@),
            v.wf(),
    {
        let sgr: &[u8] = &[0x25u8, 0x3fu8, 0x25u8, 0x70u8, 0x39u8, 0x25u8, 0x74u8, 0x1bu8, 0x28u8, 0x30u8, 0x25u8, 0x65u8, 0x1bu8, 0x28u8, 0x42u8, 0x25u8, 0x3bu8, 0x1bu8, 0x5bu8, 0x30u8, 0x25u8, 0x3fu8, 0x25u8, 0x70u8, 0x36u8, 0x25u8, 0x74u8, 0x3bu8, 0x31u8, 0x25u8, 0x3bu8, 0x25u8, 0x3fu8, 0x25u8, 0x70u8, 0x35u8, 0x25u8, 0x74u8, 0x3bu8, 0x32u8, 0x25u8, 0x3bu8, 0x25u8, 0x3fu8, 0x25u8, 0x70u8, 0x32u8, 0x25u8, 0x74u8, 0x3bu8, 0x34u8, 0x25u8, 0x3bu8, 0x25u8, 0x3fu8, 0x25u8, 0x70u8, 0x31u8, 0x25u8, 0x70u8, 0x33u8, 0x25u8, 0x7cu8, 0x25u8, 0x74u8, 0x3bu8, 0x37u8, 0x25u8, 0x3bu8, 0x25u8, 0x3fu8, 0x25u8, 0x70u8, 0x34u8, 0x25u8, 0x74u8, 0x3bu8, 0x35u8, 0x25u8, 0x3bu8, 0x25u8, 0x3fu8, 0x25u8, 0x70u8, 0x37u8, 0x25u8, 0x74u8, 0x3bu8, 0x38u8, 0x25u8, 0x3bu8, 0x6du8];
        let sgr0: &[u8] = &[0x1bu8, 0x28u8, 0x42u8, 0x1bu8, 0x5bu8, 0x6du8];
        let rmacs: &[u8] = &[0x1bu8, 0x28u8, 0x42u8];
        let setaf: &[u8] = &[0x1bu8, 0x5bu8, 0x33u8, 0x25u8, 0x70u8, 0x31u8, 0x25u8, 0x64u8, 0x6du8];
        let setab: &[u8] = &[0x1bu8, 0x5bu8, 0x34u8, 0x25u8, 0x70u8, 0x31u8, 0x25u8, 0x64u8, 0x6du8];
        let op: &[u8] = &[0x1bu8, 0x5bu8, 0x33u8, 0x39u8, 0x3bu8, 0x34u8, 0x39u8, 0x6du8];
        Vid {
            prev: 0,
            palette,
            coloron: false,
            sgr: to_vec(sgr),
            sgr0: to_vec(sgr0),
            rmacs: to_vec(rmacs),
            has_sgr: true,
            smacs: Vec::new(),
            e_blink: Vec::new(),
            e_bold: Vec::new(),
            e_dim: Vec::new(),
            e_rev: Vec::new(),
            smso: Vec::new(),
            e_prot: Vec::new(),
            e_invis: Vec::new(),
            smul: Vec::new(),
            rmul: Vec::new(),
            rmso: Vec::new(),
            use_rmul: false,
            use_rmso: false,
            xon: false,
            pad_char: 0,
            setaf: Some(to_vec(setaf)),
            setab: Some(to_vec(setab)),
            scp: None,
            op: to_vec(op),
            color_toggled: false,
            has_color: true,
            ncv: 0,
        }
    }

    /// Set the colour caps: the foreground/background templates (`setaf`/`setab`, or
    /// `setf`/`setb` with `toggled`), `set_color_pair`, `orig_pair` (absent: empty), and whether
    /// the terminal has colour at all.
    pub fn set_color_caps(
        &mut self,
        setaf: Option<&[u8]>,
        setab: Option<&[u8]>,
        scp: Option<&[u8]>,
        op: Option<&[u8]>,
        toggled: bool,
        has_color: bool,
    )
        requires
            old(self).wf(),
        ensures
            final(self)@ == (VidV {
                setaf: match setaf { Some(s) => Some(s@), None => None },
                setab: match setab { Some(s) => Some(s@), None => None },
                scp: match scp { Some(s) => Some(s@), None => None },
                op: match op { Some(s) => s@, None => Seq::empty() },
                color_toggled: toggled,
                has_color,
                ..old(self)@
            }),
            final(self).wf(),
    {
        self.setaf = opt_to_vec(setaf);
        self.setab = opt_to_vec(setab);
        self.scp = opt_to_vec(scp);
        self.op = or_empty(op);
        self.color_toggled = toggled;
        self.has_color = has_color;
    }

    /// Set the individual mode caps (`[smacs, blink, bold, dim, rev, smso, prot, invis, smul]`,
    /// absent: empty), `rmul`/`rmso`, whether `sgr` exists, and the padding parameters. An
    /// individual exit is used only when it exists and differs from `sgr0`.
    pub fn set_mode_caps(
        &mut self,
        has_sgr: bool,
        enter: [Option<&[u8]>; 9],
        rmul: Option<&[u8]>,
        rmso: Option<&[u8]>,
        xon: bool,
        pad_char: u8,
    )
        requires
            old(self).wf(),
        ensures
            final(self)@ == (VidV {
                has_sgr,
                smacs: or_empty_v(enter[0]),
                e_blink: or_empty_v(enter[1]),
                e_bold: or_empty_v(enter[2]),
                e_dim: or_empty_v(enter[3]),
                e_rev: or_empty_v(enter[4]),
                smso: or_empty_v(enter[5]),
                e_prot: or_empty_v(enter[6]),
                e_invis: or_empty_v(enter[7]),
                smul: or_empty_v(enter[8]),
                rmul: or_empty_v(rmul),
                rmso: or_empty_v(rmso),
                use_rmul: differs(or_empty_v(rmul), old(self)@.sgr0),
                use_rmso: differs(or_empty_v(rmso), old(self)@.sgr0),
                xon,
                pad_char,
                ..old(self)@
            }),
            final(self).wf(),
    {
        self.has_sgr = has_sgr;
        self.smacs = or_empty(enter[0]);
        self.e_blink = or_empty(enter[1]);
        self.e_bold = or_empty(enter[2]);
        self.e_dim = or_empty(enter[3]);
        self.e_rev = or_empty(enter[4]);
        self.smso = or_empty(enter[5]);
        self.e_prot = or_empty(enter[6]);
        self.e_invis = or_empty(enter[7]);
        self.smul = or_empty(enter[8]);
        self.rmul = or_empty(rmul);
        self.rmso = or_empty(rmso);
        self.xon = xon;
        self.pad_char = pad_char;
        self.use_rmul = self.rmul.len() > 0 && (self.sgr0.len() == 0 || !bytes_eq(
            self.rmul.as_slice(),
            self.sgr0.as_slice(),
        ));
        self.use_rmso = self.rmso.len() > 0 && (self.sgr0.len() == 0 || !bytes_eq(
            self.rmso.as_slice(),
            self.sgr0.as_slice(),
        ));
    }

    /// Set the `no_color_video` mask (attribute bits suppressed while colour is on).
    pub fn set_ncv(&mut self, ncv: u32)
        requires
            old(self).wf(),
        ensures
            final(self)@ == (VidV { ncv, ..old(self)@ }),
            final(self).wf(),
    {
        self.ncv = ncv;
    }

    /// Override the attribute caps (`sgr`, `sgr0`, `rmacs`) for another terminal.
    pub fn set_attr_caps(&mut self, sgr: &[u8], sgr0: &[u8], rmacs: &[u8])
        requires
            old(self).wf(),
        ensures
            final(self)@ == (VidV { sgr: sgr@, sgr0: sgr0@, rmacs: rmacs@, ..old(self)@ }),
            final(self).wf(),
    {
        self.sgr = to_vec(sgr);
        self.sgr0 = to_vec(sgr0);
        self.rmacs = to_vec(rmacs);
    }

    /// `start_color()`: enable colour processing.
    pub fn start_color(&mut self)
        requires
            old(self).wf(),
        ensures
            final(self)@ == (VidV { coloron: true, ..old(self)@ }),
            final(self).wf(),
    {
        self.coloron = true;
    }

    /// The current attribute and colour state.
    pub fn current(&self) -> (r: u32)
        ensures
            r == self@.prev,
    {
        self.prev
    }

    /// Whether colour is active (started and supported).
    pub fn color_active(&self) -> (r: bool)
        ensures
            r == (self@.coloron && self@.has_color),
    {
        self.coloron && self.has_color
    }

    /// Define colour pair `pair` as `(fg, bg)` in the palette; refused for `pair < 1`.
    pub fn init_pair(&mut self, pair: i16, fg: i16, bg: i16) -> (ok: bool)
        requires
            old(self).wf(),
        ensures
            ok == (pair >= 1),
            ok ==> final(self)@ == (VidV { palette: old(self)@.palette.insert(pair, (fg, bg)), ..old(self)@ }),
            !ok ==> final(self)@ == old(self)@,
            final(self).wf(),
    {
        proof {
            assert(self.palette.wf());
        }
        self.palette.init_pair(pair, fg, bg)
    }

    /// The colour initialisation before a clear: the default pair when colour is active, else
    /// nothing.
    pub fn color_init_default(&self) -> (r: Vec<u8>)
        ensures
            r@ == (if self@.coloron && self@.has_color { do_color_v(self@, 0) } else { seq![] }),
    {
        if self.coloron && self.has_color {
            self.do_color(0)
        } else {
            Vec::new()
        }
    }

    fn pad(&self, s: &[u8]) -> (r: Vec<u8>)
        ensures
            r@ == pad_v(self@, s@),
    {
        apply_padding(s, self.xon, self.pad_char)
    }

    fn cf(&self, c: i16) -> (r: i32)
        ensures
            r == cf(self@, c),
    {
        if self.color_toggled {
            toggled_colors(c as i32)
        } else {
            c as i32
        }
    }

    fn do_color(&self, pair: i32) -> (r: Vec<u8>)
        requires
            0 <= pair <= 255,
        ensures
            r@ == do_color_v(self@, pair as int),
    {
        if !self.has_color {
            return Vec::new();
        }
        if pair != 0 {
            match &self.scp {
                Some(scp) => {
                    let params: &[i32] = &[pair];
                    assert(params@.map_values(|v: i32| PV::Int(v)) =~= seq![PV::Int(pair)]);
                    let e = tparm_n(scp.as_slice(), params);
                    return self.pad(e.as_slice());
                },
                None => {},
            }
        }
        let (fg, bg) = if pair == 0 {
            (7i16, 0i16)
        } else {
            self.palette.pair_content(pair as i16)
        };
        let mut out: Vec<u8> = Vec::new();
        if pair == 0 && self.op.len() > 0 {
            let o = self.pad(self.op.as_slice());
            push_bytes(&mut out, o.as_slice());
        }
        match &self.setaf {
            Some(t) => {
                let params: &[i32] = &[self.cf(fg)];
                assert(params@.map_values(|v: i32| PV::Int(v)) =~= seq![PV::Int(cf(self@, fg))]);
                let e = tparm_n(t.as_slice(), params);
                let o = self.pad(e.as_slice());
                push_bytes(&mut out, o.as_slice());
            },
            None => {},
        }
        match &self.setab {
            Some(t) => {
                let params: &[i32] = &[self.cf(bg)];
                assert(params@.map_values(|v: i32| PV::Int(v)) =~= seq![PV::Int(cf(self@, bg))]);
                let e = tparm_n(t.as_slice(), params);
                let o = self.pad(e.as_slice());
                push_bytes(&mut out, o.as_slice());
            },
            None => {},
        }
        assert(out@ =~= do_color_v(self@, pair as int));
        out
    }
}

/// An optional cap's bytes, empty when absent.
pub open spec fn or_empty_v(o: Option<&[u8]>) -> Seq<u8> {
    match o {
        Some(s) => s@,
        None => Seq::empty(),
    }
}

/// An individual exit cap is used when it exists and differs from `sgr0`.
pub open spec fn differs(c: Seq<u8>, sgr0: Seq<u8>) -> bool {
    c.len() > 0 && (sgr0.len() == 0 || c != sgr0)
}

fn sgr_params(mode: u32) -> (r: Vec<i32>)
    ensures
        r@.map_values(|v: i32| PV::Int(v)) == sgr_params_v(mode),
{
    let b = |m: u32| -> (o: i32)
        ensures
            o == bit(mode, m),
        {
            if mode & m != 0 {
                1i32
            } else {
                0i32
            }
        };
    let r = vec![
        b(attrs::STANDOUT),
        b(attrs::UNDERLINE),
        b(attrs::REVERSE),
        b(attrs::BLINK),
        b(attrs::DIM),
        b(attrs::BOLD),
        b(attrs::INVIS),
        b(attrs::PROTECT),
        b(attrs::ALTCHARSET),
    ];
    assert(r@.map_values(|v: i32| PV::Int(v)) =~= sgr_params_v(mode));
    r
}

impl Vid {
    fn cap_if(&self, cond: bool, cap: &[u8]) -> (r: Vec<u8>)
        ensures
            r@ == cap_if(self@, cond, cap@),
    {
        if cond && cap.len() > 0 {
            self.pad(cap)
        } else {
            Vec::new()
        }
    }

    fn normal(&self) -> (r: Vec<u8>)
        ensures
            r@ == normal_v(self@),
    {
        let mut out: Vec<u8> = Vec::new();
        let leave_acs = self.prev & attrs::ALTCHARSET != 0 && self.rmacs.len() > 0;
        let p1 = if leave_acs {
            let o = self.pad(self.rmacs.as_slice());
            push_bytes(&mut out, o.as_slice());
            self.prev & !attrs::ALTCHARSET
        } else {
            self.prev
        };
        if p1 != 0 {
            if self.sgr0.len() > 0 {
                let o = self.pad(self.sgr0.as_slice());
                push_bytes(&mut out, o.as_slice());
            } else {
                let a = self.cap_if(self.use_rmul && p1 & attrs::UNDERLINE != 0, self.rmul.as_slice());
                push_bytes(&mut out, a.as_slice());
                let b = self.cap_if(self.use_rmso && p1 & attrs::STANDOUT != 0, self.rmso.as_slice());
                push_bytes(&mut out, b.as_slice());
            }
        }
        if self.coloron {
            let c = self.do_color(0);
            push_bytes(&mut out, c.as_slice());
        }
        assert(out@ =~= normal_v(self@));
        out
    }

    fn sgr_path(&self, nm: u32) -> (r: Vec<u8>)
        ensures
            r@ == sgr_path_v(self@, nm),
    {
        let turn_off = (!nm & self.prev) & ALL_BUT_COLOR;
        let turn_on = (nm & !self.prev) & ALL_BUT_COLOR;
        let changed = turn_on != 0 || turn_off != 0;
        let mut out: Vec<u8> = Vec::new();
        if changed {
            let p = sgr_params(nm);
            let e = tparm_n(self.sgr.as_slice(), p.as_slice());
            let o = self.pad(e.as_slice());
            push_bytes(&mut out, o.as_slice());
        }
        let old_pair: u32 = if changed {
            0
        } else {
            (self.prev & attrs::COLOR) >> 8
        };
        let pair: u32 = (nm & attrs::COLOR) >> 8;
        assert(pair <= 255) by (bit_vector)
            requires
                pair == (nm & 0xff00u32) >> 8u32,
        ;
        if self.coloron && (pair != old_pair || pair == 0) {
            let c = self.do_color(pair as i32);
            push_bytes(&mut out, c.as_slice());
        }
        assert(out@ =~= sgr_path_v(self@, nm));
        out
    }

    fn turn_on(&self, on: u32) -> (r: Vec<u8>)
        ensures
            r@ == turn_on_v(self@, on, 0),
    {
        let ghost v = self@;
        let caps: [(u32, &[u8]); 9] = [
            (attrs::ALTCHARSET, self.smacs.as_slice()),
            (attrs::BLINK, self.e_blink.as_slice()),
            (attrs::BOLD, self.e_bold.as_slice()),
            (attrs::DIM, self.e_dim.as_slice()),
            (attrs::REVERSE, self.e_rev.as_slice()),
            (attrs::STANDOUT, self.smso.as_slice()),
            (attrs::PROTECT, self.e_prot.as_slice()),
            (attrs::INVIS, self.e_invis.as_slice()),
            (attrs::UNDERLINE, self.smul.as_slice()),
        ];
        assert(forall|k: int| 0 <= k < 9 ==> caps@[k].0 == enter_caps(v)[k].0 && caps@[k].1@ == enter_caps(v)[k].1);
        let mut out: Vec<u8> = Vec::new();
        let mut k: usize = 0;
        while k < 9
            invariant
                k <= 9,
                v == self@,
                forall|j: int| 0 <= j < 9 ==> caps@[j].0 == enter_caps(v)[j].0 && caps@[j].1@ == enter_caps(v)[j].1,
                out@ + turn_on_v(v, on, k as int) == turn_on_v(v, on, 0),
            decreases 9 - k,
        {
            let (mask, cap) = caps[k];
            let o = self.cap_if(on & mask != 0, cap);
            let ghost before = out@;
            push_bytes(&mut out, o.as_slice());
            k = k + 1;
            assert(out@ + turn_on_v(v, on, k as int) =~= before + turn_on_v(v, on, (k - 1) as int));
        }
        assert(out@ =~= turn_on_v(v, on, 0));
        out
    }

    fn indiv_path(&self, nm: u32) -> (r: Vec<u8>)
        ensures
            r@ == indiv_path_v(self@, nm),
    {
        let t0 = (!nm & self.prev) & ALL_BUT_COLOR;
        let t1 = if t0 & attrs::ALTCHARSET != 0 && self.rmacs.len() > 0 {
            t0 & !attrs::ALTCHARSET
        } else {
            t0
        };
        let t2 = if self.use_rmul && t1 & attrs::UNDERLINE != 0 && self.rmul.len() > 0 {
            t1 & !attrs::UNDERLINE
        } else {
            t1
        };
        let left = if self.use_rmso && t2 & attrs::STANDOUT != 0 && self.rmso.len() > 0 {
            t2 & !attrs::STANDOUT
        } else {
            t2
        };
        let mut out: Vec<u8> = Vec::new();
        let a = self.cap_if(t0 & attrs::ALTCHARSET != 0, self.rmacs.as_slice());
        push_bytes(&mut out, a.as_slice());
        let b = self.cap_if(self.use_rmul && t1 & attrs::UNDERLINE != 0, self.rmul.as_slice());
        push_bytes(&mut out, b.as_slice());
        let c = self.cap_if(self.use_rmso && t2 & attrs::STANDOUT != 0, self.rmso.as_slice());
        push_bytes(&mut out, c.as_slice());
        let reset = left != 0 && self.sgr0.len() > 0;
        if reset {
            let o = self.pad(self.sgr0.as_slice());
            push_bytes(&mut out, o.as_slice());
        }
        let on0 = (nm & !self.prev) & ALL_BUT_COLOR;
        let on = if reset {
            on0 | (nm & ALL_BUT_COLOR)
        } else {
            on0
        };
        let old_pair: u32 = if reset {
            0
        } else {
            (self.prev & attrs::COLOR) >> 8
        };
        let pair: u32 = (nm & attrs::COLOR) >> 8;
        assert(pair <= 255) by (bit_vector)
            requires
                pair == (nm & 0xff00u32) >> 8u32,
        ;
        if self.coloron && (pair != old_pair || pair == 0) {
            let d = self.do_color(pair as i32);
            push_bytes(&mut out, d.as_slice());
        }
        let e = self.turn_on(on);
        push_bytes(&mut out, e.as_slice());
        assert(out@ =~= indiv_path_v(self@, nm));
        out
    }

    /// `vidputs(newmode)`: emit the bytes that move the terminal from the current state to
    /// `newmode` (attribute bits, pair in `0xff00`) and record it as current; nothing when the
    /// state is unchanged.
    pub fn set(&mut self, newmode: u32) -> (out: Vec<u8>)
        requires
            old(self).wf(),
        ensures
            out@ == set_v(old(self)@, newmode),
            final(self)@ == (VidV { prev: effective_mode(old(self)@, newmode), ..old(self)@ }),
            final(self).wf(),
    {
        let n0 = newmode & (ALL_BUT_COLOR | attrs::COLOR);
        let nm = if self.coloron {
            n0 & !self.ncv
        } else {
            n0
        };
        if nm == self.prev {
            return Vec::new();
        }
        let out = if nm == 0 {
            self.normal()
        } else if self.has_sgr {
            self.sgr_path(nm)
        } else {
            self.indiv_path(nm)
        };
        self.prev = nm;
        out
    }
}

} // verus!
