//! The screen-update optimizer (`doupdate`): it diffs the physical screen (`curscr`) against the
//! desired one and emits the bytes that make the terminal match, reusing the cursor-motion
//! optimizer between spans, the SGR engine for attributes, erase and insert/delete-character
//! caps, repeat/erase run-coalescing, and hardware scrolling for vertically shifted bands.
//!
//! The physical screen is modelled as a grid of rows; every update leaves that model equal to
//! the desired screen, and an update that finds nothing to change emits nothing.

use vstd::prelude::*;
use crate::color::Palette;
use crate::cursor::caps::CapsV;
use crate::cursor::{apply_padding, apply_padding_spec, mvcur_ovw_caps, normalized_cost, Caps};
use crate::fmt::{dec, push_bytes, push_dec};
use crate::terminfo::tparm::{tparm_n, tparm_spec, PV};
use crate::vid::{effective_mode, set_v, Vid, VidV};
use crate::window::{attrs, blank, char_width, char_width_v, plain_v, Cell, NO_COMB};

mod line;
mod paint;
mod refresh;
mod emit;
mod scroll;
pub use scroll::shift_v;
mod setup;
mod config;
mod prim;
mod bits;
mod init;
pub use bits::{can_clear_with, csi1, identity_acsc, ncv_to_attr, push_ch, set_scroll_region};

verus! {

/// `el1` (`\e[1K`) normalized cost on xterm.
pub const EL1_COST: i32 = 4;

/// Cost of an absent erase cap: larger than any span, so no comparison ever picks it.
pub const ABSENT_COST: i32 = 536870911;

/// `erase_chars` cost on xterm (`\e[23X`).
pub const ECH_COST: i32 = 5;

/// `cursor_address` per-move cost on xterm (`\e[24;24H`).
pub const CUP_CH_COST: i32 = 8;

/// The run of already-correct cells worth skipping with a move rather than rewriting.
pub const INLINE_COST: i32 = 5;

/// `parm_ich` cost on xterm.
pub const ICH_COST: i32 = 5;

/// `parm_dch` cost on xterm.
pub const DCH_COST: i32 = 5;

/// `repeat_char` cost on xterm (`' '` then `\e[22b`).
pub const REP_COST: i32 = 6;

/// All non-colour attribute bits.
pub const ATTR_BITS: u32 = attrs::STANDOUT | attrs::UNDERLINE | attrs::REVERSE | attrs::BLINK
    | attrs::DIM | attrs::BOLD | attrs::INVIS | attrs::PROTECT | attrs::ALTCHARSET;

/// Whether a blank cell can be produced by an erase: a space with no attribute other than its
/// colour (the terminal erases with the current background).
pub open spec fn clearable(c: Cell) -> bool {
    c.ch == ' ' && c.attr & !attrs::COLOR == 0
}


/// The attribute bits selected by a terminfo `ncv` mask (terminfo numbers standout, underline,
/// reverse, blink, dim, bold, invisible, protect and alternate charset as bits 0 to 8).
pub open spec fn ncv_attr_v(ncv: u32) -> u32 {
    (if ncv & 1 != 0 { attrs::STANDOUT } else { 0 }) | (if ncv & 2 != 0 { attrs::UNDERLINE } else { 0 })
        | (if ncv & 4 != 0 { attrs::REVERSE } else { 0 }) | (if ncv & 8 != 0 { attrs::BLINK } else { 0 })
        | (if ncv & 16 != 0 { attrs::DIM } else { 0 }) | (if ncv & 32 != 0 { attrs::BOLD } else { 0 })
        | (if ncv & 64 != 0 { attrs::INVIS } else { 0 }) | (if ncv & 128 != 0 { attrs::PROTECT } else { 0 })
        | (if ncv & 256 != 0 { attrs::ALTCHARSET } else { 0 })
}


/// The identity glyph map: every alternate-charset byte stands for itself.
pub open spec fn identity_acsc_v() -> Seq<u8> {
    Seq::new(128, |i: int| i as u8)
}


/// `acsc` pairs applied over the identity map, pair by pair from byte `i` on.
pub open spec fn acsc_from(m: Seq<u8>, pairs: Seq<u8>, i: int) -> Seq<u8>
    decreases pairs.len() - i,
{
    if i < 0 || i + 1 >= pairs.len() {
        m
    } else {
        let m2 = if pairs[i] < 128 { m.update(pairs[i] as int, pairs[i + 1]) } else { m };
        acsc_from(m2, pairs, i + 2)
    }
}

/// The UTF-8 bytes of a character.
pub open spec fn utf8_of(c: char) -> Seq<u8> {
    vstd::utf8::encode_scalar(c as u32)
}


/// `CSI n final`: the bytes of a one-parameter control sequence.
pub open spec fn csi1_v(n: int, fin: u8) -> Seq<u8> {
    seq![0x1bu8, 0x5bu8] + dec(n) + seq![fin]
}


/// `change_scroll_region` to the 0-based inclusive rows `[top, bot]`.
pub open spec fn csr_v(top: int, bot: int) -> Seq<u8> {
    seq![0x1bu8, 0x5bu8] + dec(top + 1) + seq![0x3bu8] + dec(bot + 1) + seq![0x72u8]
}


/// The model of a [`Screen`]'s terminal caps.
pub struct TermV {
    pub clear_seq: Seq<u8>,
    pub el_seq: Seq<u8>,
    pub el1_seq: Seq<u8>,
    pub ed_seq: Seq<u8>,
    pub has_rep: bool,
    pub el_cost: i32,
    pub el1_cost: i32,
    pub has_ech: bool,
    pub has_idc: bool,
    pub ech_seq: Seq<u8>,
    pub ech_cost: i32,
    pub rep_seq: Seq<u8>,
    pub rep_cost: i32,
    pub cup_ch_cost: i32,
    pub xon: bool,
    pub pad_char: u8,
    pub msgr: bool,
    pub bce: bool,
    pub am: bool,
    pub xenl: bool,
    pub smam: Seq<u8>,
    pub rmam: Seq<u8>,
    pub ich1: Seq<u8>,
    pub ich: Seq<u8>,
    pub smir: Seq<u8>,
    pub rmir: Seq<u8>,
    pub ip: Seq<u8>,
    pub acsc: Seq<u8>,
}

/// The terminal caps the optimizer shapes its output with.
#[derive(Debug, Clone)]
struct Term {
    clear_seq: Vec<u8>,
    el_seq: Vec<u8>,
    el1_seq: Vec<u8>,
    ed_seq: Vec<u8>,
    has_rep: bool,
    el_cost: i32,
    el1_cost: i32,
    has_ech: bool,
    has_idc: bool,
    ech_seq: Vec<u8>,
    ech_cost: i32,
    rep_seq: Vec<u8>,
    rep_cost: i32,
    cup_ch_cost: i32,
    xon: bool,
    pad_char: u8,
    msgr: bool,
    bce: bool,
    am: bool,
    xenl: bool,
    smam: Vec<u8>,
    rmam: Vec<u8>,
    ich1: Vec<u8>,
    ich: Vec<u8>,
    smir: Vec<u8>,
    rmir: Vec<u8>,
    ip: Vec<u8>,
    acsc: Vec<u8>,
}

impl View for Term {
    type V = TermV;

    closed spec fn view(&self) -> TermV {
        TermV {
            clear_seq: self.clear_seq@,
            el_seq: self.el_seq@,
            el1_seq: self.el1_seq@,
            ed_seq: self.ed_seq@,
            has_rep: self.has_rep,
            el_cost: self.el_cost,
            el1_cost: self.el1_cost,
            has_ech: self.has_ech,
            has_idc: self.has_idc,
            ech_seq: self.ech_seq@,
            ech_cost: self.ech_cost,
            rep_seq: self.rep_seq@,
            rep_cost: self.rep_cost,
            cup_ch_cost: self.cup_ch_cost,
            xon: self.xon,
            pad_char: self.pad_char,
            msgr: self.msgr,
            bce: self.bce,
            am: self.am,
            xenl: self.xenl,
            smam: self.smam@,
            rmam: self.rmam@,
            ich1: self.ich1@,
            ich: self.ich@,
            smir: self.smir@,
            rmir: self.rmir@,
            ip: self.ip@,
            acsc: self.acsc@,
        }
    }
}

/// `clear_screen` on xterm.
pub open spec fn xterm_clear() -> Seq<u8> {
    seq![0x1bu8, 0x5bu8, 0x48u8, 0x1bu8, 0x5bu8, 0x32u8, 0x4au8]
}

/// `clr_eol` on xterm.
pub open spec fn xterm_el() -> Seq<u8> {
    seq![0x1bu8, 0x5bu8, 0x4bu8]
}

/// `clr_bol` on xterm.
pub open spec fn xterm_el1() -> Seq<u8> {
    seq![0x1bu8, 0x5bu8, 0x31u8, 0x4bu8]
}

/// `clr_eos` on xterm.
pub open spec fn xterm_ed() -> Seq<u8> {
    seq![0x1bu8, 0x5bu8, 0x4au8]
}

/// `erase_chars` on xterm.
pub open spec fn xterm_ech() -> Seq<u8> {
    seq![0x1bu8, 0x5bu8, 0x25u8, 0x70u8, 0x31u8, 0x25u8, 0x64u8, 0x58u8]
}

/// `repeat_char` on xterm.
pub open spec fn xterm_rep() -> Seq<u8> {
    seq![0x25u8, 0x70u8, 0x31u8, 0x25u8, 0x63u8, 0x1bu8, 0x5bu8, 0x25u8, 0x70u8, 0x32u8, 0x25u8, 0x7bu8, 0x31u8, 0x7du8, 0x25u8, 0x2du8, 0x25u8, 0x64u8, 0x62u8]
}

/// The xterm caps a fresh [`Screen`] starts with.
pub open spec fn xterm_term_v() -> TermV {
    TermV {
        clear_seq: xterm_clear(),
        el_seq: xterm_el(),
        el1_seq: xterm_el1(),
        ed_seq: xterm_ed(),
        has_rep: true,
        el_cost: 0,
        el1_cost: EL1_COST,
        has_ech: true,
        has_idc: true,
        ech_seq: xterm_ech(),
        ech_cost: ECH_COST,
        rep_seq: xterm_rep(),
        rep_cost: REP_COST,
        cup_ch_cost: CUP_CH_COST,
        xon: false,
        pad_char: 0,
        msgr: true,
        bce: true,
        am: true,
        xenl: true,
        smam: seq![],
        rmam: seq![],
        ich1: seq![],
        ich: seq![],
        smir: seq![],
        rmir: seq![],
        ip: seq![],
        acsc: identity_acsc_v(),
    }
}

fn to_vec(s: &[u8]) -> (v: Vec<u8>)
    ensures
        v@ == s@,
{
    let mut v: Vec<u8> = Vec::new();
    push_bytes(&mut v, s);
    v
}


/// The model of a [`Screen`]: its size, the physical screen row by row, the physical cursor
/// (`-1` where unknown), whether the next update repaints from scratch, `leaveok`, the SGR
/// engine, the cursor-motion profile and the terminal caps.
pub struct ScreenV {
    pub rows: int,
    pub cols: int,
    pub cur: Seq<Seq<Cell>>,
    pub cursrow: int,
    pub curscol: int,
    pub cleared: bool,
    pub leaveok: bool,
    pub vid: VidV,
    pub caps: CapsV,
    pub term: TermV,
}

/// The physical screen model: `curscr`, the physical cursor and the terminal's caps. A fresh
/// screen is garbaged with the cursor unknown, so the first [`Screen::doupdate`] repaints from
/// scratch; each later one emits only what changed.
#[derive(Debug, Clone)]
pub struct Screen {
    rows: i32,
    cols: i32,
    cur: Vec<Vec<Cell>>,
    cursrow: i32,
    curscol: i64,
    cleared: bool,
    leaveok: bool,
    vid: Vid,
    caps: Caps,
    t: Term,
    /// The attribute mode the terminal was in before the last attribute change.
    sgr_from: u32,
}

impl Screen {
    /// The attribute mode the terminal was in before the last attribute change this screen
    /// made.
    pub closed spec fn reset_from(&self) -> u32 {
        self.sgr_from
    }
}

impl View for Screen {
    type V = ScreenV;

    closed spec fn view(&self) -> ScreenV {
        ScreenV {
            rows: self.rows as int,
            cols: self.cols as int,
            cur: Seq::new(self.cur@.len(), |r: int| self.cur@[r]@),
            cursrow: self.cursrow as int,
            curscol: self.curscol as int,
            cleared: self.cleared,
            leaveok: self.leaveok,
            vid: self.vid@,
            caps: self.caps@,
            term: self.t@,
        }
    }
}

/// A grid of `rows` rows of `cols` copies of `c`.
pub open spec fn filled(rows: int, cols: int, c: Cell) -> Seq<Seq<Cell>> {
    Seq::new(rows as nat, |r: int| Seq::new(cols as nat, |x: int| c))
}

/// A flat row-major cell list cut into rows of `cols` cells.
pub open spec fn grid_of(cells: Seq<Cell>, rows: int, cols: int) -> Seq<Seq<Cell>> {
    Seq::new(rows as nat, |r: int| cells.subrange(r * cols, r * cols + cols))
}

/// A grid of `rows` rows of `cols` cells each.
pub open spec fn shaped(g: Seq<Seq<Cell>>, rows: int, cols: int) -> bool {
    g.len() == rows && forall|r: int| 0 <= r < rows ==> #[trigger] g[r].len() == cols
}

/// A screen model's invariant: a non-empty grid of the stated size, the cursor within one cell of
/// the screen (`-1` where unknown), a well-formed SGR engine, a 128-entry glyph map, and a
/// cursor-motion profile whose width the motion arithmetic can hold.
pub open spec fn screen_wf(s: ScreenV) -> bool {
    &&& 1 <= s.rows <= i32::MAX
    &&& 1 <= s.cols <= i32::MAX
    &&& s.cols <= i32::MAX - 1
    &&& s.rows * s.cols <= i32::MAX
    &&& shaped(s.cur, s.rows, s.cols)
    &&& -1 <= s.cursrow < s.rows
    &&& -1 <= s.curscol <= 3 * s.cols + 2
    &&& s.caps.cols >= i32::MIN + 8
    &&& s.term.acsc.len() == 128
    &&& forall|k: i16| #[trigger] s.vid.palette.contains_key(k) ==> k >= 1
}

/// A fresh screen of at least one row and column: all blanks, cursor unknown, repaint pending.
pub open spec fn new_screen_v(rows: int, cols: int, palette: Map<i16, (i16, i16)>) -> ScreenV {
    let r = if rows < 1 { 1 } else { rows };
    let c = if cols < 1 { 1 } else { cols };
    ScreenV {
        rows: r,
        cols: c,
        cur: filled(r, c, blank()),
        cursrow: -1,
        curscol: -1,
        cleared: true,
        leaveok: false,
        vid: crate::vid::new_vid_v(palette),
        caps: crate::cursor::caps::xterm_v(),
        term: xterm_term_v(),
    }
}





/// An SGR engine's caps and palette: its model with the current state cleared.
#[verifier::opaque]
pub open spec fn vid_cfg(v: VidV) -> VidV {
    VidV { prev: 0, ..v }
}

/// Two screen models that differ at most in the physical screen, the cursor and the SGR
/// engine's current state.
pub open spec fn same_cfg(a: ScreenV, b: ScreenV) -> bool {
    &&& a.rows == b.rows
    &&& a.cols == b.cols
    &&& a.cleared == b.cleared
    &&& a.leaveok == b.leaveok
    &&& a.caps == b.caps
    &&& a.term == b.term
    &&& vid_cfg(a.vid) == vid_cfg(b.vid)
}

/// The UTF-8 of a cell's combining marks from mark `k` on, up to the first empty slot.
pub open spec fn comb_v(c: Cell, k: int) -> Seq<u8>
    decreases 4 - k,
{
    if k < 0 || k >= 4 || c.comb[k] == '\0' {
        seq![]
    } else {
        utf8_of(c.comb[k]) + comb_v(c, k + 1)
    }
}

/// The bytes that draw a cell: an alternate-charset glyph through the `acsc` map, any other
/// character as UTF-8, then its combining marks.
#[verifier::opaque]
pub open spec fn glyph_v(t: TermV, c: Cell) -> Seq<u8> {
    (if c.attr & attrs::ALTCHARSET != 0 && (c.ch as u32) < 128 {
        seq![t.acsc[c.ch as u32 as int]]
    } else {
        utf8_of(c.ch)
    }) + comb_v(c, 0)
}

/// `exit_am_mode` / `enter_am_mode` as written around the bottom-right cell.
pub open spec fn rmam_lit() -> Seq<u8> {
    seq![0x1bu8, 0x5bu8, 0x3fu8, 0x37u8, 0x6cu8]
}

/// See [`rmam_lit`].
pub open spec fn smam_lit() -> Seq<u8> {
    seq![0x1bu8, 0x5bu8, 0x3fu8, 0x37u8, 0x68u8]
}

/// Whether the physical cursor is on the bottom-right cell.
pub open spec fn at_corner(s: ScreenV) -> bool {
    s.cursrow == s.rows - 1 && s.curscol == s.cols - 1
}

/// The SGR transition bytes from engine state `v` to mode `m` (see [`set_v`]).
#[verifier::opaque]
pub open spec fn sgr_out(v: VidV, m: u32) -> Seq<u8> {
    set_v(v, m)
}

/// The bytes `PutChar` emits for cell `c`: the SGR transition, then the glyph (bracketed by the
/// auto-margin switches on the bottom-right cell).
#[verifier::opaque]
pub open spec fn put_char_v(s: ScreenV, c: Cell) -> Seq<u8> {
    sgr_out(s.vid, c.attr) + if at_corner(s) {
        rmam_lit() + glyph_v(s.term, c) + smam_lit()
    } else {
        glyph_v(s.term, c)
    }
}

/// The overwrite hook of a move: the byte of the desired cell `(r, c)` when it is printable ASCII
/// drawn with the current attribute (rewriting it advances the cursor), else nothing.
pub open spec fn want_v(g: Seq<Seq<Cell>>, attr: u32, r: int, c: int) -> Option<u8> {
    if 0 <= r < g.len() && 0 <= c < g[r].len() && g[r][c].attr == attr && 0x20 <= (g[r][c].ch as u32)
        <= 0x7e {
        Some(g[r][c].ch as u32 as u8)
    } else {
        None
    }
}

/// The rows of a grid as a model.
pub open spec fn rows_v(g: Vec<Vec<Cell>>) -> Seq<Seq<Cell>> {
    Seq::new(g@.len(), |r: int| g@[r]@)
}





/// Grids `a` and `b` agree on every row but `row`.
pub open spec fn only_row(a: Seq<Seq<Cell>>, b: Seq<Seq<Cell>>, row: int) -> bool {
    a.len() == b.len() && forall|r: int| 0 <= r < a.len() && r != row ==> #[trigger] a[r] == b[r]
}

/// Row `fin` keeps each cell of `old`, except that cells in `[lo, hi)` may have taken the value
/// they have in `new`.
pub open spec fn toward(old: Seq<Cell>, new: Seq<Cell>, fin: Seq<Cell>, lo: int, hi: int) -> bool {
    fin.len() == old.len() && forall|x: int| 0 <= x < fin.len() ==> #[trigger] fin[x] == old[x] || (lo <= x < hi
        && fin[x] == new[x])
}

/// Row `r` with the cells in `[lo, hi)` set to `c`.
pub open spec fn fill_v(r: Seq<Cell>, lo: int, hi: int, c: Cell) -> Seq<Cell> {
    Seq::new(r.len(), |x: int| if lo <= x < hi { c } else { r[x] })
}

/// Row `r` with the cells in `[lo, hi]` copied from `n`.
pub open spec fn copy_v(r: Seq<Cell>, n: Seq<Cell>, lo: int, hi: int) -> Seq<Cell> {
    Seq::new(r.len(), |x: int| if lo <= x <= hi { n[x] } else { r[x] })
}

proof fn lemma_toward_trans(a: Seq<Cell>, b: Seq<Cell>, c: Seq<Cell>, n: Seq<Cell>, lo: int, mid: int, hi: int)
    requires
        toward(a, n, b, lo, mid),
        toward(b, n, c, mid, hi),
        lo <= mid <= hi,
    ensures
        toward(a, n, c, lo, hi),
{
    assert forall|x: int| 0 <= x < c.len() implies #[trigger] c[x] == a[x] || (lo <= x < hi && c[x] == n[x]) by {
        assert(c[x] == b[x] || (mid <= x < hi && c[x] == n[x]));
        assert(b[x] == a[x] || (lo <= x < mid && b[x] == n[x]));
    }
}



/// Cells `[lo, lo + n)` of row `r` all equal `c`.
pub open spec fn run_of(r: Seq<Cell>, lo: int, n: int, c: Cell) -> bool {
    forall|k: int| 0 <= k < n ==> #[trigger] r[lo + k] == c
}

proof fn lemma_toward_fill(a: Seq<Cell>, n: Seq<Cell>, lo: int, cnt: int, c: Cell)
    requires
        run_of(n, lo, cnt, c),
        a.len() == n.len(),
    ensures
        toward(a, n, fill_v(a, lo, lo + cnt, c), lo, lo + cnt),
{
    assert forall|x: int| 0 <= x < a.len() implies #[trigger] fill_v(a, lo, lo + cnt, c)[x] == a[x] || (lo <= x
        < lo + cnt && fill_v(a, lo, lo + cnt, c)[x] == n[x]) by {
        if lo <= x < lo + cnt {
            assert(n[lo + (x - lo)] == c);
        }
    }
}

proof fn lemma_toward_refl(a: Seq<Cell>, n: Seq<Cell>, lo: int, hi: int)
    ensures
        toward(a, n, a, lo, hi),
{
}

proof fn lemma_toward_widen(a: Seq<Cell>, n: Seq<Cell>, b: Seq<Cell>, lo: int, hi: int, lo2: int, hi2: int)
    requires
        toward(a, n, b, lo, hi),
        lo2 <= lo,
        hi <= hi2,
    ensures
        toward(a, n, b, lo2, hi2),
{
    assert forall|x: int| 0 <= x < b.len() implies #[trigger] b[x] == a[x] || (lo2 <= x < hi2 && b[x] == n[x]) by {
        assert(b[x] == a[x] || (lo <= x < hi && b[x] == n[x]));
    }
}



} // verus!
