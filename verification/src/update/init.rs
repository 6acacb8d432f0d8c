//! Building a fresh [`Screen`]: the xterm caps it starts with and its blank physical screen.

use vstd::prelude::*;
use super::{
    filled, identity_acsc, new_screen_v, screen_wf, to_vec, xterm_term_v, Screen, ScreenV, Term,
    ABSENT_COST, CUP_CH_COST, ECH_COST, EL1_COST, REP_COST,
};
use crate::color::Palette;
use crate::cursor::Caps;
use crate::vid::Vid;
use crate::window::{blank, Cell};

verus! {

impl Term {
    pub(crate) fn xterm() -> (t: Term)
        ensures
            t@ == xterm_term_v(),
    {
        let clear: &[u8] = &[0x1bu8, 0x5bu8, 0x48u8, 0x1bu8, 0x5bu8, 0x32u8, 0x4au8];
        let el: &[u8] = &[0x1bu8, 0x5bu8, 0x4bu8];
        let el1: &[u8] = &[0x1bu8, 0x5bu8, 0x31u8, 0x4bu8];
        let ed: &[u8] = &[0x1bu8, 0x5bu8, 0x4au8];
        let ech: &[u8] = &[0x1bu8, 0x5bu8, 0x25u8, 0x70u8, 0x31u8, 0x25u8, 0x64u8, 0x58u8];
        let rep: &[u8] = &[0x25u8, 0x70u8, 0x31u8, 0x25u8, 0x63u8, 0x1bu8, 0x5bu8, 0x25u8, 0x70u8, 0x32u8, 0x25u8, 0x7bu8, 0x31u8, 0x7du8, 0x25u8, 0x2du8, 0x25u8, 0x64u8, 0x62u8];
        let t = Term {
            clear_seq: to_vec(clear),
            el_seq: to_vec(el),
            el1_seq: to_vec(el1),
            ed_seq: to_vec(ed),
            has_rep: true,
            el_cost: 0,
            el1_cost: EL1_COST,
            has_ech: true,
            has_idc: true,
            ech_seq: to_vec(ech),
            ech_cost: ECH_COST,
            rep_seq: to_vec(rep),
            rep_cost: REP_COST,
            cup_ch_cost: CUP_CH_COST,
            xon: false,
            pad_char: 0,
            msgr: true,
            bce: true,
            am: true,
            xenl: true,
            smam: Vec::new(),
            rmam: Vec::new(),
            ich1: Vec::new(),
            ich: Vec::new(),
            smir: Vec::new(),
            rmir: Vec::new(),
            ip: Vec::new(),
            acsc: identity_acsc(),
        };
        assert(t@ =~= xterm_term_v());
        t
    }
}

pub(crate) fn blank_row(cols: i32) -> (r: Vec<Cell>)
    requires
        cols >= 0,
    ensures
        r@ == Seq::new(cols as nat, |x: int| blank()),
{
    let mut v: Vec<Cell> = Vec::new();
    let mut k: i32 = 0;
    while k < cols
        invariant
            0 <= k <= cols,
            v@ == Seq::new(k as nat, |x: int| blank()),
        decreases cols - k,
    {
        v.push(Cell::plain(' ', 0));
        k = k + 1;
        assert(v@ =~= Seq::new(k as nat, |x: int| blank()));
    }
    v
}

pub(crate) fn blank_grid(rows: i32, cols: i32) -> (g: Vec<Vec<Cell>>)
    requires
        rows >= 0,
        cols >= 0,
    ensures
        Seq::new(g@.len(), |r: int| g@[r]@) == filled(rows as int, cols as int, blank()),
{
    let mut g: Vec<Vec<Cell>> = Vec::new();
    let mut k: i32 = 0;
    while k < rows
        invariant
            0 <= k <= rows,
            cols >= 0,
            g@.len() == k,
            forall|r: int| 0 <= r < k ==> #[trigger] g@[r]@ == Seq::new(cols as nat, |x: int| blank()),
        decreases rows - k,
    {
        let row = blank_row(cols);
        g.push(row);
        k = k + 1;
    }
    assert(Seq::new(g@.len(), |r: int| g@[r]@) =~= filled(rows as int, cols as int, blank()));
    g
}

impl Screen {
    /// The screen's invariant.
    pub open spec fn wf(&self) -> bool {
        screen_wf(self@)
    }

    /// A fresh screen with an empty palette (see [`Screen::with_palette`]).
    pub fn new(rows: i32, cols: i32) -> (s: Screen)
        requires
            (if rows < 1 { 1 } else { rows as int }) * (if cols < 1 { 1 } else { cols as int }) <= i32::MAX,
            cols < i32::MAX,
        ensures
            s@ == new_screen_v(rows as int, cols as int, Map::empty()),
            s.wf(),
    {
        Screen::with_palette(rows, cols, Palette::new())
    }

    /// A fresh screen of `max(rows, 1)` by `max(cols, 1)` cells: all blanks, the cursor unknown
    /// and the clear flag set, so the first update repaints from scratch; colour pairs come from
    /// `palette`. The cell count must fit an `i32`, and the width must leave room for the
    /// cursor's 1-based column one past the last column.
    pub fn with_palette(rows: i32, cols: i32, palette: Palette) -> (s: Screen)
        requires
            (if rows < 1 { 1 } else { rows as int }) * (if cols < 1 { 1 } else { cols as int }) <= i32::MAX,
            cols < i32::MAX,
            palette.wf(),
        ensures
            s@ == new_screen_v(rows as int, cols as int, palette@),
            s.wf(),
    {
        let r = if rows < 1 { 1 } else { rows };
        let c = if cols < 1 { 1 } else { cols };
        assert(r <= i32::MAX && c <= i32::MAX) by (nonlinear_arith)
            requires
                r >= 1,
                c >= 1,
                r * c <= i32::MAX,
        ;
        let s = Screen {
            rows: r,
            cols: c,
            cur: blank_grid(r, c),
            cursrow: -1,
            curscol: -1,
            cleared: true,
            leaveok: false,
            vid: Vid::new(palette),
            caps: Caps::xterm(),
            t: Term::xterm(),
            sgr_from: 0,
        };
        assert(s@ =~= new_screen_v(rows as int, cols as int, palette@));
        s
    }
}

} // verus!
