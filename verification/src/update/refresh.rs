//! `doupdate`: one refresh of the terminal from the physical screen to a desired one.

use vstd::prelude::*;
use super::{grid_of, rows_v, same_cfg, screen_wf, shaped, vid_cfg, Screen, ScreenV};
use crate::vid::{effective_mode, set_v, VidV};
use crate::window::{attrs, Cell};

verus! {

/// The model is settled on desired grid `g` with the cursor parked at `(cury, curx)`: no repaint
/// pending, the physical screen equal to `g`, normal attributes, and the cursor parked there
/// (or left alone under `leaveok`).
pub open spec fn settled(s: ScreenV, g: Seq<Seq<Cell>>, cury: int, curx: int) -> bool {
    &&& !s.cleared
    &&& s.cur == g
    &&& s.vid.prev == 0
    &&& (s.leaveok || (s.cursrow == cury && s.curscol == curx))
}

/// The SGR transition that returns the terminal of screen model `s` to normal attributes from
/// mode `from`.
pub open spec fn attr_reset(s: ScreenV, from: u32) -> Seq<u8> {
    set_v(VidV { prev: from, ..s.vid }, 0)
}

/// Whether `b` ends with `suffix`.
pub open spec fn ends_with(b: Seq<u8>, suffix: Seq<u8>) -> bool {
    suffix.len() <= b.len() && b.subrange(b.len() - suffix.len(), b.len() as int) == suffix
}

/// Screen models that agree on everything an update does not change: size, caps, `leaveok`
/// and the SGR engine's caps and palette.
pub open spec fn same_setup(a: ScreenV, b: ScreenV) -> bool {
    &&& a.rows == b.rows
    &&& a.cols == b.cols
    &&& a.leaveok == b.leaveok
    &&& a.caps == b.caps
    &&& a.term == b.term
    &&& VidV { prev: 0, ..a.vid } == VidV { prev: 0, ..b.vid }
}

proof fn lemma_grid_index(rows: int, cols: int, r: int, c: int)
    requires
        0 <= r < rows,
        0 <= c < cols,
    ensures
        0 <= r * cols + c < rows * cols,
        r * cols + c + 1 <= (r + 1) * cols,
        (r + 1) * cols == r * cols + cols,
        (r + 1) * cols <= rows * cols,
        r * cols >= 0,
{
    assert(0 <= r * cols + c < rows * cols) by (nonlinear_arith)
        requires
            0 <= r < rows,
            0 <= c < cols,
    ;
    assert((r + 1) * cols == r * cols + cols) by (nonlinear_arith);
    assert((r + 1) * cols <= rows * cols) by (nonlinear_arith)
        requires
            0 <= r < rows,
            0 <= c < cols,
    ;
    assert(r * cols >= 0) by (nonlinear_arith)
        requires
            0 <= r,
            0 <= c < cols,
    ;
}

/// Cut a flat row-major cell list into rows.
fn to_rows(new: &[Cell], rows: i32, cols: i32) -> (g: Vec<Vec<Cell>>)
    requires
        1 <= rows,
        1 <= cols,
        rows * cols <= i32::MAX,
        new@.len() == rows * cols,
    ensures
        rows_v(g) == grid_of(new@, rows as int, cols as int),
        shaped(rows_v(g), rows as int, cols as int),
{
    let mut g: Vec<Vec<Cell>> = Vec::new();
    let mut r: i32 = 0;
    while r < rows
        invariant
            0 <= r <= rows,
            1 <= cols,
            rows * cols <= i32::MAX,
            new@.len() == rows * cols,
            g@.len() == r,
            forall|i: int| 0 <= i < r ==> #[trigger] g@[i]@ == new@.subrange(i * cols, i * cols + cols),
        decreases rows - r,
    {
        let mut row: Vec<Cell> = Vec::new();
        let mut c: i32 = 0;
        proof {
            lemma_grid_index(rows as int, cols as int, r as int, 0);
        }
        let base: i32 = r * cols;
        while c < cols
            invariant
                0 <= c <= cols,
                0 <= r < rows,
                base == r * cols,
                base + cols <= rows * cols,
                rows * cols <= i32::MAX,
                new@.len() == rows * cols,
                row@ == new@.subrange(base as int, base + c),
            decreases cols - c,
        {
            row.push(new[(base + c) as usize]);
            c = c + 1;
            proof {
                assert(row@ =~= new@.subrange(base as int, base + c));
            }
        }
        g.push(row);
        r = r + 1;
    }
    proof {
        assert(rows_v(g) =~= grid_of(new@, rows as int, cols as int));
        assert forall|i: int| 0 <= i < rows implies #[trigger] rows_v(g)[i].len() == cols by {
            lemma_grid_index(rows as int, cols as int, i, 0);
        }
    }
    g
}

impl Screen {
    fn set_cleared(&mut self, on: bool)
        requires
            old(self).wf(),
        ensures
            final(self).wf(),
            final(self)@ == (ScreenV { cleared: on, ..old(self)@ }),
    {
        self.cleared = on;
        proof {
            assert(self@ =~= (ScreenV { cleared: on, ..old(self)@ }));
        }
    }

    /// `doupdate`: the bytes that bring the terminal from the physical screen to `new` (a
    /// row-major grid of `rows * cols` cells) with the cursor parked at `(cury, curx)`. A pending
    /// repaint clears the screen and draws every line; otherwise shifted bands are scrolled and
    /// each line is redrawn only where it changed. Afterwards the physical screen equals `new`,
    /// the cursor is parked (unless `leaveok`), attributes are normal, and an update to the same
    /// screen and cursor emits nothing.
    pub fn doupdate(&mut self, new: &[Cell], cury: i32, curx: i32) -> (out: Vec<u8>)
        requires
            old(self).wf(),
            new@.len() == old(self)@.rows * old(self)@.cols,
            0 <= cury < old(self)@.rows,
            0 <= curx <= old(self)@.cols,
        ensures
            final(self).wf(),
            same_setup(final(self)@, old(self)@),
            settled(final(self)@, grid_of(new@, old(self)@.rows, old(self)@.cols), cury as int, curx as int),
            settled(old(self)@, grid_of(new@, old(self)@.rows, old(self)@.cols), cury as int, curx as int)
                ==> out@.len() == 0 && final(self)@ == old(self)@,
            ends_with(out@, attr_reset(final(self)@, final(self).reset_from())),
    {
        let ghost s0 = self@;
        let g = to_rows(new, self.rows, self.cols);
        let mut out: Vec<u8> = Vec::new();
        if self.cleared {
            self.clr_update(&mut out, &g);
            self.set_cleared(false);
        } else {
            self.scroll_optimize(&mut out, &g);
            let ghost s1 = self@;
            let nonempty = self.clr_bottom(&mut out, &g);
            let ghost s2 = self@;
            self.draw_lines(&mut out, &g, nonempty);
            proof {
                assert forall|r: int| 0 <= r < s0.rows implies #[trigger] self@.cur[r] == rows_v(g)[r] by {
                    if r >= nonempty {
                        assert(self@.cur[r] == s2.cur[r]);
                    }
                }
                assert(self@.cur =~= rows_v(g));
            }
        }
        if !self.leaveok {
            self.goto(&mut out, &g, cury, curx);
        }
        let ghost s3 = self@;
        let ghost o3 = out@;
        self.update_attrs(&mut out, 0);
        proof {
            reveal(crate::update::sgr_out);
            assert(VidV { prev: self.reset_from(), ..self@.vid } == s3.vid);
            assert(out@.subrange(out@.len() - attr_reset(self@, self.reset_from()).len(), out@.len() as int) =~= attr_reset(self@, self.reset_from()));
            reveal(vid_cfg);
            let v = s3.vid;
            assert(effective_mode(v, 0) == 0) by {
                assert(0u32 & (crate::vid::ALL_BUT_COLOR | attrs::COLOR) == 0) by (bit_vector);
                assert(0u32 & !v.ncv == 0) by (bit_vector);
            }
            if settled(s0, grid_of(new@, s0.rows, s0.cols), cury as int, curx as int) {
                assert(s3.vid.prev == 0);
                assert(VidV { prev: 0, ..s3.vid } == s3.vid);
            }
        }
        out
    }
}


} // verus!
