//! Whole-screen painting: `ClearScreen`, `ClrBottom` / `ClrToEOS`, the bottom-right corner, and
//! the from-scratch repaint `ClrUpdate`.

use vstd::prelude::*;
use super::scroll::all_is;
use super::{
    can_clear_with, clearable, fill_v, filled, rows_v, same_cfg, screen_wf, shaped, Screen,
    ScreenV,
};
use crate::fmt::push_bytes;
use crate::window::{attrs, blank, Cell};

verus! {

/// Whether the first `n` cells of `r` all equal `c`.
fn all_eq(r: &Vec<Cell>, c: Cell, n: i32) -> (b: bool)
    requires
        0 <= n <= r@.len(),
    ensures
        b == all_is(r@, n as int, c),
{
    let mut k: i32 = 0;
    while k < n
        invariant
            0 <= k <= n <= r@.len(),
            all_is(r@, k as int, c),
        decreases n - k,
    {
        if r[k as usize] != c {
            return false;
        }
        k = k + 1;
    }
    true
}

impl Screen {
    /// `ClrToEOS`: `clr_eos` from the cursor, and the physical screen blanked from there down.
    fn clr_to_eos(&mut self, out: &mut Vec<u8>, blank: Cell)
        requires
            old(self).wf(),
            0 <= old(self)@.cursrow,
            0 <= old(self)@.curscol <= old(self)@.cols,
        ensures
            final(self).wf(),
            same_cfg(final(self)@, old(self)@),
            final(self)@.cursrow == old(self)@.cursrow,
            final(self)@.curscol == old(self)@.curscol,
            final(self)@.cur.len() == old(self)@.cur.len(),
            forall|r: int| 0 <= r < old(self)@.cursrow ==> #[trigger] final(self)@.cur[r] == old(self)@.cur[r],
            final(self)@.cur[old(self)@.cursrow] == fill_v(old(self)@.cur[old(self)@.cursrow], old(self)@.curscol, old(self)@.cols, blank),
            forall|r: int| old(self)@.cursrow < r < old(self)@.rows ==> #[trigger] final(self)@.cur[r] == Seq::new(old(self)@.cols as nat, |x: int| blank),
    {
        let ghost s0 = self@;
        let row0 = self.cursrow;
        self.update_attrs(out, blank.attr);
        push_bytes(out, self.t.ed_seq.as_slice());
        let c0 = self.curscol as i32;
        self.cur_fill(row0, c0, self.cols - c0, blank);
        let mut row = row0 + 1;
        while row < self.rows
            invariant
                screen_wf(s0),
                0 <= row0 < s0.rows,
                row0 < row <= s0.rows,
                self.wf(),
                same_cfg(self@, s0),
                self@.cursrow == s0.cursrow,
                self@.curscol == s0.curscol,
                s0.cursrow == row0,
                self@.cur.len() == s0.cur.len(),
                forall|r: int| 0 <= r < row0 ==> #[trigger] self@.cur[r] == s0.cur[r],
                self@.cur[row0 as int] == fill_v(s0.cur[row0 as int], s0.curscol, s0.cols, blank),
                forall|r: int| row0 < r < row ==> #[trigger] self@.cur[r] == Seq::new(s0.cols as nat, |x: int| blank),
            decreases s0.rows - row,
        {
            let cols = self.cols;
            self.cur_fill(row, 0, cols, blank);
            proof {
                assert(fill_v(self@.cur[row as int], 0, cols as int, blank) =~= Seq::new(s0.cols as nat, |x: int| blank));
            }
            row = row + 1;
        }
    }

    /// The first row of the trailing run of desired rows that are all `blank`, from which the
    /// physical screen differs (the row count when there is none).
    fn bottom_top(&self, new: &Vec<Vec<Cell>>, blank: Cell) -> (top: i32)
        requires
            self.wf(),
            shaped(rows_v(*new), self@.rows, self@.cols),
        ensures
            0 <= top <= self@.rows,
            forall|r: int| top <= r < self@.rows ==> all_is(#[trigger] rows_v(*new)[r], self@.cols, blank),
            self@.cur == rows_v(*new) ==> top == self@.rows,
    {
        let ghost g = rows_v(*new);
        let total = self.rows;
        let last = self.cols;
        let mut top = total;
        let mut row = total - 1;
        while row >= 0
            invariant
                screen_wf(self@),
                shaped(g, self@.rows, self@.cols),
                g == rows_v(*new),
                total == self@.rows,
                last == self@.cols,
                -1 <= row < total,
                row < top <= total,
                forall|r: int| row < r < total ==> all_is(#[trigger] g[r], last as int, blank),
                self@.cur == g ==> top == total,
            decreases row + 1,
        {
            proof {
                assert(g[row as int] == new@[row as int]@);
                assert(self@.cur[row as int] == self.cur@[row as int]@);
            }
            let new_blank = all_eq(&new[row as usize], blank, last);
            if !new_blank {
                break;
            }
            let cur_blank = all_eq(&self.cur[row as usize], blank, last);
            if !cur_blank {
                top = row;
            }
            row = row - 1;
        }
        top
    }

    /// `ClrBottom`: when the bottom rows of the desired screen are erasable blanks, clear them
    /// with `clr_eos` from the topmost of them that is not blank on the physical screen. Returns
    /// the first row left to line-by-line drawing.
    pub(crate) fn clr_bottom(&mut self, out: &mut Vec<u8>, new: &Vec<Vec<Cell>>) -> (top: i32)
        requires
            old(self).wf(),
            shaped(rows_v(*new), old(self)@.rows, old(self)@.cols),
        ensures
            final(self).wf(),
            same_cfg(final(self)@, old(self)@),
            0 <= top <= old(self)@.rows,
            final(self)@.cur.len() == old(self)@.cur.len(),
            forall|r: int| 0 <= r < top ==> #[trigger] final(self)@.cur[r] == old(self)@.cur[r],
            forall|r: int| top <= r < old(self)@.rows ==> #[trigger] final(self)@.cur[r] == rows_v(*new)[r],
            old(self)@.cur == rows_v(*new) ==> top == old(self)@.rows && final(self)@ == old(self)@
                && final(out)@ == old(out)@,
    {
        let ghost s0 = self@;
        let ghost g = rows_v(*new);
        let total = self.rows;
        let last = self.cols;
        proof {
            assert(g[total - 1] == new@[total - 1]@);
        }
        let blank = new[(total - 1) as usize][(last - 1) as usize];
        if self.t.ed_seq.len() > 0 && can_clear_with(blank) {
            let top = self.bottom_top(new, blank);
            if top < total {
                self.goto(out, new, top, 0);
                self.clr_to_eos(out, blank);
                proof {
                    assert forall|r: int| top <= r < s0.rows implies #[trigger] self@.cur[r] == g[r] by {
                        assert(all_is(g[r], last as int, blank));
                        assert(self@.cur[r] =~= g[r]);
                    }
                }
            }
            top
        } else {
            total
        }
    }
}


impl Screen {
    /// Insert one cell at the cursor (`parm_ich`, else insert mode, else `insert_character`).
    fn ins_one(&mut self, out: &mut Vec<u8>, c: Cell)
        requires
            old(self).wf(),
            -1 <= old(self)@.curscol < old(self)@.cols,
        ensures
            final(self).wf(),
            same_cfg(final(self)@, old(self)@),
            final(self)@.cur == old(self)@.cur,
            final(self)@.cursrow == old(self)@.cursrow,
    {
        let xon = self.t.xon;
        let pad = self.t.pad_char;
        if self.t.ich.len() > 0 {
            let params: &[i32] = &[1i32];
            self.emit_parm(out, self.t.ich.as_slice(), params);
            self.emit_glyph(out, c);
            self.curscol = self.curscol + 1;
        } else if self.t.smir.len() > 0 && self.t.rmir.len() > 0 {
            self.emit_padded(out, self.t.smir.as_slice());
            self.emit_glyph(out, c);
            self.curscol = self.curscol + 1;
            if self.t.ip.len() > 0 {
                self.emit_padded(out, self.t.ip.as_slice());
            }
            self.emit_padded(out, self.t.rmir.as_slice());
        } else if self.t.ich1.len() > 0 {
            self.emit_padded(out, self.t.ich1.as_slice());
            self.emit_glyph(out, c);
            self.curscol = self.curscol + 1;
            if self.t.ip.len() > 0 {
                self.emit_padded(out, self.t.ip.as_slice());
            }
        }
    }

    /// `PutCharLR` for the bottom-right cell of a blank fill: write it directly without auto
    /// margins, bracket it with `rmam`/`smam`, insert it from the cell before, or skip it.
    fn corner_blank(&mut self, out: &mut Vec<u8>, new: &Vec<Vec<Cell>>, c: Cell)
        requires
            old(self).wf(),
            old(self)@.cursrow == old(self)@.rows - 1,
            old(self)@.curscol == old(self)@.cols - 1,
        ensures
            final(self).wf(),
            same_cfg(final(self)@, old(self)@),
            final(self)@.cur == old(self)@.cur,
    {
        let r = self.cursrow;
        let col = self.curscol;
        if !self.t.am {
            self.emit_glyph(out, c);
            self.set_cursor(r, col + 1);
        } else if self.t.smam.len() > 0 && self.t.rmam.len() > 0 {
            self.emit_padded(out, self.t.rmam.as_slice());
            self.emit_glyph(out, c);
            self.emit_padded(out, self.t.smam.as_slice());
        } else if (self.t.smir.len() > 0 && self.t.rmir.len() > 0) || self.t.ich1.len() > 0 || self.t.ich.len() > 0 {
            self.corner_insert(out, new, c);
        }
    }

    /// The insert form of `PutCharLR`: write the cell one column early, step back, and insert it.
    fn corner_insert(&mut self, out: &mut Vec<u8>, new: &Vec<Vec<Cell>>, c: Cell)
        requires
            old(self).wf(),
        ensures
            final(self).wf(),
            same_cfg(final(self)@, old(self)@),
            final(self)@.cur == old(self)@.cur,
    {
        let r = self.rows - 1;
        let col = self.cols - 2;
        self.goto(out, new, r, col);
        self.emit_glyph(out, c);
        self.set_cursor(r, col as i64 + 1);
        self.goto(out, new, r, col);
        self.ins_one(out, c);
    }
}


impl Screen {
    /// Clear by `clr_eol` on every line, then home the cursor.
    fn clear_by_lines(&mut self, out: &mut Vec<u8>, new: &Vec<Vec<Cell>>, blank: Cell)
        requires
            old(self).wf(),
        ensures
            final(self).wf(),
            same_cfg(final(self)@, old(self)@),
    {
        let ghost s0 = self@;
        self.set_cursor(-1, -1);
        self.update_attrs(out, blank.attr);
        let rows = self.rows;
        let mut i: i32 = 0;
        while i < rows
            invariant
                0 <= i <= rows,
                rows == s0.rows,
                screen_wf(s0),
                self.wf(),
                same_cfg(self@, s0),
            decreases rows - i,
        {
            self.goto(out, new, i, 0);
            push_bytes(out, self.t.el_seq.as_slice());
            i = i + 1;
        }
        self.goto(out, new, 0, 0);
    }

    /// One row of a blank fill: every cell written, the last one of the screen through
    /// `PutCharLR`.
    fn fill_row(&mut self, out: &mut Vec<u8>, new: &Vec<Vec<Cell>>, i: i32, blank: Cell)
        requires
            old(self).wf(),
            0 <= i < old(self)@.rows,
        ensures
            final(self).wf(),
            same_cfg(final(self)@, old(self)@),
    {
        let ghost s0 = self@;
        let rows = self.rows;
        let cols = self.cols;
        self.goto(out, new, i, 0);
        let mut j: i32 = 0;
        while j < cols
            invariant
                0 <= j <= cols,
                0 <= i < rows,
                rows == s0.rows,
                cols == s0.cols,
                screen_wf(s0),
                self.wf(),
                same_cfg(self@, s0),
                j < cols ==> self@.cursrow == i,
            decreases cols - j,
        {
            self.set_cursor(i, j as i64);
            if i == rows - 1 && j == cols - 1 {
                self.corner_blank(out, new, blank);
            } else {
                self.emit_glyph(out, blank);
            }
            j = j + 1;
        }
    }

    /// The cursor after a row of a blank fill, unless it was the last: unknown with `xenl`, at
    /// the next row's start with auto margins, else past the right margin.
    fn after_fill_row(&mut self, i: i32)
        requires
            old(self).wf(),
            0 <= i < old(self)@.rows - 1,
        ensures
            final(self).wf(),
            same_cfg(final(self)@, old(self)@),
    {
        if self.t.xenl {
            self.set_cursor(-1, -1);
        } else if self.t.am {
            self.set_cursor(i + 1, 0);
        } else {
            let r = self.cursrow;
            let c = self.cols as i64;
            self.set_cursor(r, c);
        }
    }

    /// Clear by writing blanks over the whole screen, then home the cursor.
    fn clear_by_fill(&mut self, out: &mut Vec<u8>, new: &Vec<Vec<Cell>>, blank: Cell)
        requires
            old(self).wf(),
        ensures
            final(self).wf(),
            same_cfg(final(self)@, old(self)@),
    {
        let ghost s0 = self@;
        self.update_attrs(out, blank.attr);
        let rows = self.rows;
        let mut i: i32 = 0;
        while i < rows
            invariant
                0 <= i <= rows,
                rows == s0.rows,
                screen_wf(s0),
                self.wf(),
                same_cfg(self@, s0),
            decreases rows - i,
        {
            self.fill_row(out, new, i, blank);
            if i < rows - 1 {
                self.after_fill_row(i);
            }
            i = i + 1;
        }
        self.goto(out, new, 0, 0);
    }

    /// Clear the terminal with the best cap it has (`clear_screen`, else `clr_eos`, else
    /// `clr_eol` per line, else a blank fill; only the fill honours the background colour on a
    /// colour terminal without `bce`), after setting the default colours where `blank` has none.
    fn clear_terminal(&mut self, out: &mut Vec<u8>, new: &Vec<Vec<Cell>>, blank: Cell)
        requires
            old(self).wf(),
        ensures
            final(self).wf(),
            same_cfg(final(self)@, old(self)@),
    {
        if blank.attr & attrs::COLOR == 0 {
            let d = self.vid.color_init_default();
            push_bytes(out, d.as_slice());
        }
        let fast_clear = !self.vid.color_active() || self.t.bce;
        if fast_clear && self.t.clear_seq.len() > 0 {
            self.update_attrs(out, blank.attr);
            push_bytes(out, self.t.clear_seq.as_slice());
            self.set_cursor(0, 0);
        } else if fast_clear && self.t.ed_seq.len() > 0 {
            self.set_cursor(-1, -1);
            self.goto(out, new, 0, 0);
            self.update_attrs(out, blank.attr);
            push_bytes(out, self.t.ed_seq.as_slice());
        } else if fast_clear && self.t.el_seq.len() > 0 {
            self.clear_by_lines(out, new, blank);
        } else {
            self.clear_by_fill(out, new, blank);
        }
    }

    /// Record the physical screen as all blank.
    fn set_blank(&mut self)
        requires
            old(self).wf(),
        ensures
            final(self).wf(),
            final(self)@ == (ScreenV { cur: filled(old(self)@.rows, old(self)@.cols, crate::window::blank()), ..old(self)@ }),
    {
        self.cur = super::init::blank_grid(self.rows, self.cols);
        proof {
            assert(self@ =~= (ScreenV { cur: filled(old(self)@.rows, old(self)@.cols, crate::window::blank()), ..old(self)@ }));
        }
    }

    /// `ClearScreen`: set the background, clear the terminal, and record the physical screen
    /// as blank.
    pub(crate) fn clear_screen(&mut self, out: &mut Vec<u8>, new: &Vec<Vec<Cell>>, blank: Cell)
        requires
            old(self).wf(),
        ensures
            final(self).wf(),
            same_cfg(final(self)@, old(self)@),
            final(self)@.cur == filled(old(self)@.rows, old(self)@.cols, crate::window::blank()),
    {
        self.clear_terminal(out, new, blank);
        self.set_blank();
    }

    /// `TransformLine` on rows `[0, upto)`: those rows of the physical screen then match the
    /// desired screen; nothing is emitted or changed where they already did.
    pub(crate) fn draw_lines(&mut self, out: &mut Vec<u8>, new: &Vec<Vec<Cell>>, upto: i32)
        requires
            old(self).wf(),
            shaped(rows_v(*new), old(self)@.rows, old(self)@.cols),
            0 <= upto <= old(self)@.rows,
        ensures
            final(self).wf(),
            same_cfg(final(self)@, old(self)@),
            final(self)@.cur.len() == old(self)@.cur.len(),
            forall|r: int| 0 <= r < upto ==> #[trigger] final(self)@.cur[r] == rows_v(*new)[r],
            forall|r: int| upto <= r < old(self)@.rows ==> #[trigger] final(self)@.cur[r] == old(self)@.cur[r],
            old(self)@.cur == rows_v(*new) ==> final(self)@ == old(self)@ && final(out)@ == old(out)@,
    {
        let ghost s0 = self@;
        let ghost o0 = out@;
        let mut i: i32 = 0;
        while i < upto
            invariant
                0 <= i <= upto <= s0.rows,
                screen_wf(s0),
                shaped(rows_v(*new), s0.rows, s0.cols),
                self.wf(),
                same_cfg(self@, s0),
                self@.cur.len() == s0.cur.len(),
                forall|r: int| 0 <= r < i ==> #[trigger] self@.cur[r] == rows_v(*new)[r],
                forall|r: int| i <= r < s0.rows ==> #[trigger] self@.cur[r] == s0.cur[r],
                s0.cur == rows_v(*new) ==> self@ == s0 && out@ == o0,
            decreases upto - i,
        {
            let ghost before = self@;
            self.transform_line(out, new, i);
            proof {
                assert forall|r: int| 0 <= r < i + 1 implies #[trigger] self@.cur[r] == rows_v(*new)[r] by {
                    if r < i {
                        assert(self@.cur[r] == before.cur[r]);
                    }
                }
                assert forall|r: int| i + 1 <= r < s0.rows implies #[trigger] self@.cur[r] == s0.cur[r] by {
                    assert(self@.cur[r] == before.cur[r]);
                }
                if s0.cur == rows_v(*new) {
                    assert(before.cur[i as int] == rows_v(*new)[i as int]);
                }
            }
            i = i + 1;
        }
    }

    /// `ClrUpdate`: clear the screen (with the desired screen's background when its bottom-right
    /// cell is an erasable blank) and draw every line; the physical screen then matches the
    /// desired one.
    pub(crate) fn clr_update(&mut self, out: &mut Vec<u8>, new: &Vec<Vec<Cell>>)
        requires
            old(self).wf(),
            shaped(rows_v(*new), old(self)@.rows, old(self)@.cols),
        ensures
            final(self).wf(),
            same_cfg(final(self)@, old(self)@),
            final(self)@.cur == rows_v(*new),
    {
        let ghost s0 = self@;
        proof {
            assert(rows_v(*new)[s0.rows - 1] == new@[s0.rows - 1]@);
        }
        let corner = new[(self.rows - 1) as usize][(self.cols - 1) as usize];
        let blank = if can_clear_with(corner) { corner } else { Cell::plain(' ', 0) };
        self.clear_screen(out, new, blank);
        let ghost s1 = self@;
        let nonempty = self.clr_bottom(out, new);
        let ghost s2 = self@;
        self.draw_lines(out, new, nonempty);
        proof {
            assert forall|r: int| 0 <= r < s0.rows implies #[trigger] self@.cur[r] == rows_v(*new)[r] by {
                if r >= nonempty {
                    assert(self@.cur[r] == s2.cur[r]);
                }
            }
            assert(self@.cur =~= rows_v(*new));
        }
    }
}

} // verus!
